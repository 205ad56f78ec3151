//! What happens around a running session: the process that hosts it, the
//! clients that attach to it, and the bytes that pass between them.

pub mod client;
pub mod daemon;
pub mod protocol;
pub mod server;
pub mod ui;
