//! The logic of `tmuy`, a terminal multiplexer for agents: one named terminal
//! session per task, kept in files, attached to and driven over local sockets.

pub mod text;
pub mod model;
pub mod outside;
pub mod path;
pub mod env_map;
pub mod error;
pub mod store;
pub mod lookup;
pub mod events;
pub mod laws;
pub mod sandbox;
pub mod runtime;
pub mod request;
pub mod rpc;
pub mod cli;
