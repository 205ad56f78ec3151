//! What the library has from other crates: the clock and calendar of `chrono`,
//! the generator of `rand`, the codec of `base64` and the command builder of
//! `portable_pty`, and from `std` what reads and quotes text. The contracts in
//! this file are believed, not proved.

use vstd::prelude::*;

use base64::Engine;
use chrono::Datelike;

use crate::model::Timestamp;

verus! {

/// The year, month and day, in UTC, of the second `secs` of Unix time, or
/// nothing where `chrono` cannot represent that second.
pub uninterp spec fn utc_date_of(secs: int) -> Option<(i32, u32, u32)>;

/// `chrono::DateTime::<Utc>::from_timestamp` followed by `year`, `month` and
/// `day`: the date is a function of the second alone, its month lies in 1..=12
/// and its day in 1..=31.
#[verifier::external_body]
pub(crate) fn utc_date(secs: i64) -> (r: Option<(i32, u32, u32)>)
    ensures
        r == utc_date_of(secs as int),
        r matches Some(d) ==> 1 <= d.1 <= 12 && 1 <= d.2 <= 31,
{
    match chrono::DateTime::<chrono::Utc>::from_timestamp(secs, 0) {
        Some(t) => Some((t.year(), t.month(), t.day())),
        None => None,
    }
}

/// How `chrono` writes the instant `secs` seconds and `nanos` nanoseconds after
/// the Unix epoch, or nothing where it cannot represent that instant.
pub uninterp spec fn utc_text_of(secs: int, nanos: nat) -> Option<Seq<char>>;

/// `chrono::DateTime::<Utc>::from_timestamp` followed by its `Display`: the text
/// is a function of the seconds and the nanoseconds.
#[verifier::external_body]
pub(crate) fn utc_text(at: Timestamp) -> (r: Option<String>)
    ensures
        match r {
            Some(s) => utc_text_of(at.secs as int, at.nanos as nat) == Some(s@),
            None => utc_text_of(at.secs as int, at.nanos as nat) is None,
        },
{
    match chrono::DateTime::<chrono::Utc>::from_timestamp(at.secs, at.nanos) {
        Some(t) => Some(t.to_string()),
        None => None,
    }
}

/// `chrono::Utc::now`: the instant that the system clock shows. Whatever it is,
/// it does not lie before the Unix epoch, its nanoseconds make up less than a
/// second, and it has a calendar date and a text form. The call panics where the
/// clock stands before the epoch or beyond the calendar.
#[verifier::external_body]
pub(crate) fn utc_now() -> (r: Timestamp)
    ensures
        r.secs >= 0,
        r.nanos < 1_000_000_000,
        utc_date_of(r.secs as int) is Some,
        utc_text_of(r.secs as int, r.nanos as nat) is Some,
{
    let now = chrono::Utc::now();
    Timestamp { secs: now.timestamp(), nanos: now.timestamp_subsec_nanos() }
}

/// `rand::rng().random_range(0..=max)`: some number that is at most `max`.
#[verifier::external_body]
pub(crate) fn random_up_to(max: u32) -> (r: u32)
    ensures
        r <= max,
{
    rand::Rng::random_range(&mut rand::rng(), 0..=max)
}

/// The standard, padded base64 text of `data`.
pub uninterp spec fn base64_of(data: Seq<u8>) -> Seq<char>;

/// The bytes that the standard, padded base64 text `text` stands for, or nothing
/// where it is not such a text.
pub uninterp spec fn base64_bytes_of(text: Seq<char>) -> Option<Seq<u8>>;

/// `base64::engine::general_purpose::STANDARD.encode`: the text is a function
/// of the data, and decoding it gives the data back.
#[verifier::external_body]
pub(crate) fn base64_encode(data: &[u8]) -> (r: String)
    requires
        data@.len() <= usize::MAX / 4,
    ensures
        r@ == base64_of(data@),
        base64_bytes_of(r@) == Some(data@),
{
    base64::engine::general_purpose::STANDARD.encode(data)
}

/// Why `base64` rejects a text.
#[verifier::external_type_specification]
#[verifier::external_body]
pub struct ExDecodeError(base64::DecodeError);

/// `base64::engine::general_purpose::STANDARD.decode`: the bytes, or the
/// rejection, are a function of the text.
#[verifier::external_body]
pub(crate) fn base64_decode(text: &str) -> (r: Result<Vec<u8>, base64::DecodeError>)
    ensures
        match r {
            Ok(data) => base64_bytes_of(text@) == Some(data@),
            Err(_) => base64_bytes_of(text@) is None,
        },
{
    base64::engine::general_purpose::STANDARD.decode(text)
}

/// A command being prepared for a pseudo-terminal.
#[verifier::external_type_specification]
#[verifier::external_body]
pub struct ExCommandBuilder(portable_pty::CommandBuilder);

/// The program and the arguments that a command builder holds, in order.
pub uninterp spec fn command_args(b: portable_pty::CommandBuilder) -> Seq<Seq<char>>;

/// The environment variables that were set on a command builder, over those
/// that it took from the running process.
pub uninterp spec fn command_env(b: portable_pty::CommandBuilder) -> Map<Seq<char>, Seq<char>>;

/// The working directory that a command builder holds.
pub uninterp spec fn command_cwd(b: portable_pty::CommandBuilder) -> Option<Seq<char>>;

/// `portable_pty::CommandBuilder::new`: a builder that holds the program alone,
/// with no variable set and no working directory.
#[verifier::external_body]
pub(crate) fn builder_new(program: &str) -> (r: portable_pty::CommandBuilder)
    ensures
        command_args(r) == seq![program@],
        forall|name: Seq<char>| !#[trigger] command_env(r).contains_key(name),
        command_cwd(r) is None,
{
    portable_pty::CommandBuilder::new(program)
}

/// `portable_pty::CommandBuilder::arg`: appends one argument and changes nothing
/// else. It panics on a builder that holds no program.
#[verifier::external_body]
pub(crate) fn builder_arg(b: &mut portable_pty::CommandBuilder, arg: &str)
    requires
        command_args(*old(b)).len() > 0,
    ensures
        command_args(*final(b)) == command_args(*old(b)).push(arg@),
        command_env(*final(b)) == command_env(*old(b)),
        command_cwd(*final(b)) == command_cwd(*old(b)),
{
    b.arg(arg);
}

/// `portable_pty::CommandBuilder::cwd`: sets the working directory and changes
/// nothing else.
#[verifier::external_body]
pub(crate) fn builder_cwd(b: &mut portable_pty::CommandBuilder, dir: &str)
    ensures
        command_args(*final(b)) == command_args(*old(b)),
        command_env(*final(b)) == command_env(*old(b)),
        command_cwd(*final(b)) == Some(dir@),
{
    b.cwd(dir);
}

/// `portable_pty::CommandBuilder::env`, on Unix, where names that differ in
/// case are different variables: sets one variable and changes nothing else.
#[verifier::external_body]
pub(crate) fn builder_env(b: &mut portable_pty::CommandBuilder, name: &str, value: &str)
    ensures
        command_args(*final(b)) == command_args(*old(b)),
        command_env(*final(b)) == command_env(*old(b)).insert(name@, value@),
        command_cwd(*final(b)) == command_cwd(*old(b)),
{
    b.env(name, value);
}

/// `String::from_utf8`: the text that the bytes encode, or nothing where they
/// are not UTF-8.
#[verifier::external_body]
pub(crate) fn utf8_text(bytes: &[u8]) -> (r: Option<String>)
    ensures
        match r {
            Some(s) => vstd::utf8::valid_utf8(bytes@) && vstd::utf8::encode_utf8(s@) == bytes@,
            None => !vstd::utf8::valid_utf8(bytes@),
        },
{
    String::from_utf8(bytes.to_vec()).ok()
}

/// The text of bytes of which some may not be UTF-8.
pub uninterp spec fn lossy_text_of(bytes: Seq<u8>) -> Seq<char>;

/// `String::from_utf8_lossy`: the text is a function of the bytes, and where
/// they are UTF-8 it is the text that they encode.
#[verifier::external_body]
pub(crate) fn lossy_text(bytes: &[u8]) -> (r: String)
    ensures
        r@ == lossy_text_of(bytes@),
        vstd::utf8::valid_utf8(bytes@) ==> vstd::utf8::encode_utf8(r@) == bytes@,
{
    String::from_utf8_lossy(bytes).into_owned()
}

/// A text in quotation marks, with its special characters escaped.
pub uninterp spec fn quoted_text_of(text: Seq<char>) -> Seq<char>;

/// The `Debug` form of `str`: a function of the text.
#[verifier::external_body]
pub(crate) fn quoted_text(text: &str) -> (r: String)
    ensures
        r@ == quoted_text_of(text@),
{
    format!("{:?}", text)
}

} // verus!
