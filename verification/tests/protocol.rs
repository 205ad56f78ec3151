//! Detach keys, signals and the input of an attached client.

use std::io;

use tmuy::error::TmuyError;
use tmuy::runtime::protocol::{
    DetachScanner, InputStep, IoErrorKind, Signal, detach_sequence, is_peer_closed,
    parse_detach_token, parse_signal, process_group, signed,
};

fn kind_of(err: &io::Error) -> IoErrorKind {
    match err.kind() {
        io::ErrorKind::BrokenPipe => IoErrorKind::BrokenPipe,
        io::ErrorKind::ConnectionReset => IoErrorKind::ConnectionReset,
        io::ErrorKind::ConnectionAborted => IoErrorKind::ConnectionAborted,
        io::ErrorKind::UnexpectedEof => IoErrorKind::UnexpectedEof,
        io::ErrorKind::Interrupted => IoErrorKind::Interrupted,
        io::ErrorKind::WouldBlock => IoErrorKind::WouldBlock,
        _ => IoErrorKind::Other,
    }
}

#[test]
fn detach_and_signal_parsers_cover_error_cases() {
    assert_eq!(detach_sequence("C-a d").unwrap(), vec![0x01, b'd']);
    assert_eq!(parse_signal("HUP").unwrap(), Signal::SIGHUP);
    assert_eq!(parse_signal("KILL").unwrap(), Signal::SIGKILL);
    assert!(detach_sequence("").is_err());
    assert!(parse_detach_token("C-ab").is_err());
    assert!(parse_detach_token("xy").is_err());
    assert!(parse_signal("BOGUS").is_err());
}

#[test]
fn is_peer_closed_matches_expected_kinds() {
    assert!(is_peer_closed(kind_of(&io::Error::new(
        io::ErrorKind::BrokenPipe,
        "x"
    ))));
    assert!(is_peer_closed(kind_of(&io::Error::new(
        io::ErrorKind::ConnectionReset,
        "x"
    ))));
    assert!(!is_peer_closed(kind_of(&io::Error::new(io::ErrorKind::Other, "x"))));
}

#[test]
fn every_way_of_closing_counts_as_closed() {
    for kind in [
        IoErrorKind::BrokenPipe,
        IoErrorKind::ConnectionReset,
        IoErrorKind::ConnectionAborted,
        IoErrorKind::UnexpectedEof,
    ] {
        assert!(is_peer_closed(kind));
    }
    for kind in [IoErrorKind::Interrupted, IoErrorKind::WouldBlock, IoErrorKind::Other] {
        assert!(!is_peer_closed(kind));
    }
}

#[test]
fn attach_input_loop_handles_eof_and_peer_closed() {
    let mut scanner = DetachScanner::new(b"\x02d".to_vec());
    assert_eq!(scanner.read(None), InputStep::Close);

    let mut scanner = DetachScanner::new(b"\x02d".to_vec());
    assert_eq!(scanner.read(Some(b'x')), InputStep::Forward(b"x".to_vec()));
    assert!(is_peer_closed(IoErrorKind::BrokenPipe));
}

fn typed(scanner: &mut DetachScanner, input: &[u8]) -> (Vec<u8>, bool) {
    let mut sent = Vec::new();
    for byte in input {
        match scanner.read(Some(*byte)) {
            InputStep::Wait => {}
            InputStep::Forward(bytes) => sent.extend_from_slice(&bytes),
            InputStep::Close => return (sent, true),
        }
    }
    (sent, false)
}

#[test]
fn detach_sequence_is_held_back_and_closes() {
    let mut scanner = DetachScanner::new(detach_sequence("C-b d").unwrap());
    assert_eq!(scanner.read(Some(0x02)), InputStep::Wait);
    assert_eq!(scanner.read(Some(b'd')), InputStep::Close);

    let mut scanner = DetachScanner::new(detach_sequence("C-b d").unwrap());
    assert_eq!(typed(&mut scanner, b"ls\r\x02d"), (b"ls\r".to_vec(), true));
}

#[test]
fn input_that_only_starts_like_the_sequence_is_forwarded() {
    let mut scanner = DetachScanner::new(b"\x02d".to_vec());
    assert_eq!(
        typed(&mut scanner, b"a\x02b\x02\x02d\x03\x04"),
        (b"a\x02b\x02\x02d\x03\x04".to_vec(), false)
    );
    assert_eq!(scanner.read(Some(0x02)), InputStep::Wait);
    assert_eq!(scanner.read(Some(b'x')), InputStep::Forward(vec![0x02, b'x']));
}

#[test]
fn detach_tokens_stand_for_single_bytes() {
    assert_eq!(detach_sequence("C-b d").unwrap(), vec![0x02, b'd']);
    assert_eq!(detach_sequence(" C-B\t C-] \u{2003}x ").unwrap(), vec![0x02, 0x1d, b'x']);
    assert_eq!(parse_detach_token("C-@").unwrap(), 0);
    assert_eq!(parse_detach_token("C-Z").unwrap(), 0x1a);
    assert_eq!(parse_detach_token("C").unwrap(), b'C');
    assert_eq!(parse_detach_token("-").unwrap(), b'-');
}

#[test]
fn detach_errors_name_the_token() {
    assert_eq!(detach_sequence("  ").unwrap_err().message(), "detach key cannot be empty");
    assert_eq!(
        detach_sequence("a C- xy").unwrap_err().message(),
        "invalid control key token: C-"
    );
    assert_eq!(
        detach_sequence("C-\u{e9}").unwrap_err().message(),
        "invalid control key token: C-\u{e9}"
    );
    assert_eq!(
        detach_sequence("a \u{e9}").unwrap_err().message(),
        "invalid detach key token: \u{e9}"
    );
    assert_eq!(parse_detach_token("").unwrap_err().message(), "invalid detach key token: ");
}

#[test]
fn signals_are_named_with_or_without_prefix() {
    for (name, signal) in [
        ("INT", Signal::SIGINT),
        ("SigInt", Signal::SIGINT),
        ("term", Signal::SIGTERM),
        ("SIGTERM", Signal::SIGTERM),
        ("sigkill", Signal::SIGKILL),
        ("hup", Signal::SIGHUP),
        ("SIGHUP", Signal::SIGHUP),
    ] {
        assert_eq!(parse_signal(name).unwrap(), signal);
    }
    let err = parse_signal("usr1").unwrap_err();
    assert!(matches!(err, TmuyError::UnsupportedSignal(_)));
    assert_eq!(err.message(), "unsupported signal: USR1");
}

#[test]
fn process_numbers_become_groups() {
    for pid in [0u32, 1, 42, 0x7fff_ffff, 0x8000_0000, 0x8000_0001, 0xffff_ffff] {
        assert_eq!(signed(pid), pid as i32);
        assert_eq!(process_group(pid), (pid as i32).wrapping_neg());
    }
}
