//! What holds of detach keys, of what is typed, and of signals.

use vstd::prelude::*;

use crate::error::ErrorView;
use crate::runtime::protocol;
use crate::runtime::protocol::{IoErrorKind, Signal, StepView};
use crate::text;
use crate::text::Separator;

verus! {

/// A token of one ASCII character stands for that character, and `C-` with one
/// for its control key, which is the same for capitals and small letters.
/// Anything else is refused by name.
pub proof fn tokens_stand_for_their_key(token: Seq<char>, c: char)
    ensures
        (c as u32) < 128 ==> protocol::token_byte(seq![c]) == Ok::<u8, ErrorView>(c as u8),
        (c as u32) < 128 ==> protocol::token_byte(seq!['C', '-', c]) == Ok::<u8, ErrorView>(
            (c as u32 % 32) as u8,
        ),
        (c as u32) >= 128 ==> protocol::token_byte(seq![c]) == Err::<u8, ErrorView>(
            ErrorView::InvalidDetachKey(seq![c]),
        ),
        (c as u32) >= 128 ==> protocol::token_byte(seq!['C', '-', c]) == Err::<u8, ErrorView>(
            ErrorView::InvalidControlKey(seq!['C', '-', c]),
        ),
        token.len() >= 2 && token[0] == 'C' && token[1] == '-' && token.len() != 3
            ==> protocol::token_byte(token) == Err::<u8, ErrorView>(
            ErrorView::InvalidControlKey(token),
        ),
        token.len() != 1 && !(token.len() >= 2 && token[0] == 'C' && token[1] == '-')
            ==> protocol::token_byte(token) == Err::<u8, ErrorView>(
            ErrorView::InvalidDetachKey(token),
        ),
{
    lemma_prefix(seq![c]);
    lemma_prefix(seq!['C', '-', c]);
    lemma_prefix(token);
    if (c as u32) < 128 {
        let b = c as u8;
        assert(text::ascii_lower(c) as u8 % 32 == b % 32) by {
            if 'A' <= c <= 'Z' {
                assert(text::ascii_lower(c) as u8 == b + 32);
            }
        }
    }
}

proof fn lemma_prefix(token: Seq<char>)
    ensures
        "C-"@.is_prefix_of(token) <==> token.len() >= 2 && token[0] == 'C' && token[1] == '-',
{
    reveal_strlit("C-");
    if "C-"@.is_prefix_of(token) {
        assert(token.subrange(0, 2)[0] == 'C');
        assert(token.subrange(0, 2)[1] == '-');
    }
    if token.len() >= 2 && token[0] == 'C' && token[1] == '-' {
        assert("C-"@ =~= token.subrange(0, 2));
    }
}

/// A detach key stands for the bytes of its tokens, one for each and in order.
/// Where a token stands for none, the first such token is refused, and so is a
/// key without tokens.
pub proof fn keys_stand_for_their_tokens(detach_key: Seq<char>, i: int)
    ensures
        ({
            let tokens = text::fields(detach_key, Separator::White);
            let bytes = protocol::key_bytes(detach_key);
            &&& tokens.len() == 0 ==> bytes == Err::<Seq<u8>, ErrorView>(ErrorView::EmptyDetachKey)
            &&& tokens.len() > 0 && (forall|k: int|
                0 <= k < tokens.len() ==> protocol::token_byte(#[trigger] tokens[k]) is Ok)
                ==> bytes is Ok && bytes->Ok_0.len() == tokens.len() && (0 <= i < tokens.len()
                ==> protocol::token_byte(tokens[i]) == Ok::<u8, ErrorView>(bytes->Ok_0[i]))
            &&& 0 <= i < tokens.len() && protocol::token_byte(tokens[i]) is Err && (forall|k: int|
                0 <= k < i ==> protocol::token_byte(#[trigger] tokens[k]) is Ok) ==> bytes == Err::<
                Seq<u8>,
                ErrorView,
            >(protocol::token_byte(tokens[i])->Err_0)
        }),
{
    let tokens = text::fields(detach_key, Separator::White);
    if 0 <= i < tokens.len() && protocol::token_byte(tokens[i]) is Err && (forall|k: int|
        0 <= k < i ==> protocol::token_byte(#[trigger] tokens[k]) is Ok) {
        assert(protocol::is_first_wrong_token(tokens, i));
        let j = protocol::first_wrong_token(tokens);
        assert(protocol::is_first_wrong_token(tokens, j));
        if j < i {
            assert(protocol::token_byte(tokens[j]) is Ok);
        } else if i < j {
            assert(protocol::token_byte(tokens[i]) is Ok);
        }
    }
}

/// Of what is held back, the whole detach sequence closes the connection, a
/// shorter start of it waits, and anything else is sent as it is, after which
/// nothing is held back.
pub proof fn held_input_waits_closes_or_is_sent(sequence: Seq<u8>, held: Seq<u8>)
    ensures
        held == sequence ==> protocol::held_step(sequence, held) == StepView::Close
            && protocol::held_after(sequence, held) == held,
        held != sequence && held.is_prefix_of(sequence) ==> protocol::held_step(sequence, held)
            == StepView::Wait && protocol::held_after(sequence, held) == held,
        !held.is_prefix_of(sequence) ==> protocol::held_step(sequence, held) == StepView::Forward(
            held,
        ) && protocol::held_after(sequence, held) == Seq::<u8>::empty(),
{
    if held == sequence {
        assert(held =~= sequence.subrange(0, held.len() as int));
    }
}

/// A client takes in one byte after the other, as its steps say, and nothing
/// after it has closed.
pub proof fn input_is_taken_in_by_bytes(sequence: Seq<u8>, input: Seq<u8>, byte: u8)
    ensures
        ({
            let before = protocol::run_input(sequence, input);
            let after = protocol::run_input(sequence, input.push(byte));
            let held = before.held.push(byte);
            &&& before.closed ==> after == before
            &&& !before.closed ==> after.closed == (held == sequence)
            &&& !before.closed && held.is_prefix_of(sequence) ==> after.sent == before.sent
                && after.held == held
            &&& !before.closed && !held.is_prefix_of(sequence) ==> after.sent == before.sent + held
                && after.held.len() == 0
        }),
{
    assert(input.push(byte).drop_last() =~= input);
    let held = protocol::run_input(sequence, input).held.push(byte);
    if held == sequence {
        assert(held =~= sequence.subrange(0, held.len() as int));
    }
}

/// Input in which no byte starts the detach sequence is all sent, byte for byte.
pub proof fn other_input_is_sent_as_it_is(sequence: Seq<u8>, input: Seq<u8>)
    requires
        sequence.len() > 0,
        forall|i: int| 0 <= i < input.len() ==> #[trigger] input[i] != sequence[0],
    ensures
        protocol::run_input(sequence, input).sent == input,
        protocol::run_input(sequence, input).held.len() == 0,
        !protocol::run_input(sequence, input).closed,
    decreases input.len(),
{
    if input.len() > 0 {
        let rest = input.drop_last();
        assert forall|i: int| 0 <= i < rest.len() implies #[trigger] rest[i] != sequence[0] by {
            assert(rest[i] == input[i]);
        }
        other_input_is_sent_as_it_is(sequence, rest);
        let held = protocol::run_input(sequence, rest).held.push(input.last());
        assert(held =~= seq![input.last()]);
        if held.is_prefix_of(sequence) {
            assert(held[0] == sequence.subrange(0, 1)[0]);
        }
        assert(input.last() == input[input.len() - 1]);
        assert(held != sequence);
        assert(protocol::run_input(sequence, input).sent =~= input);
    } else {
        assert(protocol::run_input(sequence, input).sent =~= input);
    }
}

/// A signal is known by its name in capitals, with or without `SIG`, and no
/// other name is known.
pub proof fn signals_are_known_by_name(name: Seq<char>)
    ensures
        protocol::signal_named(name) == Some(Signal::SIGINT) <==> name == "INT"@ || name
            == "SIGINT"@,
        protocol::signal_named(name) == Some(Signal::SIGTERM) <==> name == "TERM"@ || name
            == "SIGTERM"@,
        protocol::signal_named(name) == Some(Signal::SIGKILL) <==> name == "KILL"@ || name
            == "SIGKILL"@,
        protocol::signal_named(name) == Some(Signal::SIGHUP) <==> name == "HUP"@ || name
            == "SIGHUP"@,
{
    reveal_strlit("INT");
    reveal_strlit("SIGINT");
    reveal_strlit("TERM");
    reveal_strlit("SIGTERM");
    reveal_strlit("KILL");
    reveal_strlit("SIGKILL");
    reveal_strlit("HUP");
    reveal_strlit("SIGHUP");
    assert("INT"@[0] == 'I' && "HUP"@[0] == 'H');
    assert("TERM"@[0] == 'T' && "KILL"@[0] == 'K');
    assert("SIGINT"@[3] == 'I' && "SIGHUP"@[3] == 'H');
    assert("SIGTERM"@[3] == 'T' && "SIGKILL"@[3] == 'K');
}

/// A name in capitals has each of its ASCII letters in capitals, and all else
/// as it was.
pub proof fn capitals_are_made_letter_by_letter(name: Seq<char>)
    ensures
        protocol::in_capitals(name).len() == name.len(),
        forall|i: int|
            0 <= i < name.len() ==> (#[trigger] protocol::in_capitals(name)[i]) as u32 == (if 'a'
                <= name[i] <= 'z' {
                (name[i] as u32 - 32) as u32
            } else {
                name[i] as u32
            }),
{
}

/// The other side of a connection is gone where it closed or broke it off.
pub proof fn peers_are_gone_where_they_broke_off(kind: IoErrorKind)
    ensures
        protocol::peer_closed(kind) <==> kind == IoErrorKind::BrokenPipe || kind
            == IoErrorKind::ConnectionReset || kind == IoErrorKind::ConnectionAborted || kind
            == IoErrorKind::UnexpectedEof,
{
}

/// A number of 32 bits read as a signed one is the same modulo two to the 32nd,
/// and within the signed numbers of 32 bits.
pub proof fn numbers_are_read_as_signed(n: u32)
    ensures
        i32::MIN <= protocol::as_signed(n) <= i32::MAX,
        protocol::as_signed(n) == n || protocol::as_signed(n) == n - 0x1_0000_0000,
{
}

/// The group of a process is signaled by the negative of its number.
pub proof fn groups_are_signaled_by_the_negative(pid: u32)
    ensures
        pid <= i32::MAX ==> protocol::group_of(pid) == -(pid as int),
        pid > 0x8000_0000 ==> protocol::group_of(pid) == 0x1_0000_0000 - pid,
        pid == 0x8000_0000 ==> protocol::group_of(pid) == i32::MIN,
{
}

} // verus!
