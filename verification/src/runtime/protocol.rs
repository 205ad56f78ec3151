//! Detach keys, signals, and the input of an attached client.

use vstd::prelude::*;

use crate::error::{ErrorView, TmuyError};
use crate::text;
use crate::text::{Separator, ascii_upper_text, chars_of, same_text, split_fields};

verus! {

/// The byte that a token of a detach key stands for: `C-` and a character for
/// a control key, or a character by itself.
pub open spec fn token_byte(token: Seq<char>) -> Result<u8, ErrorView> {
    if "C-"@.is_prefix_of(token) {
        if token.len() == 3 && (token[2] as u32) < 128 {
            Ok((text::ascii_lower(token[2]) as u8 % 32) as u8)
        } else {
            Err(ErrorView::InvalidControlKey(token))
        }
    } else if token.len() == 1 && (token[0] as u32) < 128 {
        Ok(token[0] as u8)
    } else {
        Err(ErrorView::InvalidDetachKey(token))
    }
}

/// Whether the token at `i` is the first that stands for no byte.
pub open spec fn is_first_wrong_token(tokens: Seq<Seq<char>>, i: int) -> bool {
    &&& 0 <= i < tokens.len()
    &&& token_byte(tokens[i]) is Err
    &&& forall|k: int| 0 <= k < i ==> token_byte(#[trigger] tokens[k]) is Ok
}

/// The first token that stands for no byte.
pub open spec fn first_wrong_token(tokens: Seq<Seq<char>>) -> int {
    choose|i: int| is_first_wrong_token(tokens, i)
}

/// The bytes that a detach key stands for, one for each of its tokens, or what
/// is wrong with the first bad token.
pub open spec fn key_bytes(detach_key: Seq<char>) -> Result<Seq<u8>, ErrorView> {
    let tokens = text::fields(detach_key, Separator::White);
    if tokens.len() == 0 {
        Err(ErrorView::EmptyDetachKey)
    } else if exists|i: int| is_first_wrong_token(tokens, i) {
        Err(token_byte(tokens[first_wrong_token(tokens)])->Err_0)
    } else {
        Ok(Seq::new(tokens.len(), |i: int| token_byte(tokens[i])->Ok_0))
    }
}

/// The byte that a token of a detach key stands for.
pub fn parse_detach_token(token: &str) -> (r: Result<u8, TmuyError>)
    ensures
        match r {
            Ok(byte) => token_byte(token@) == Ok::<u8, ErrorView>(byte),
            Err(e) => token_byte(token@) == Err::<u8, ErrorView>(e@),
        },
{
    let chars = chars_of(token);
    proof {
        reveal_strlit("C-");
        if token@.len() >= 2 {
            assert("C-"@.is_prefix_of(token@) <==> token@[0] == 'C' && token@[1] == '-') by {
                if token@[0] == 'C' && token@[1] == '-' {
                    assert("C-"@ =~= token@.subrange(0, 2));
                }
                if "C-"@.is_prefix_of(token@) {
                    assert(token@.subrange(0, 2)[0] == 'C');
                    assert(token@.subrange(0, 2)[1] == '-');
                }
            }
        }
    }
    if chars.len() >= 2 && chars[0] == 'C' && chars[1] == '-' {
        if chars.len() == 3 && (chars[2] as u32) < 128 {
            let c = chars[2];
            let lower: u8 = if 'A' <= c && c <= 'Z' {
                c as u8 + 32
            } else {
                c as u8
            };
            assert(lower & 0x1f == lower % 32) by (bit_vector);
            return Ok(lower & 0x1f);
        }
        return Err(TmuyError::InvalidControlKey(token.to_owned()));
    }
    if chars.len() == 1 && (chars[0] as u32) < 128 {
        return Ok(chars[0] as u8);
    }
    Err(TmuyError::InvalidDetachKey(token.to_owned()))
}

/// The bytes that a detach key stands for.
pub fn detach_sequence(detach_key: &str) -> (r: Result<Vec<u8>, TmuyError>)
    ensures
        match r {
            Ok(bytes) => key_bytes(detach_key@) == Ok::<Seq<u8>, ErrorView>(bytes@) && bytes@.len()
                > 0,
            Err(e) => key_bytes(detach_key@) == Err::<Seq<u8>, ErrorView>(e@),
        },
{
    let tokens = split_fields(detach_key, Separator::White);
    let ghost all = text::fields(detach_key@, Separator::White);
    assert(all.len() == tokens@.len());
    if tokens.len() == 0 {
        return Err(TmuyError::EmptyDetachKey);
    }
    let mut bytes: Vec<u8> = Vec::new();
    let mut i: usize = 0;
    while i < tokens.len()
        invariant
            i <= tokens@.len(),
            all == text::texts(tokens@),
            all == text::fields(detach_key@, Separator::White),
            all.len() > 0,
            bytes@.len() == i,
            forall|k: int| 0 <= k < i ==> token_byte(#[trigger] all[k]) is Ok,
            forall|k: int| 0 <= k < i ==> #[trigger] bytes@[k] == token_byte(all[k])->Ok_0,
        decreases tokens@.len() - i,
    {
        assert(all[i as int] == tokens@[i as int]@);
        match parse_detach_token(tokens[i].as_str()) {
            Ok(byte) => {
                bytes.push(byte);
            },
            Err(e) => {
                proof {
                    assert(is_first_wrong_token(all, i as int));
                    let j = first_wrong_token(all);
                    assert(is_first_wrong_token(all, j));
                    if j < i {
                        assert(token_byte(all[j]) is Ok);
                    } else if i < j {
                        assert(token_byte(all[i as int]) is Ok);
                    }
                }
                return Err(e);
            },
        }
        i = i + 1;
    }
    assert(bytes@ =~= Seq::new(all.len(), |k: int| token_byte(all[k])->Ok_0));
    Ok(bytes)
}

/// The signals that can be sent to a session.
#[derive(Debug, Clone, Copy, PartialEq, Eq, Structural)]
pub enum Signal {
    SIGINT,
    SIGTERM,
    SIGKILL,
    SIGHUP,
}

/// The signal of the given name, in capitals, with or without `SIG` before it.
pub open spec fn signal_named(name: Seq<char>) -> Option<Signal> {
    if name == "INT"@ || name == "SIGINT"@ {
        Some(Signal::SIGINT)
    } else if name == "TERM"@ || name == "SIGTERM"@ {
        Some(Signal::SIGTERM)
    } else if name == "KILL"@ || name == "SIGKILL"@ {
        Some(Signal::SIGKILL)
    } else if name == "HUP"@ || name == "SIGHUP"@ {
        Some(Signal::SIGHUP)
    } else {
        None
    }
}

/// A name in capitals.
pub open spec fn in_capitals(name: Seq<char>) -> Seq<char> {
    name.map_values(|c: char| text::ascii_upper(c))
}

/// The signal of the given name, in capitals or not.
pub fn parse_signal(raw: &str) -> (r: Result<Signal, TmuyError>)
    ensures
        match r {
            Ok(signal) => signal_named(in_capitals(raw@)) == Some(signal),
            Err(e) => signal_named(in_capitals(raw@)) is None && e@ == ErrorView::UnsupportedSignal(
                in_capitals(raw@),
            ),
        },
{
    let name = ascii_upper_text(raw);
    let n = name.as_str();
    assert(n@ =~= in_capitals(raw@));
    if same_text(n, "INT") || same_text(n, "SIGINT") {
        Ok(Signal::SIGINT)
    } else if same_text(n, "TERM") || same_text(n, "SIGTERM") {
        Ok(Signal::SIGTERM)
    } else if same_text(n, "KILL") || same_text(n, "SIGKILL") {
        Ok(Signal::SIGKILL)
    } else if same_text(n, "HUP") || same_text(n, "SIGHUP") {
        Ok(Signal::SIGHUP)
    } else {
        Err(TmuyError::UnsupportedSignal(name))
    }
}

/// What reading an input byte leads to.
#[derive(Debug, PartialEq, Eq)]
pub enum InputStep {
    /// The bytes so far may become the detach sequence: nothing is sent yet.
    Wait,
    /// The bytes are sent to the session.
    Forward(Vec<u8>),
    /// The connection is closed.
    Close,
}

/// What reading an input byte leads to, as a model.
#[verifier::ext_equal]
pub enum StepView {
    Wait,
    Forward(Seq<u8>),
    Close,
}

impl View for InputStep {
    type V = StepView;

    open spec fn view(&self) -> StepView {
        match self {
            InputStep::Wait => StepView::Wait,
            InputStep::Forward(bytes) => StepView::Forward(bytes@),
            InputStep::Close => StepView::Close,
        }
    }
}

/// What the bytes that were held back lead to: the whole detach sequence closes
/// the connection, a part of it waits for more, anything else is sent.
pub open spec fn held_step(sequence: Seq<u8>, held: Seq<u8>) -> StepView {
    if held == sequence {
        StepView::Close
    } else if held.is_prefix_of(sequence) {
        StepView::Wait
    } else {
        StepView::Forward(held)
    }
}

/// What is held back after a step.
pub open spec fn held_after(sequence: Seq<u8>, held: Seq<u8>) -> Seq<u8> {
    if held_step(sequence, held) is Forward {
        Seq::empty()
    } else {
        held
    }
}

/// The input of an attached client, in which the detach sequence is looked for.
#[derive(Debug)]
pub struct DetachScanner {
    sequence: Vec<u8>,
    pending: Vec<u8>,
}

impl DetachScanner {
    /// The bytes that detach the client.
    pub closed spec fn sequence(self) -> Seq<u8> {
        self.sequence@
    }

    /// The bytes that were read and held back, because the detach sequence
    /// starts with them.
    pub closed spec fn held(self) -> Seq<u8> {
        self.pending@
    }

    /// A scanner that has read nothing.
    pub fn new(sequence: Vec<u8>) -> (r: DetachScanner)
        ensures
            r.sequence() == sequence@,
            r.held() == Seq::<u8>::empty(),
    {
        DetachScanner { sequence, pending: Vec::new() }
    }

    /// Takes in the next byte, or the end of the input.
    pub fn read(&mut self, byte: Option<u8>) -> (r: InputStep)
        ensures
            final(self).sequence() == old(self).sequence(),
            match byte {
                None => r@ == StepView::Close && final(self).held() == old(self).held(),
                Some(b) => {
                    let held = old(self).held().push(b);
                    &&& r@ == held_step(old(self).sequence(), held)
                    &&& final(self).held() == held_after(old(self).sequence(), held)
                },
            },
    {
        let byte = match byte {
            None => {
                return InputStep::Close;
            },
            Some(byte) => byte,
        };
        self.pending.push(byte);
        if starts_with_bytes(&self.sequence, &self.pending) {
            if self.sequence.len() == self.pending.len() {
                assert(self.pending@ =~= self.sequence@);
                return InputStep::Close;
            }
            assert(self.pending@ != self.sequence@);
            return InputStep::Wait;
        }
        proof {
            assert(self.sequence@ =~= self.sequence@.subrange(0, self.sequence@.len() as int));
        }
        let mut held: Vec<u8> = Vec::new();
        std::mem::swap(&mut held, &mut self.pending);
        InputStep::Forward(held)
    }
}

fn starts_with_bytes(whole: &Vec<u8>, part: &Vec<u8>) -> (r: bool)
    ensures
        r == part@.is_prefix_of(whole@),
{
    if part.len() > whole.len() {
        return false;
    }
    let mut i: usize = 0;
    while i < part.len()
        invariant
            i <= part@.len() <= whole@.len(),
            forall|k: int| 0 <= k < i ==> #[trigger] part@[k] == whole@[k],
        decreases part@.len() - i,
    {
        if part[i] != whole[i] {
            proof {
                if part@.is_prefix_of(whole@) {
                    assert(part@[i as int] == whole@.subrange(0, part@.len() as int)[i as int]);
                }
            }
            return false;
        }
        i = i + 1;
    }
    assert(part@ =~= whole@.subrange(0, part@.len() as int));
    true
}

/// What a client has sent, and what it holds back, after reading the input.
#[verifier::ext_equal]
pub struct InputRun {
    pub sent: Seq<u8>,
    pub held: Seq<u8>,
    pub closed: bool,
}

/// A client that reads the input byte by byte until it detaches.
pub open spec fn run_input(sequence: Seq<u8>, input: Seq<u8>) -> InputRun
    decreases input.len(),
{
    if input.len() == 0 {
        InputRun { sent: Seq::empty(), held: Seq::empty(), closed: false }
    } else {
        let before = run_input(sequence, input.drop_last());
        if before.closed {
            before
        } else {
            let held = before.held.push(input.last());
            match held_step(sequence, held) {
                StepView::Close => InputRun { held, closed: true, ..before },
                StepView::Wait => InputRun { held, ..before },
                StepView::Forward(bytes) => InputRun {
                    sent: before.sent + bytes,
                    held: Seq::empty(),
                    closed: false,
                },
            }
        }
    }
}

/// A client that has not detached has sent all that it read, in order and
/// unchanged, but for what it holds back, which is a part of the detach sequence.
pub proof fn input_is_not_lost(sequence: Seq<u8>, input: Seq<u8>)
    requires
        sequence.len() > 0,
    ensures
        ({
            let run = run_input(sequence, input);
            if run.closed {
                run.held == sequence && (run.sent + run.held).is_prefix_of(input)
            } else {
                run.held.is_prefix_of(sequence) && run.held.len() < sequence.len() && run.sent
                    + run.held == input
            }
        }),
    decreases input.len(),
{
    let run = run_input(sequence, input);
    if input.len() == 0 {
        assert(run.held =~= sequence.subrange(0, 0));
        assert(run.sent + run.held =~= input);
    } else {
        let rest = input.drop_last();
        input_is_not_lost(sequence, rest);
        let before = run_input(sequence, rest);
        if before.closed {
            let done = before.sent + before.held;
            assert(done =~= input.subrange(0, done.len() as int)) by {
                assert(done =~= rest.subrange(0, done.len() as int));
            }
        } else {
            let held = before.held.push(input.last());
            assert(before.sent + held =~= (before.sent + before.held).push(input.last()));
            assert(input =~= rest.push(input.last()));
            if held_step(sequence, held) is Close {
                assert((run.sent + run.held) =~= input.subrange(0, input.len() as int));
            } else if held_step(sequence, held) is Wait {
                assert(held.len() < sequence.len()) by {
                    if held.len() == sequence.len() {
                        assert(held =~= sequence);
                    }
                }
            } else {
                assert(run.held =~= sequence.subrange(0, 0));
                assert(run.sent + run.held =~= input);
            }
        }
    }
}

/// The detach sequence closes the connection where it is typed with nothing
/// held back, and none of it is sent.
pub proof fn typing_the_sequence_detaches(sequence: Seq<u8>, input: Seq<u8>)
    requires
        sequence.len() > 0,
        !run_input(sequence, input).closed,
        run_input(sequence, input).held.len() == 0,
    ensures
        run_input(sequence, input + sequence).closed,
        run_input(sequence, input + sequence).sent == input,
{
    input_is_not_lost(sequence, input);
    assert(run_input(sequence, input).sent + run_input(sequence, input).held =~= run_input(
        sequence,
        input,
    ).sent);
    lemma_typing(sequence, input, sequence.len() as int);
    assert(sequence.take(sequence.len() as int) =~= sequence);
}

proof fn lemma_typing(sequence: Seq<u8>, input: Seq<u8>, n: int)
    requires
        !run_input(sequence, input).closed,
        run_input(sequence, input).held.len() == 0,
        run_input(sequence, input).sent == input,
        0 <= n <= sequence.len(),
        sequence.len() > 0,
    ensures
        ({
            let run = run_input(sequence, input + sequence.take(n));
            run.sent == input && run.held == sequence.take(n) && run.closed == (n
                == sequence.len())
        }),
    decreases n,
{
    if n == 0 {
        assert(input + sequence.take(0) =~= input);
        assert(run_input(sequence, input).held =~= sequence.take(0));
    } else {
        let whole = input + sequence.take(n);
        assert(whole.drop_last() =~= input + sequence.take(n - 1));
        assert(whole.last() == sequence[n - 1]);
        lemma_typing(sequence, input, n - 1);
        let held = sequence.take(n - 1).push(sequence[n - 1]);
        assert(held =~= sequence.take(n));
        assert(held =~= sequence.subrange(0, n));
        if n == sequence.len() {
            assert(held =~= sequence);
        } else {
            assert(held.len() != sequence.len());
        }
    }
}

/// Why reading or writing failed, as far as it matters.
#[derive(Debug, Clone, Copy, PartialEq, Eq, Structural)]
pub enum IoErrorKind {
    BrokenPipe,
    ConnectionReset,
    ConnectionAborted,
    UnexpectedEof,
    Interrupted,
    WouldBlock,
    Other,
}

/// Whether the other side of a connection is gone.
pub open spec fn peer_closed(kind: IoErrorKind) -> bool {
    kind is BrokenPipe || kind is ConnectionReset || kind is ConnectionAborted
        || kind is UnexpectedEof
}

/// Whether an error means that the other side of a connection is gone.
pub fn is_peer_closed(kind: IoErrorKind) -> (r: bool)
    ensures
        r == peer_closed(kind),
{
    matches!(
        kind,
        IoErrorKind::BrokenPipe | IoErrorKind::ConnectionReset | IoErrorKind::ConnectionAborted
            | IoErrorKind::UnexpectedEof
    )
}

/// An unsigned number of 32 bits read as a signed one.
pub open spec fn as_signed(n: u32) -> int {
    if n < 0x8000_0000 {
        n as int
    } else {
        n - 0x1_0000_0000
    }
}

/// An unsigned number of 32 bits read as a signed one.
pub fn signed(n: u32) -> (r: i32)
    ensures
        r == as_signed(n),
{
    if n < 0x8000_0000 {
        n as i32
    } else {
        (n as i64 - 0x1_0000_0000) as i32
    }
}

/// The number by which the process group of a process is signaled: the
/// negative of the process number, within 32 bits.
pub open spec fn group_of(pid: u32) -> int {
    if pid == 0x8000_0000 {
        -0x8000_0000
    } else {
        -as_signed(pid)
    }
}

/// The number by which the process group of a process is signaled.
pub fn process_group(pid: u32) -> (r: i32)
    ensures
        r == group_of(pid),
{
    if pid == 0x8000_0000 {
        i32::MIN
    } else {
        -signed(pid)
    }
}

} // verus!
