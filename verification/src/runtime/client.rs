//! What a client of a session does: attach, send input, follow the output and
//! the events, send signals, wait for the end.

use vstd::prelude::*;

use crate::error::{ErrorView, TmuyError};
use crate::lookup;
use crate::model::{SessionRecord, SessionScope, SessionView, StateFile, Timestamp};
use crate::outside;
use crate::runtime::protocol;
use crate::runtime::protocol::{IoErrorKind, Signal, is_peer_closed, parse_signal, process_group};
use crate::runtime::server;
use crate::runtime::server::{ReadOutcome, ReadStep};
use crate::store;
use crate::store::Store;
use crate::text::{joined3, push_text};

verus! {

/// The rows that are left for the session: one is taken by the status bar.
pub open spec fn usable_rows(rows: u16) -> int {
    if rows > 2 {
        rows - 1
    } else {
        1
    }
}

/// The columns that are left for the session.
pub open spec fn usable_cols(cols: u16) -> int {
    if cols > 0 {
        cols as int
    } else {
        1
    }
}

/// What an attaching client sends first: `A` and the size of its terminal, the
/// higher bytes first.
pub open spec fn handshake(rows: u16, cols: u16) -> Seq<u8> {
    let r = usable_rows(rows);
    let c = usable_cols(cols);
    seq![0x41, (r / 256) as u8, (r % 256) as u8, (c / 256) as u8, (c % 256) as u8]
}

/// What an attaching client sends first.
pub fn attach_handshake_payload(rows: u16, cols: u16) -> (r: [u8; 5])
    ensures
        r@ == handshake(rows, cols),
{
    let usable: u16 = if rows > 2 {
        rows - 1
    } else {
        1
    };
    let width: u16 = if cols > 0 {
        cols
    } else {
        1
    };
    let payload: [u8; 5] = [
        0x41,
        (usable / 256) as u8,
        (usable % 256) as u8,
        (width / 256) as u8,
        (width % 256) as u8,
    ];
    assert(payload@ =~= handshake(rows, cols));
    payload
}

/// What an attaching client sends is read back by the host: that it attaches,
/// the size of its terminal, and what is typed, byte for byte.
pub proof fn handshakes_are_read_back(rows: u16, cols: u16, typed: Seq<u8>)
    ensures
        ({
            let message = handshake(rows, cols) + typed;
            let size = server::first_bytes(message.skip(1), 4);
            &&& server::mode_of(message[0]) == Some(server::ClientMode::Attach)
            &&& size.len() == 4
            &&& server::big_endian(size[0], size[1]) == usable_rows(rows)
            &&& server::big_endian(size[2], size[3]) == usable_cols(cols)
            &&& message.skip(1) == size + typed
        }),
{
    let message = handshake(rows, cols) + typed;
    let size = server::first_bytes(message.skip(1), 4);
    assert(size =~= handshake(rows, cols).skip(1));
    assert(message.skip(1) =~= size + typed);
}

/// What a client that writes input sends: `I` and the input.
pub open spec fn input_message(bytes: Seq<u8>) -> Seq<u8> {
    seq![0x49u8] + bytes
}

/// Input that is sent is read back by the host, byte for byte.
pub proof fn input_is_read_back(bytes: Seq<u8>)
    ensures
        server::mode_of(input_message(bytes)[0]) == Some(server::ClientMode::Input),
        input_message(bytes).skip(1) == bytes,
{
    assert(input_message(bytes).skip(1) =~= bytes);
}

/// What is to be sent, and to which socket.
#[derive(Debug)]
pub struct SendRequest {
    pub socket_path: String,
    pub message: Vec<u8>,
}

/// What is to be sent so that a live session gets the input.
pub fn send_input(store: &Store, state: &StateFile, name: &str, bytes: &[u8]) -> (r: Result<
    SendRequest,
    TmuyError,
>)
    ensures
        match lookup::session_targeted(state@.sessions, name@, SessionScope::LiveOnly) {
            Ok(session) => r is Ok && r->Ok_0.socket_path@ == session.socket_path
                && r->Ok_0.message@ == input_message(bytes@),
            Err(e) => r is Err && r->Err_0@ == e,
        },
{
    match store.resolve_target(state, name, SessionScope::LiveOnly) {
        Ok(session) => {
            let mut message: Vec<u8> = Vec::new();
            message.push(0x49);
            message.extend_from_slice(bytes);
            assert(message@ =~= input_message(bytes@));
            Ok(SendRequest { socket_path: session.socket_path, message })
        },
        Err(e) => Err(e),
    }
}

/// What is to be sent so that a client with a terminal of the given size is
/// attached to a live session.
pub fn attach(store: &Store, state: &StateFile, name: &str, rows: u16, cols: u16) -> (r: Result<
    (SessionRecord, [u8; 5]),
    TmuyError,
>)
    ensures
        match lookup::session_targeted(state@.sessions, name@, SessionScope::LiveOnly) {
            Ok(session) => r is Ok && r->Ok_0.0@ == session && r->Ok_0.1@ == handshake(rows, cols),
            Err(e) => r is Err && r->Err_0@ == e,
        },
{
    match store.resolve_target(state, name, SessionScope::LiveOnly) {
        Ok(session) => Ok((session, attach_handshake_payload(rows, cols))),
        Err(e) => Err(e),
    }
}

/// The detach key of an attached client: the one that it asked for, or else the
/// one of the session.
pub fn client_detach_key(session: &SessionRecord, asked: Option<String>) -> (r: String)
    ensures
        r@ == match asked {
            Some(key) => key@,
            None => session@.detach_key,
        },
{
    match asked {
        Some(key) => key,
        None => session.detach_key.clone(),
    }
}

/// What an attached client does after reading from the host: an interrupted
/// read is tried again, and it is no failure that the host is gone.
pub open spec fn client_read(outcome: ReadOutcome) -> ReadStep {
    match outcome {
        ReadOutcome::Bytes(n) => if n == 0 {
            ReadStep::Stop
        } else {
            ReadStep::Forward
        },
        ReadOutcome::Failed(kind) => if kind == IoErrorKind::Interrupted {
            ReadStep::Retry
        } else if protocol::peer_closed(kind) {
            ReadStep::Stop
        } else {
            ReadStep::Fail
        },
    }
}

/// What an attached client does after reading from the host.
pub fn client_read_step(outcome: ReadOutcome) -> (r: ReadStep)
    ensures
        r == client_read(outcome),
{
    match outcome {
        ReadOutcome::Bytes(n) => if n == 0 {
            ReadStep::Stop
        } else {
            ReadStep::Forward
        },
        ReadOutcome::Failed(kind) => if kind == IoErrorKind::Interrupted {
            ReadStep::Retry
        } else if is_peer_closed(kind) {
            ReadStep::Stop
        } else {
            ReadStep::Fail
        },
    }
}

/// What to read of a file of the given length, if there is such a file, by a
/// reader that stands at `position`: the place to start from and how much, where
/// there is more than was read.
pub open spec fn unread(position: u64, len: Option<u64>) -> Option<(u64, u64)> {
    match len {
        Some(len) => if len > position {
            Some((position, (len - position) as u64))
        } else {
            None
        },
        None => None,
    }
}

/// Where a reader stands after it has read what there was to read.
pub open spec fn read_up_to(position: u64, len: Option<u64>) -> u64 {
    match unread(position, len) {
        Some(piece) => (piece.0 + piece.1) as u64,
        None => position,
    }
}

/// Whether there is nothing to wait for: the session is dead, and all of its
/// file has been read, or there is no file.
pub open spec fn drained(position: u64, live: bool, len: Option<u64>) -> bool {
    !live && match len {
        Some(len) => len <= position,
        None => true,
    }
}

/// What happened to one who follows a file.
#[derive(Debug, Clone, Copy)]
pub enum FollowEvent {
    /// The file was looked at: its length, where there is a file.
    Looked(Option<u64>),
    /// The piece that was to be read has been read and shown.
    Shown,
    /// The session was looked at, and then its file.
    Checked { live: bool, len: Option<u64> },
}

/// What one who follows a file does next.
#[derive(Debug, Clone, Copy, PartialEq, Eq, Structural)]
pub enum FollowAction {
    /// So many bytes are read from that place on, and shown.
    Read { from: u64, count: u64 },
    /// The session is looked at, and then its file.
    Check,
    /// After a while, the file is looked at again.
    Wait,
    End,
}

/// What one who stands at `position` does next. A file that is not followed is
/// read once; one that is followed is read until it is drained.
pub open spec fn follow_action(position: u64, follow: bool, event: FollowEvent) -> FollowAction {
    let read = if follow {
        FollowAction::Check
    } else {
        FollowAction::End
    };
    match event {
        FollowEvent::Looked(len) => match unread(position, len) {
            Some(piece) => FollowAction::Read { from: piece.0, count: piece.1 },
            None => read,
        },
        FollowEvent::Shown => read,
        FollowEvent::Checked { live, len } => if drained(position, live, len) {
            FollowAction::End
        } else {
            FollowAction::Wait
        },
    }
}

/// A file that grows, read up to some place.
#[derive(Debug)]
pub struct Follower {
    position: u64,
    follow: bool,
}

impl Follower {
    /// How much has been read.
    pub closed spec fn position(self) -> u64 {
        self.position
    }

    /// Whether to wait for more.
    pub closed spec fn follows(self) -> bool {
        self.follow
    }

    /// Nothing has been read.
    pub fn new(follow: bool) -> (r: Follower)
        ensures
            r.position() == 0,
            r.follows() == follow,
    {
        Follower { position: 0, follow }
    }

    /// What to read of a file of the given length, if there is such a file: the
    /// place to start from and how much, where there is more than was read.
    pub fn next_read(&mut self, len: Option<u64>) -> (r: Option<(u64, u64)>)
        ensures
            final(self).follows() == old(self).follows(),
            r == unread(old(self).position(), len),
            final(self).position() == read_up_to(old(self).position(), len),
    {
        match len {
            Some(len) => if len > self.position {
                let from: u64 = self.position;
                self.position = len;
                Some((from, len - from))
            } else {
                None
            },
            None => None,
        }
    }

    /// Whether the file is read once, without waiting for more.
    pub fn reads_once(&self) -> (r: bool)
        ensures
            r == !self.follows(),
    {
        !self.follow
    }

    /// Whether there is nothing to wait for: the session is dead, and all of
    /// its file has been read, or there is no file.
    pub fn is_drained(&self, live: bool, len: Option<u64>) -> (r: bool)
        ensures
            r == (!live && match len {
                Some(len) => len <= self.position(),
                None => true,
            }),
    {
        match len {
            Some(len) => !live && len <= self.position,
            None => !live,
        }
    }

    /// What to do next, after what happened.
    pub fn step(&mut self, event: FollowEvent) -> (r: FollowAction)
        ensures
            r == follow_action(old(self).position(), old(self).follows(), event),
            final(self).follows() == old(self).follows(),
            final(self).position() == match event {
                FollowEvent::Looked(len) => read_up_to(old(self).position(), len),
                _ => old(self).position(),
            },
    {
        match event {
            FollowEvent::Looked(len) => if let Some((from, count)) = self.next_read(len) {
                return FollowAction::Read { from, count };
            },
            FollowEvent::Shown => {},
            FollowEvent::Checked { live, len } => {
                return if self.is_drained(live, len) {
                    FollowAction::End
                } else {
                    FollowAction::Wait
                };
            },
        }
        if self.reads_once() {
            FollowAction::End
        } else {
            FollowAction::Check
        }
    }
}

/// The length of a file that holds `content`, or nothing where there is no file.
pub open spec fn file_len(content: Option<Seq<u8>>) -> Option<u64> {
    match content {
        Some(bytes) => Some(bytes.len() as u64),
        None => None,
    }
}

/// What a file holds: nothing where there is none.
pub open spec fn file_bytes(content: Option<Seq<u8>>) -> Seq<u8> {
    match content {
        Some(bytes) => bytes,
        None => Seq::empty(),
    }
}

/// Whether a file has at most grown, or come into being.
pub open spec fn grew(before: Option<Seq<u8>>, after: Option<Seq<u8>>) -> bool {
    match before {
        Some(bytes) => after is Some && bytes.is_prefix_of(after->Some_0),
        None => true,
    }
}

/// Whether a file only ever grows from one look at it to the next, and keeps a
/// length that can be told.
pub open spec fn only_grows(looks: Seq<Option<Seq<u8>>>) -> bool {
    &&& forall|i: int| 0 <= i < looks.len() ==> file_bytes(#[trigger] looks[i]).len() <= u64::MAX
    &&& forall|i: int, j: int|
        0 <= i < j < looks.len() ==> grew(#[trigger] looks[i], #[trigger] looks[j])
}

/// Where a reader stands after the looks at a file, given what it held at each.
pub open spec fn position_after(looks: Seq<Option<Seq<u8>>>) -> u64
    decreases looks.len(),
{
    if looks.len() == 0 {
        0
    } else {
        read_up_to(position_after(looks.drop_last()), file_len(looks.last()))
    }
}

/// What has been shown after the looks at a file, given what it held at each:
/// the pieces that were to be read, one after the other.
pub open spec fn shown_after(looks: Seq<Option<Seq<u8>>>) -> Seq<u8>
    decreases looks.len(),
{
    if looks.len() == 0 {
        Seq::empty()
    } else {
        let before = shown_after(looks.drop_last());
        match unread(position_after(looks.drop_last()), file_len(looks.last())) {
            Some(piece) => before + file_bytes(looks.last()).subrange(
                piece.0 as int,
                piece.0 + piece.1,
            ),
            None => before,
        }
    }
}

/// Reading on loses nothing and repeats nothing: after any number of looks at a
/// file that only grows, what has been shown is what the file held at the last
/// look, and its end is where the reader stands.
pub proof fn reading_on_loses_nothing(looks: Seq<Option<Seq<u8>>>)
    requires
        looks.len() > 0,
        only_grows(looks),
    ensures
        shown_after(looks) == file_bytes(looks.last()),
        position_after(looks) == file_bytes(looks.last()).len(),
    decreases looks.len(),
{
    let content = file_bytes(looks.last());
    if looks.len() == 1 {
        assert(shown_after(looks.drop_last()) == Seq::<u8>::empty());
        assert(position_after(looks.drop_last()) == 0);
        assert(shown_after(looks) =~= content);
    } else {
        let earlier = looks.drop_last();
        let last = looks.len() - 1;
        assert(only_grows(earlier)) by {
            assert forall|i: int| 0 <= i < earlier.len() implies file_bytes(
                #[trigger] earlier[i],
            ).len() <= u64::MAX by {
                assert(earlier[i] == looks[i]);
            }
            assert forall|i: int, j: int| 0 <= i < j < earlier.len() implies grew(
                #[trigger] earlier[i],
                #[trigger] earlier[j],
            ) by {
                assert(earlier[i] == looks[i] && earlier[j] == looks[j]);
            }
        }
        reading_on_loses_nothing(earlier);
        assert(grew(looks[last - 1], looks[last]));
        let seen = file_bytes(earlier.last());
        assert(seen =~= content.subrange(0, seen.len() as int));
        assert(shown_after(looks) =~= content);
    }
}

/// Following a file ends with the whole of it shown: where one who follows a file
/// that only grows ends after a check, the session is dead and nothing of what
/// the file then held is left.
pub proof fn following_ends_with_all_shown(
    looks: Seq<Option<Seq<u8>>>,
    live: bool,
    found: Option<Seq<u8>>,
)
    requires
        looks.len() > 0,
        only_grows(looks.push(found)),
        follow_action(
            position_after(looks),
            true,
            FollowEvent::Checked { live, len: file_len(found) },
        ) == FollowAction::End,
    ensures
        !live,
        shown_after(looks) == file_bytes(found),
{
    let all = looks.push(found);
    assert(all.drop_last() =~= looks);
    assert(all.last() == found);
    assert(only_grows(looks)) by {
        assert forall|i: int| 0 <= i < looks.len() implies file_bytes(#[trigger] looks[i]).len()
            <= u64::MAX by {
            assert(all[i] == looks[i]);
        }
        assert forall|i: int, j: int| 0 <= i < j < looks.len() implies grew(
            #[trigger] looks[i],
            #[trigger] looks[j],
        ) by {
            assert(all[i] == looks[i] && all[j] == looks[j]);
        }
    }
    reading_on_loses_nothing(looks);
    reading_on_loses_nothing(all);
}

/// Following the file of a dead session ends: one look and what is then read
/// leave it drained, whether there is a file or not.
pub proof fn following_the_dead_ends(position: u64, follow: bool, len: Option<u64>)
    ensures
        follow_action(
            read_up_to(position, len),
            follow,
            FollowEvent::Checked { live: false, len },
        ) == FollowAction::End,
{
}

/// A file of a session that is read, by the hash of the session, so that a new
/// name does not matter.
#[derive(Debug)]
pub struct FollowPlan {
    pub hash: String,
    pub path: String,
    pub follower: Follower,
}

/// Whether the plan reads the given file of the session from its start.
pub open spec fn plans(plan: FollowPlan, session: SessionView, path: Seq<char>, follow: bool) -> bool {
    &&& plan.hash@ == session.id_hash
    &&& plan.path@ == path
    &&& plan.follower.position() == 0
    &&& plan.follower.follows() == follow
}

/// The log to read for a session of any status.
pub fn tail(store: &Store, state: &StateFile, name: &str, follow: bool) -> (r: Result<
    FollowPlan,
    TmuyError,
>)
    ensures
        match lookup::session_targeted(state@.sessions, name@, SessionScope::All) {
            Ok(session) => r is Ok && plans(r->Ok_0, session, session.log_path, follow),
            Err(e) => r is Err && r->Err_0@ == e,
        },
{
    match store.resolve_target(state, name, SessionScope::All) {
        Ok(session) => Ok(
            FollowPlan {
                hash: session.id_hash,
                path: session.log_path,
                follower: Follower::new(follow),
            },
        ),
        Err(e) => Err(e),
    }
}

/// The events to read for a session of any status.
pub fn events(store: &Store, state: &StateFile, name: &str, follow: bool) -> (r: Result<
    FollowPlan,
    TmuyError,
>)
    ensures
        match lookup::session_targeted(state@.sessions, name@, SessionScope::All) {
            Ok(session) => r is Ok && plans(r->Ok_0, session, session.events_path, follow),
            Err(e) => r is Err && r->Err_0@ == e,
        },
{
    match store.resolve_target(state, name, SessionScope::All) {
        Ok(session) => Ok(
            FollowPlan {
                hash: session.id_hash,
                path: session.events_path,
                follower: Follower::new(follow),
            },
        ),
        Err(e) => Err(e),
    }
}

/// What is printed of a piece of the log: the bytes themselves, or the text
/// that they stand for.
pub fn tail_output(raw: bool, bytes: Vec<u8>) -> (r: Vec<u8>)
    ensures
        raw ==> r@ == bytes@,
        !raw ==> r@ == vstd::utf8::encode_utf8(outside::lossy_text_of(bytes@)),
        vstd::utf8::valid_utf8(bytes@) ==> r@ == bytes@,
{
    if raw {
        return bytes;
    }
    let cooked = outside::lossy_text(bytes.as_slice());
    let mut out: Vec<u8> = Vec::new();
    out.extend_from_slice(cooked.as_str().as_bytes());
    assert(out@ =~= vstd::utf8::encode_utf8(cooked@));
    out
}

/// The complete lines of some bytes, without their newlines, and what stands
/// behind the last newline.
#[verifier::ext_equal]
pub struct Lines {
    pub done: Seq<Seq<u8>>,
    pub rest: Seq<u8>,
}

/// The complete lines of some bytes, and what stands behind the last newline.
pub open spec fn lines_of(bytes: Seq<u8>) -> Lines
    decreases bytes.len(),
{
    if bytes.len() == 0 {
        Lines { done: Seq::empty(), rest: Seq::empty() }
    } else {
        let before = lines_of(bytes.drop_last());
        if bytes.last() == 0x0a {
            Lines { done: before.done.push(before.rest), rest: Seq::empty() }
        } else {
            Lines { done: before.done, rest: before.rest.push(bytes.last()) }
        }
    }
}

/// The lines of some bytes do not depend on how the bytes came in: what was
/// left over from the first part is completed by the second.
pub proof fn lines_do_not_depend_on_chunks(first: Seq<u8>, second: Seq<u8>)
    ensures
        lines_of(first + second).done == lines_of(first).done + lines_of(
            lines_of(first).rest + second,
        ).done,
        lines_of(first + second).rest == lines_of(lines_of(first).rest + second).rest,
    decreases second.len(),
{
    let left = lines_of(first).rest;
    if second.len() == 0 {
        assert(first + second =~= first);
        assert(left + second =~= left);
        lemma_rest_has_no_lines(first);
        assert(lines_of(first).done + Seq::<Seq<u8>>::empty() =~= lines_of(first).done);
    } else {
        lines_do_not_depend_on_chunks(first, second.drop_last());
        assert((first + second).drop_last() =~= first + second.drop_last());
        assert((left + second).drop_last() =~= left + second.drop_last());
        assert(lines_of(first + second).done =~= lines_of(first).done + lines_of(
            left + second,
        ).done);
    }
}

/// What stands behind the last newline is no complete line.
proof fn lemma_rest_has_no_lines(bytes: Seq<u8>)
    ensures
        lines_of(lines_of(bytes).rest).done == Seq::<Seq<u8>>::empty(),
        lines_of(lines_of(bytes).rest).rest == lines_of(bytes).rest,
    decreases bytes.len(),
{
    if bytes.len() > 0 && bytes.last() != 0x0a {
        let before = lines_of(bytes.drop_last()).rest;
        lemma_rest_has_no_lines(bytes.drop_last());
        assert(before.push(bytes.last()).drop_last() =~= before);
    }
}

/// The lists of bytes of a list of vectors.
pub open spec fn byte_lists(v: Seq<Vec<u8>>) -> Seq<Seq<u8>> {
    v.map_values(|bytes: Vec<u8>| bytes@)
}

/// The complete lines of some bytes, and what stands behind the last newline.
pub fn split_lines(bytes: &Vec<u8>) -> (r: (Vec<Vec<u8>>, Vec<u8>))
    ensures
        byte_lists(r.0@) == lines_of(bytes@).done,
        r.1@ == lines_of(bytes@).rest,
{
    let mut done: Vec<Vec<u8>> = Vec::new();
    let mut rest: Vec<u8> = Vec::new();
    let mut i: usize = 0;
    assert(byte_lists(done@) =~= lines_of(bytes@.take(0)).done);
    assert(rest@ =~= lines_of(bytes@.take(0)).rest);
    while i < bytes.len()
        invariant
            i <= bytes@.len(),
            byte_lists(done@) == lines_of(bytes@.take(i as int)).done,
            rest@ == lines_of(bytes@.take(i as int)).rest,
        decreases bytes@.len() - i,
    {
        let ghost before = done@;
        let ghost left = rest@;
        proof {
            assert(bytes@.take(i + 1).drop_last() =~= bytes@.take(i as int));
            assert(bytes@.take(i + 1).last() == bytes@[i as int]);
        }
        if bytes[i] == 0x0a {
            done.push(rest);
            rest = Vec::new();
            proof {
                assert(byte_lists(done@) =~= byte_lists(before).push(left));
                assert(rest@ =~= Seq::<u8>::empty());
            }
        } else {
            rest.push(bytes[i]);
        }
        i = i + 1;
    }
    assert(bytes@.take(i as int) =~= bytes@);
    (done, rest)
}

/// An event, as it is shown in a row: when it happened, its kind and its detail.
#[derive(Debug)]
pub struct EventText {
    at: Timestamp,
    ts: String,
    kind: String,
    detail: String,
}

impl EventText {
    #[verifier::type_invariant]
    spec fn tells_the_time(self) -> bool {
        outside::utc_text_of(self.at.secs as int, self.at.nanos as nat) == Some(self.ts@)
    }

    /// When the event happened.
    pub closed spec fn at(self) -> Timestamp {
        self.at
    }

    /// The kind of the event.
    pub closed spec fn kind(self) -> Seq<char> {
        self.kind@
    }

    /// The detail of the event.
    pub closed spec fn detail(self) -> Seq<char> {
        self.detail@
    }

    /// The row for an event: the time, the kind and the detail with tabs between
    /// them. There is none for a time that the calendar does not hold.
    pub open spec fn row(self) -> Option<Seq<char>> {
        match outside::utc_text_of(self.at().secs as int, self.at().nanos as nat) {
            Some(ts) => Some(ts + "\t"@ + self.kind() + "\t"@ + self.detail() + "\n"@),
            None => None,
        }
    }

    /// The event at the given time, or nothing for a time that the calendar
    /// does not hold.
    pub fn new(at: Timestamp, kind: String, detail: String) -> (r: Option<EventText>)
        ensures
            match r {
                Some(event) => {
                    &&& event.at() == at
                    &&& event.kind() == kind@
                    &&& event.detail() == detail@
                    &&& event.row() is Some
                },
                None => outside::utc_text_of(at.secs as int, at.nanos as nat) is None,
            },
    {
        match outside::utc_text(at) {
            Some(ts) => Some(EventText { at, ts, kind, detail }),
            None => None,
        }
    }
}

/// Whether reading the line as an event ended as given.
pub open spec fn read_as<E, F: Fn(&[u8]) -> Result<EventText, E>>(
    read: F,
    line: Seq<u8>,
    r: Result<EventText, E>,
) -> bool {
    exists|l: &[u8]| l@ == line && #[trigger] call_ensures(read, (l,), r)
}

/// Whether the bytes are what is shown for a line: nothing for an empty one, the
/// line itself, or the row for the event that it stands for.
pub open spec fn shows<E, F: Fn(&[u8]) -> Result<EventText, E>>(
    read: F,
    jsonl: bool,
    line: Seq<u8>,
    shown: Seq<u8>,
) -> bool {
    if line.len() == 0 {
        shown == Seq::<u8>::empty()
    } else if jsonl {
        shown == line.push(0x0a)
    } else {
        exists|event: EventText|
            read_as(read, line, Ok(event)) && (#[trigger] event.row()) is Some && shown
                == vstd::utf8::encode_utf8(event.row()->Some_0)
    }
}

/// Shows a line: nothing for an empty one, the line itself for `jsonl`, else
/// the row for the event that `read` finds in it.
pub fn emit_event_line<E, F: Fn(&[u8]) -> Result<EventText, E>>(
    out: &mut Vec<u8>,
    line: &[u8],
    jsonl: bool,
    read: &F,
) -> (r: Result<(), E>)
    requires
        forall|l: &[u8]| #[trigger] call_requires(*read, (l,)),
    ensures
        match r {
            Ok(()) => exists|shown: Seq<u8>|
                final(out)@ == old(out)@ + shown && #[trigger] shows(*read, jsonl, line@, shown),
            Err(e) => final(out)@ == old(out)@ && line@.len() > 0 && !jsonl && read_as(
                *read,
                line@,
                Err(e),
            ),
        },
{
    let ghost before = out@;
    if line.len() == 0 {
        proof {
            assert(before + Seq::<u8>::empty() =~= before);
            assert(shows(*read, jsonl, line@, Seq::<u8>::empty()));
        }
        return Ok(());
    }
    if jsonl {
        out.extend_from_slice(line);
        out.push(0x0a);
        proof {
            assert(out@ =~= before + line@.push(0x0a));
            assert(shows(*read, jsonl, line@, line@.push(0x0a)));
        }
        return Ok(());
    }
    match read(line) {
        Ok(event) => {
            let mut row = joined3(event.ts.as_str(), "\t", event.kind.as_str());
            push_text(&mut row, "\t");
            push_text(&mut row, event.detail.as_str());
            push_text(&mut row, "\n");
            out.extend_from_slice(row.as_str().as_bytes());
            proof {
                use_type_invariant(&event);
                assert(event.row() == Some(row@));
                assert(out@ =~= before + vstd::utf8::encode_utf8(row@));
                assert(read_as(*read, line@, Ok(event)));
                assert(shows(*read, jsonl, line@, vstd::utf8::encode_utf8(row@)));
            }
            Ok(())
        },
        Err(e) => Err(e),
    }
}

/// Whether the bytes are what is shown for the first `n` lines, one after the other.
pub open spec fn shows_lines<E, F: Fn(&[u8]) -> Result<EventText, E>>(
    read: F,
    jsonl: bool,
    lines: Seq<Seq<u8>>,
    n: int,
    shown: Seq<u8>,
) -> bool
    decreases n,
{
    if n <= 0 {
        shown == Seq::<u8>::empty()
    } else {
        exists|before: Seq<u8>, last: Seq<u8>|
            #![trigger shows(read, jsonl, lines[n - 1], last), before + last]
            shown == before + last && shows_lines(read, jsonl, lines, n - 1, before) && shows(
                read,
                jsonl,
                lines[n - 1],
                last,
            )
    }
}

/// The lines that are not empty, with their newlines.
pub open spec fn jsonl_output(lines: Seq<Seq<u8>>) -> Seq<u8>
    decreases lines.len(),
{
    if lines.len() == 0 {
        Seq::empty()
    } else if lines.last().len() == 0 {
        jsonl_output(lines.drop_last())
    } else {
        jsonl_output(lines.drop_last()) + lines.last().push(0x0a)
    }
}

/// Shows the complete lines of `pending`, and leaves there what stands behind
/// the last newline. Where a line cannot be read, the lines before it have been
/// shown and `pending` is left as it was.
pub fn flush_event_lines_to<E, F: Fn(&[u8]) -> Result<EventText, E>>(
    pending: &mut Vec<u8>,
    jsonl: bool,
    read: &F,
    out: &mut Vec<u8>,
) -> (r: Result<(), E>)
    requires
        forall|l: &[u8]| #[trigger] call_requires(*read, (l,)),
    ensures
        jsonl ==> r is Ok && final(out)@ == old(out)@ + jsonl_output(lines_of(old(pending)@).done),
        match r {
            Ok(()) => {
                let lines = lines_of(old(pending)@);
                &&& final(pending)@ == lines.rest
                &&& exists|shown: Seq<u8>|
                    final(out)@ == old(out)@ + shown && #[trigger] shows_lines(
                        *read,
                        jsonl,
                        lines.done,
                        lines.done.len() as int,
                        shown,
                    )
            },
            Err(e) => {
                let lines = lines_of(old(pending)@);
                &&& final(pending)@ == old(pending)@
                &&& exists|n: int, shown: Seq<u8>|
                    0 <= n < lines.done.len() && final(out)@ == old(out)@ + shown
                        && #[trigger] shows_lines(*read, jsonl, lines.done, n, shown)
                        && lines.done[n].len() > 0 && read_as(*read, lines.done[n], Err(e))
            },
        },
{
    let (lines, rest) = split_lines(pending);
    let ghost before = out@;
    let ghost done = lines_of(pending@).done;
    let ghost mut shown: Seq<u8> = Seq::empty();
    let mut i: usize = 0;
    assert(before + shown =~= before);
    assert(done.take(0) =~= Seq::empty());
    while i < lines.len()
        invariant
            i <= lines@.len(),
            done == byte_lists(lines@),
            done == lines_of(pending@).done,
            *pending == *old(pending),
            before == old(out)@,
            forall|l: &[u8]| #[trigger] call_requires(*read, (l,)),
            out@ == before + shown,
            shows_lines(*read, jsonl, done, i as int, shown),
            jsonl ==> shown == jsonl_output(done.take(i as int)),
        decreases lines@.len() - i,
    {
        let ghost so_far = shown;
        let ghost earlier = out@;
        assert(done[i as int] == lines@[i as int]@);
        match emit_event_line(out, lines[i].as_slice(), jsonl, read) {
            Ok(()) => {
                proof {
                    let last = choose|last: Seq<u8>|
                        out@ == earlier + last && #[trigger] shows(
                            *read,
                            jsonl,
                            done[i as int],
                            last,
                        );
                    shown = so_far + last;
                    assert(out@ =~= before + shown);
                    assert(done.take(i + 1).drop_last() =~= done.take(i as int));
                    assert(done.take(i + 1).last() == done[i as int]);
                    if jsonl && done[i as int].len() == 0 {
                        assert(shown =~= so_far);
                    }
                    assert(shows(*read, jsonl, done[(i + 1) - 1], last));
                    assert(shows_lines(*read, jsonl, done, i + 1, so_far + last));
                }
            },
            Err(e) => {
                proof {
                    assert(shows_lines(*read, jsonl, done, i as int, shown));
                    assert(read_as(*read, done[i as int], Err(e)));
                }
                return Err(e);
            },
        }
        i = i + 1;
    }
    assert(done.take(i as int) =~= done);
    *pending = rest;
    Ok(())
}

/// A signal for a session: its record, the process group to signal, and the signal.
#[derive(Debug)]
pub struct SignalRequest {
    pub session: SessionRecord,
    pub group: i32,
    pub signal: Signal,
}

/// The signal that is to be sent to a live session.
pub fn signal_session(store: &Store, state: &StateFile, name: &str, signal_name: &str) -> (r: Result<
    SignalRequest,
    TmuyError,
>)
    ensures
        match lookup::session_targeted(state@.sessions, name@, SessionScope::LiveOnly) {
            Err(e) => r is Err && r->Err_0@ == e,
            Ok(session) => match session.child_pid {
                None => r is Err && r->Err_0@ == ErrorView::NoChildPid(name@),
                Some(pid) => match protocol::signal_named(protocol::in_capitals(signal_name@)) {
                    None => r is Err && r->Err_0@ == ErrorView::UnsupportedSignal(
                        protocol::in_capitals(signal_name@),
                    ),
                    Some(signal) => r is Ok && r->Ok_0.session@ == session && r->Ok_0.group
                        == protocol::group_of(pid) && r->Ok_0.signal == signal,
                },
            },
        },
{
    let session = match store.resolve_target(state, name, SessionScope::LiveOnly) {
        Ok(session) => session,
        Err(e) => {
            return Err(e);
        },
    };
    let pid: u32 = match session.child_pid {
        Some(pid) => pid,
        None => {
            return Err(TmuyError::NoChildPid(name.to_owned()));
        },
    };
    match parse_signal(signal_name) {
        Ok(signal) => Ok(SignalRequest { session, group: process_group(pid), signal }),
        Err(e) => Err(e),
    }
}

/// The hash of the session of any status that is to be waited for.
pub fn wait_target(store: &Store, state: &StateFile, name: &str) -> (r: Result<String, TmuyError>)
    ensures
        match lookup::session_targeted(state@.sessions, name@, SessionScope::All) {
            Ok(session) => r is Ok && r->Ok_0@ == session.id_hash,
            Err(e) => r is Err && r->Err_0@ == e,
        },
{
    match store.resolve_target(state, name, SessionScope::All) {
        Ok(session) => Ok(session.id_hash),
        Err(e) => Err(e),
    }
}

/// Looks once whether the session with the hash is dead: the session where it
/// is, nothing where it is to be looked at again later, an error where the
/// session is gone or the time is up. Times are in nanoseconds.
pub fn wait_for_exit(
    store: &Store,
    state: &StateFile,
    hash: &str,
    name: &str,
    elapsed: u128,
    timeout: Option<u128>,
) -> (r: Result<Option<SessionRecord>, TmuyError>)
    ensures
        if store::hash_is_free(state@, hash@) {
            r is Err && r->Err_0@ == ErrorView::UnknownHash(hash@)
        } else if !store::session_of(state@, hash@).status.live() {
            r matches Ok(Some(session)) && session@ == store::session_of(state@, hash@)
        } else if timeout matches Some(limit) && elapsed >= limit {
            r is Err && r->Err_0@ == ErrorView::WaitTimedOut(name@)
        } else {
            r matches Ok(None)
        },
{
    match store.session_by_hash(state, hash) {
        Err(e) => Err(e),
        Ok(session) => {
            if !session.status.is_live() {
                return Ok(Some(session));
            }
            if let Some(limit) = timeout {
                if elapsed >= limit {
                    return Err(TmuyError::WaitTimedOut(name.to_owned()));
                }
            }
            Ok(None)
        },
    }
}

} // verus!
