//! The process that hosts a session: what it remembers of the output, whom it
//! sends it to, and what it does with what clients send.

use vstd::prelude::*;

use std::collections::{HashMap, VecDeque};

use crate::error::{ErrorView, TmuyError};
use crate::events;
use crate::events::{exited_event, failed_event, live_event};
use crate::lookup;
use crate::model;
use crate::model::{
    EventRecord, EventView, FsGrant, GrantView, NetworkMode, SandboxSpec, SandboxView,
    SessionRecord, SessionView, StateFile, Timestamp,
};
use crate::outside;
use crate::runtime::protocol;
use crate::runtime::protocol::{IoErrorKind, Signal, parse_signal, signed};
use crate::sandbox::is_default;
use crate::store;
use crate::store::Store;
use crate::text;
use crate::text::{joined3, push_text, trimmed};

verus! {

/// How much of the output is remembered.
pub const MAX_HISTORY_BYTES: usize = 256 * 1024;

/// The last `limit` bytes.
pub open spec fn last_bytes(bytes: Seq<u8>, limit: nat) -> Seq<u8> {
    if bytes.len() <= limit {
        bytes
    } else {
        bytes.skip(bytes.len() - limit)
    }
}

/// The remembered output after a chunk of it.
pub open spec fn history_with(history: Seq<u8>, chunk: Seq<u8>) -> Seq<u8> {
    last_bytes(history + chunk, MAX_HISTORY_BYTES as nat)
}

/// What a host keeps of the output: the last of it, and a sender for each
/// attached client.
#[verifier::reject_recursive_types(S)]
pub struct OutputState<S> {
    history: VecDeque<u8>,
    broadcasters: HashMap<usize, S>,
}

impl<S> OutputState<S> {
    /// The remembered output.
    pub closed spec fn history(self) -> Seq<u8> {
        self.history@
    }

    /// The senders of the attached clients.
    pub closed spec fn clients(self) -> Map<usize, S> {
        self.broadcasters@
    }
}

/// Whether the list holds each client once, with a clone of its sender.
pub open spec fn lists_clients<S: Clone>(list: Seq<(usize, S)>, clients: Map<usize, S>) -> bool {
    &&& forall|i: int|
        0 <= i < list.len() ==> clients.contains_key((#[trigger] list[i]).0) && cloned(
            clients[list[i].0],
            list[i].1,
        )
    &&& forall|i: int, j: int|
        0 <= i < j < list.len() ==> (#[trigger] list[i]).0 != (#[trigger] list[j]).0
    &&& forall|id: usize| #[trigger]
        clients.contains_key(id) ==> exists|i: int| 0 <= i < list.len() && (#[trigger] list[i]).0 == id
}

impl<S: Clone> OutputState<S> {
    /// No output and no clients.
    pub fn new() -> (r: OutputState<S>)
        ensures
            r.history() == Seq::<u8>::empty(),
            r.clients() == Map::<usize, S>::empty(),
    {
        OutputState { history: VecDeque::new(), broadcasters: HashMap::new() }
    }

    /// Remembers a chunk of output, and hands out the senders of all clients.
    pub fn record_chunk(&mut self, chunk: &[u8]) -> (r: Vec<(usize, S)>)
        ensures
            final(self).history() == history_with(old(self).history(), chunk@),
            final(self).clients() == old(self).clients(),
            lists_clients(r@, old(self).clients()),
    {
        broadcast use vstd::std_specs::hash::group_hash_axioms;

        let ghost before = self.history@;
        let mut i: usize = 0;
        assert(before + chunk@.take(0) =~= before);
        while i < chunk.len()
            invariant
                i <= chunk@.len(),
                self.history@ == before + chunk@.take(i as int),
                self.broadcasters@ == old(self).broadcasters@,
            decreases chunk@.len() - i,
        {
            self.history.push_back(chunk[i]);
            i = i + 1;
            assert(self.history@ =~= before + chunk@.take(i as int));
        }
        assert(chunk@.take(i as int) =~= chunk@);
        let ghost whole = before + chunk@;
        let ghost mut dropped: int = 0;
        assert(whole.skip(0) =~= whole);
        while self.history.len() > MAX_HISTORY_BYTES
            invariant
                0 <= dropped <= whole.len(),
                dropped > 0 ==> whole.len() - dropped >= MAX_HISTORY_BYTES,
                self.history@ == whole.skip(dropped),
                self.broadcasters@ == old(self).broadcasters@,
            decreases self.history@.len(),
        {
            self.history.pop_front();
            proof {
                dropped = dropped + 1;
                assert(self.history@ =~= whole.skip(dropped));
            }
        }
        assert(self.history@ =~= last_bytes(whole, MAX_HISTORY_BYTES as nat));
        let ghost clients = self.broadcasters@;
        let mut out: Vec<(usize, S)> = Vec::new();
        let iter = self.broadcasters.iter();
        let ghost pairs = vstd::std_specs::iter::IteratorSpec::remaining(&iter);
        for pair in it: iter
            invariant
                it.seq() == pairs,
                out@.len() == it.index(),
                forall|k: int|
                    0 <= k < it.index() ==> (#[trigger] out@[k]).0 == *pairs[k].0 && cloned(
                        *pairs[k].1,
                        out@[k].1,
                    ),
        {
            let tx = pair.1.clone();
            out.push((*pair.0, tx));
        }
        proof {
            assert forall|i: int, j: int| 0 <= i < j < out@.len() implies (#[trigger] out@[i]).0 != (
            #[trigger] out@[j]).0 by {
                assert(clients[*pairs[i].0] == *pairs[i].1);
                assert(clients[*pairs[j].0] == *pairs[j].1);
                assert(pairs[i] != pairs[j]);
            }
            assert forall|id: usize| #[trigger] clients.contains_key(id) implies exists|i: int|
                0 <= i < out@.len() && (#[trigger] out@[i]).0 == id by {
                let k = choose|k: int| 0 <= k < pairs.len() && pairs[k] == (&id, &clients[id]);
                assert(out@[k].0 == id);
            }
            assert forall|i: int| 0 <= i < out@.len() implies clients.contains_key(
                (#[trigger] out@[i]).0,
            ) && cloned(clients[out@[i].0], out@[i].1) by {
                assert(clients.contains_key(*pairs[i].0));
                assert(clients[*pairs[i].0] == *pairs[i].1);
            }
        }
        out
    }

    /// Adds a client, and hands out the remembered output.
    pub fn register_client(&mut self, id: usize, tx: S) -> (r: Vec<u8>)
        ensures
            r@ == old(self).history(),
            final(self).history() == old(self).history(),
            final(self).clients() == old(self).clients().insert(id, tx),
    {
        broadcast use vstd::std_specs::hash::group_hash_axioms;

        let mut snapshot: Vec<u8> = Vec::new();
        let mut i: usize = 0;
        while i < self.history.len()
            invariant
                i <= self.history@.len(),
                snapshot@ == self.history@.take(i as int),
                *self == *old(self),
            decreases self.history@.len() - i,
        {
            snapshot.push(self.history[i]);
            i = i + 1;
            assert(snapshot@ =~= self.history@.take(i as int));
        }
        assert(self.history@.take(i as int) =~= self.history@);
        self.broadcasters.insert(id, tx);
        snapshot
    }

    /// Takes a client away.
    pub fn remove_client(&mut self, id: usize)
        ensures
            final(self).history() == old(self).history(),
            final(self).clients() == old(self).clients().remove(id),
    {
        broadcast use vstd::std_specs::hash::group_hash_axioms;

        self.broadcasters.remove(&id);
    }

    /// How many clients are attached.
    pub fn client_count(&self) -> (r: usize)
        ensures
            r == self.clients().len(),
    {
        broadcast use vstd::std_specs::hash::group_hash_axioms;

        self.broadcasters.len()
    }
}

/// Whether the messages carry the chunk to each client, once to each and
/// through a clone of its sender, and nothing to anyone else.
pub open spec fn carries<S: Clone>(
    messages: Seq<(usize, S, Vec<u8>)>,
    clients: Map<usize, S>,
    chunk: Seq<u8>,
) -> bool {
    &&& lists_clients(
        Seq::new(messages.len(), |i: int| (messages[i].0, messages[i].1)),
        clients,
    )
    &&& forall|i: int| 0 <= i < messages.len() ==> (#[trigger] messages[i]).2@ == chunk
}

/// Remembers a chunk of output, and hands out the messages that are to be sent:
/// for every client its number, its sender and the chunk.
pub fn broadcast<S: Clone>(state: &mut OutputState<S>, chunk: &[u8]) -> (r: Vec<
    (usize, S, Vec<u8>),
>)
    ensures
        final(state).history() == history_with(old(state).history(), chunk@),
        final(state).clients() == old(state).clients(),
        carries(r@, old(state).clients(), chunk@),
{
    let ghost clients = state.clients();
    let senders = state.record_chunk(chunk);
    let ghost listed = senders@;
    let mut out: Vec<(usize, S, Vec<u8>)> = Vec::new();
    for sender in it: senders
        invariant
            it.seq() == listed,
            out@.len() == it.index(),
            forall|k: int|
                0 <= k < it.index() ==> (#[trigger] out@[k]).0 == listed[k].0 && out@[k].1
                    == listed[k].1 && out@[k].2@ == chunk@,
    {
        let (id, tx) = sender;
        out.push((id, tx, slice_copy(chunk)));
    }
    proof {
        assert(Seq::new(out@.len(), |i: int| (out@[i].0, out@[i].1)) =~= listed);
    }
    out
}

/// Takes away the clients that could not be reached any more.
pub fn forget_clients<S: Clone>(state: &mut OutputState<S>, gone: &[usize])
    ensures
        final(state).history() == old(state).history(),
        final(state).clients() == old(state).clients().remove_keys(gone@.to_set()),
{
    let ghost before = state.clients();
    let mut i: usize = 0;
    assert(before.remove_keys(gone@.take(0).to_set()) =~= before);
    while i < gone.len()
        invariant
            i <= gone@.len(),
            before == old(state).clients(),
            state.history() == old(state).history(),
            state.clients() == before.remove_keys(gone@.take(i as int).to_set()),
        decreases gone@.len() - i,
    {
        state.remove_client(gone[i]);
        proof {
            let done = gone@.take(i as int);
            let more = gone@.take(i + 1);
            assert(more =~= done.push(gone@[i as int]));
            assert forall|id: usize| more.to_set().contains(id) == (done.to_set().contains(id)
                || id == gone@[i as int]) by {
                if done.contains(id) {
                    let k = choose|k: int| 0 <= k < done.len() && done[k] == id;
                    assert(more[k] == id);
                }
                assert(more[i as int] == gone@[i as int]);
            }
            assert(state.clients() =~= before.remove_keys(more.to_set()));
        }
        i = i + 1;
    }
    assert(gone@.take(i as int) =~= gone@);
}

fn slice_copy(bytes: &[u8]) -> (r: Vec<u8>)
    ensures
        r@ == bytes@,
{
    let mut out: Vec<u8> = Vec::new();
    out.extend_from_slice(bytes);
    assert(out@ =~= bytes@);
    out
}

/// The chunks of output, one after the other.
pub open spec fn whole_output(chunks: Seq<Seq<u8>>) -> Seq<u8>
    decreases chunks.len(),
{
    if chunks.len() == 0 {
        Seq::empty()
    } else {
        whole_output(chunks.drop_last()) + chunks.last()
    }
}

/// What is remembered after the chunks of output.
pub open spec fn history_of(chunks: Seq<Seq<u8>>) -> Seq<u8>
    decreases chunks.len(),
{
    if chunks.len() == 0 {
        Seq::empty()
    } else {
        history_with(history_of(chunks.drop_last()), chunks.last())
    }
}

/// What is remembered is the last part of all output, up to the limit, however
/// the output came in.
pub proof fn history_is_the_last_output(chunks: Seq<Seq<u8>>)
    ensures
        history_of(chunks) == last_bytes(whole_output(chunks), MAX_HISTORY_BYTES as nat),
        history_of(chunks).len() <= MAX_HISTORY_BYTES,
    decreases chunks.len(),
{
    if chunks.len() > 0 {
        let before = chunks.drop_last();
        history_is_the_last_output(before);
        let whole = whole_output(chunks);
        let kept = history_of(before) + chunks.last();
        assert(last_bytes(kept, MAX_HISTORY_BYTES as nat) =~= last_bytes(
            whole,
            MAX_HISTORY_BYTES as nat,
        ));
    }
}

/// What a client gets by the messages of one broadcast, in their order.
pub open spec fn received<S>(messages: Seq<(usize, S, Vec<u8>)>, id: usize) -> Seq<u8>
    decreases messages.len(),
{
    if messages.len() == 0 {
        Seq::empty()
    } else if messages.last().0 == id {
        received(messages.drop_last(), id) + messages.last().2@
    } else {
        received(messages.drop_last(), id)
    }
}

/// What a client gets by the messages of several broadcasts, one after the other.
pub open spec fn received_from<S>(
    broadcasts: Seq<Seq<(usize, S, Vec<u8>)>>,
    id: usize,
) -> Seq<u8>
    decreases broadcasts.len(),
{
    if broadcasts.len() == 0 {
        Seq::empty()
    } else {
        received_from(broadcasts.drop_last(), id) + received(broadcasts.last(), id)
    }
}

/// Output is broadcast to all attached clients: each gets the chunk, once and
/// nothing else, and nobody else gets anything.
pub proof fn output_reaches_every_client_once<S: Clone>(
    messages: Seq<(usize, S, Vec<u8>)>,
    clients: Map<usize, S>,
    chunk: Seq<u8>,
    id: usize,
)
    requires
        carries(messages, clients, chunk),
    ensures
        received(messages, id) == if clients.contains_key(id) {
            chunk
        } else {
            Seq::empty()
        },
        clients.contains_key(id) ==> exists|i: int|
            0 <= i < messages.len() && (#[trigger] messages[i]).0 == id && messages[i].2@ == chunk,
        forall|i: int, j: int|
            0 <= i < messages.len() && 0 <= j < messages.len() && (#[trigger] messages[i]).0 == id
                && (#[trigger] messages[j]).0 == id ==> i == j,
{
    let pairs = Seq::new(messages.len(), |i: int| (messages[i].0, messages[i].1));
    assert forall|i: int, j: int|
        0 <= i < messages.len() && 0 <= j < messages.len() && (#[trigger] messages[i]).0 == id && (
        #[trigger] messages[j]).0 == id implies i == j by {
        assert(pairs[i].0 == id);
        assert(pairs[j].0 == id);
    }
    if clients.contains_key(id) {
        let k = choose|k: int| 0 <= k < pairs.len() && (#[trigger] pairs[k]).0 == id;
        assert(messages[k].0 == id);
        lemma_received_once(messages, id, k);
    } else {
        assert forall|i: int| 0 <= i < messages.len() implies (#[trigger] messages[i]).0 != id by {
            assert(clients.contains_key(pairs[i].0));
        }
        lemma_received_nothing(messages, id);
    }
}

/// Who is sent no message gets nothing.
proof fn lemma_received_nothing<S>(messages: Seq<(usize, S, Vec<u8>)>, id: usize)
    requires
        forall|i: int| 0 <= i < messages.len() ==> (#[trigger] messages[i]).0 != id,
    ensures
        received(messages, id) == Seq::<u8>::empty(),
    decreases messages.len(),
{
    if messages.len() > 0 {
        lemma_received_nothing(messages.drop_last(), id);
    }
}

/// Who is sent one message gets what it holds.
proof fn lemma_received_once<S>(messages: Seq<(usize, S, Vec<u8>)>, id: usize, k: int)
    requires
        0 <= k < messages.len(),
        messages[k].0 == id,
        forall|i: int| 0 <= i < messages.len() && (#[trigger] messages[i]).0 == id ==> i == k,
    ensures
        received(messages, id) == messages[k].2@,
    decreases messages.len(),
{
    let before = messages.drop_last();
    if k == messages.len() - 1 {
        assert forall|i: int| 0 <= i < before.len() implies (#[trigger] before[i]).0 != id by {
            assert(before[i] == messages[i]);
        }
        lemma_received_nothing(before, id);
        assert(Seq::<u8>::empty() + messages[k].2@ =~= messages[k].2@);
    } else {
        assert(messages.last().0 != id);
        assert forall|i: int| 0 <= i < before.len() && (#[trigger] before[i]).0 == id implies i
            == k by {
            assert(before[i] == messages[i]);
        }
        lemma_received_once(before, id, k);
    }
}

/// A client that attaches after some output and stays gets the last of that
/// output, up to the limit, and then every byte that follows, once and in order.
pub proof fn clients_get_the_replay_and_then_all_output<S: Clone>(
    before: Seq<Seq<u8>>,
    during: Seq<Seq<u8>>,
    clients: Seq<Map<usize, S>>,
    broadcasts: Seq<Seq<(usize, S, Vec<u8>)>>,
    id: usize,
)
    requires
        clients.len() == during.len(),
        broadcasts.len() == during.len(),
        forall|k: int|
            0 <= k < during.len() ==> (#[trigger] clients[k]).contains_key(id) && carries(
                broadcasts[k],
                clients[k],
                during[k],
            ),
    ensures
        history_of(before) + received_from(broadcasts, id) == last_bytes(
            whole_output(before),
            MAX_HISTORY_BYTES as nat,
        ) + whole_output(during),
{
    history_is_the_last_output(before);
    lemma_all_is_received(during, clients, broadcasts, id);
}

/// A client that stays gets all output.
proof fn lemma_all_is_received<S: Clone>(
    during: Seq<Seq<u8>>,
    clients: Seq<Map<usize, S>>,
    broadcasts: Seq<Seq<(usize, S, Vec<u8>)>>,
    id: usize,
)
    requires
        clients.len() == during.len(),
        broadcasts.len() == during.len(),
        forall|k: int|
            0 <= k < during.len() ==> (#[trigger] clients[k]).contains_key(id) && carries(
                broadcasts[k],
                clients[k],
                during[k],
            ),
    ensures
        received_from(broadcasts, id) == whole_output(during),
    decreases during.len(),
{
    if during.len() > 0 {
        let last = during.len() - 1;
        let kept = clients.drop_last();
        assert forall|k: int| 0 <= k < last implies (#[trigger] kept[k]).contains_key(id) && carries(
            broadcasts.drop_last()[k],
            kept[k],
            during.drop_last()[k],
        ) by {
            assert(kept[k] == clients[k]);
        }
        lemma_all_is_received(during.drop_last(), kept, broadcasts.drop_last(), id);
        assert(clients[last].contains_key(id));
        output_reaches_every_client_once(broadcasts[last], clients[last], during[last], id);
    }
}

/// What a client wants: to attach, to write input, or to send a signal.
#[derive(Debug, Clone, Copy, PartialEq, Eq, Structural)]
pub enum ClientMode {
    Attach,
    Input,
    Signal,
}

/// What the first byte that a client sends stands for.
pub open spec fn mode_of(byte: u8) -> Option<ClientMode> {
    if byte == 0x41 {
        Some(ClientMode::Attach)
    } else if byte == 0x49 {
        Some(ClientMode::Input)
    } else if byte == 0x53 {
        Some(ClientMode::Signal)
    } else {
        None
    }
}

/// What the first byte that a client sends stands for: `A`, `I` or `S`.
pub fn client_mode(byte: u8) -> (r: Result<ClientMode, TmuyError>)
    ensures
        match r {
            Ok(mode) => mode_of(byte) == Some(mode),
            Err(e) => mode_of(byte) is None && e@ == ErrorView::UnknownClientMode(byte),
        },
{
    match byte {
        0x41 => Ok(ClientMode::Attach),
        0x49 => Ok(ClientMode::Input),
        0x53 => Ok(ClientMode::Signal),
        other => Err(TmuyError::UnknownClientMode(other)),
    }
}

/// The process to signal, and the signal, for what a client sent after `S`.
/// Without a process nothing is to be done, whatever the name of the signal.
pub fn client_signal(signal_name: &str, child_pid: Option<u32>) -> (r: Result<
    Option<(i32, Signal)>,
    TmuyError,
>)
    ensures
        match child_pid {
            None => r == Ok::<Option<(i32, Signal)>, TmuyError>(None),
            Some(pid) => {
                let name = protocol::in_capitals(text::trim(signal_name@));
                match (protocol::signal_named(name), r) {
                    (Some(signal), Ok(Some(request))) => request.0 == protocol::as_signed(pid)
                        && request.1 == signal,
                    (None, Err(e)) => e@ == ErrorView::UnsupportedSignal(name),
                    _ => false,
                }
            },
        },
{
    match child_pid {
        None => Ok(None),
        Some(pid) => {
            let name = trimmed(signal_name);
            match parse_signal(name.as_str()) {
                Ok(signal) => Ok(Some((signed(pid), signal))),
                Err(e) => Err(e),
            }
        },
    }
}

/// How reading from a terminal or a client ended.
#[derive(Debug, Clone, Copy, PartialEq, Eq, Structural)]
pub enum ReadOutcome {
    /// So many bytes were read; none at the end.
    Bytes(usize),
    Failed(IoErrorKind),
}

/// What to do after reading.
#[derive(Debug, Clone, Copy, PartialEq, Eq, Structural)]
pub enum ReadStep {
    Forward,
    Retry,
    Stop,
    Fail,
}

/// What a host does after reading from the terminal or from a client: an
/// interrupted read is tried again, any other failure is passed on.
pub open spec fn host_read(outcome: ReadOutcome) -> ReadStep {
    match outcome {
        ReadOutcome::Bytes(n) => if n == 0 {
            ReadStep::Stop
        } else {
            ReadStep::Forward
        },
        ReadOutcome::Failed(IoErrorKind::Interrupted) => ReadStep::Retry,
        ReadOutcome::Failed(_) => ReadStep::Fail,
    }
}

/// What a host does after reading from the terminal or from a client.
pub fn host_read_step(outcome: ReadOutcome) -> (r: ReadStep)
    ensures
        r == host_read(outcome),
{
    match outcome {
        ReadOutcome::Bytes(n) => if n == 0 {
            ReadStep::Stop
        } else {
            ReadStep::Forward
        },
        ReadOutcome::Failed(IoErrorKind::Interrupted) => ReadStep::Retry,
        ReadOutcome::Failed(_) => ReadStep::Fail,
    }
}

/// Whether a failure to accept a client only means that there is none yet.
pub fn accept_later(kind: IoErrorKind) -> (r: bool)
    ensures
        r == (kind == IoErrorKind::WouldBlock),
{
    matches!(kind, IoErrorKind::WouldBlock)
}

/// What an attaching client sends: the size of its terminal, in four bytes,
/// and then what is typed.
#[derive(Debug)]
pub struct AttachInput {
    size: Vec<u8>,
}

impl AttachInput {
    #[verifier::type_invariant]
    spec fn holds_a_size(self) -> bool {
        self.size@.len() <= 4
    }

    /// The bytes of the size that have come in.
    pub closed spec fn size(self) -> Seq<u8> {
        self.size@
    }

    /// Nothing has come in.
    pub fn new() -> (r: AttachInput)
        ensures
            r.size() == Seq::<u8>::empty(),
    {
        AttachInput { size: Vec::new() }
    }

    /// Takes in a chunk of what the client sent, and hands out what was typed.
    pub fn read(&mut self, chunk: &[u8]) -> (r: Vec<u8>)
        ensures
            final(self).size() == first_bytes(old(self).size() + chunk@, 4),
            old(self).size() + chunk@ == final(self).size() + r@,
    {
        proof {
            use_type_invariant(&*self);
        }
        let ghost before = self.size@;
        let mut size: Vec<u8> = Vec::new();
        std::mem::swap(&mut size, &mut self.size);
        let mut typed: Vec<u8> = Vec::new();
        let mut i: usize = 0;
        assert(size@ + typed@ =~= before + chunk@.take(0));
        while i < chunk.len()
            invariant
                i <= chunk@.len(),
                size@.len() <= 4,
                size@ + typed@ == before + chunk@.take(i as int),
                typed@.len() > 0 ==> size@.len() == 4,
            decreases chunk@.len() - i,
        {
            let ghost so_far = size@ + typed@;
            if size.len() < 4 {
                size.push(chunk[i]);
            } else {
                typed.push(chunk[i]);
            }
            i = i + 1;
            assert(size@ + typed@ =~= so_far.push(chunk@[i - 1]));
            assert(before + chunk@.take(i as int) =~= (before + chunk@.take(i - 1)).push(
                chunk@[i - 1],
            ));
        }
        assert(chunk@.take(i as int) =~= chunk@);
        assert(size@ =~= first_bytes(before + chunk@, 4));
        self.size = size;
        typed
    }
}

/// What the host does after reading from an attached client.
#[derive(Debug, PartialEq, Eq)]
pub enum AttachedStep {
    /// The bytes are written to the terminal of the session.
    Write(Vec<u8>),
    Retry,
    /// The client is gone.
    End,
    /// The client is given up for the failure.
    Fail,
}

/// A client that is attached to the session.
#[derive(Debug)]
pub struct AttachedClient {
    id: usize,
    input: AttachInput,
}

impl AttachedClient {
    /// The number by which the client is known.
    pub closed spec fn id(self) -> usize {
        self.id
    }

    /// What the client has sent of its size.
    pub closed spec fn size(self) -> Seq<u8> {
        self.input.size()
    }

    /// Attaches a client, and gives the remembered output for it.
    pub fn attach<S: Clone>(state: &mut OutputState<S>, id: usize, tx: S) -> (r: (
        AttachedClient,
        Vec<u8>,
    ))
        ensures
            r.0.id() == id,
            r.0.size() == Seq::<u8>::empty(),
            r.1@ == old(state).history(),
            final(state).history() == old(state).history(),
            final(state).clients() == old(state).clients().insert(id, tx),
    {
        let history = state.register_client(id, tx);
        (AttachedClient { id, input: AttachInput::new() }, history)
    }

    /// Takes in what was read from the client: some bytes, none at the end, or
    /// why reading failed. A client that is gone or given up gets no more output.
    pub fn read<S: Clone>(
        &mut self,
        state: &mut OutputState<S>,
        read: Result<&[u8], IoErrorKind>,
    ) -> (r: AttachedStep)
        ensures
            final(self).id() == old(self).id(),
            final(state).history() == old(state).history(),
            match read {
                Ok(chunk) => if chunk@.len() == 0 {
                    &&& r == AttachedStep::End
                    &&& final(self).size() == old(self).size()
                    &&& final(state).clients() == old(state).clients().remove(old(self).id())
                } else {
                    &&& r is Write
                    &&& final(self).size() == first_bytes(old(self).size() + chunk@, 4)
                    &&& old(self).size() + chunk@ == final(self).size() + r->Write_0@
                    &&& final(state).clients() == old(state).clients()
                },
                Err(kind) => {
                    &&& final(self).size() == old(self).size()
                    &&& if kind == IoErrorKind::Interrupted {
                        r == AttachedStep::Retry && final(state).clients() == old(state).clients()
                    } else {
                        r == AttachedStep::Fail && final(state).clients() == old(
                            state,
                        ).clients().remove(old(self).id())
                    }
                },
            },
    {
        match read {
            Ok(chunk) => {
                if chunk.len() == 0 {
                    state.remove_client(self.id);
                    return AttachedStep::End;
                }
                AttachedStep::Write(self.input.read(chunk))
            },
            Err(kind) => match host_read_step(ReadOutcome::Failed(kind)) {
                ReadStep::Retry => AttachedStep::Retry,
                _ => {
                    state.remove_client(self.id);
                    AttachedStep::Fail
                },
            },
        }
    }
}

/// The first `limit` bytes.
pub open spec fn first_bytes(bytes: Seq<u8>, limit: nat) -> Seq<u8> {
    if bytes.len() <= limit {
        bytes
    } else {
        bytes.take(limit as int)
    }
}

/// The number that two bytes stand for, the higher one first.
pub open spec fn big_endian(high: u8, low: u8) -> int {
    high * 256 + low
}

/// Whether a session of this sandbox can be hosted: any on Linux, elsewhere
/// only one that is not restricted.
pub fn sandbox_supported(session: &SessionRecord, linux: bool) -> (r: bool)
    ensures
        r == (session@.sandbox == model::default_sandbox() || linux),
{
    is_default(&session.sandbox) || linux
}

/// A grant as it is named where it is refused.
pub open spec fn refused_grant(grant: GrantView) -> Seq<char> {
    match grant {
        GrantView::Full => "Full"@,
        GrantView::ReadOnly(place) => "ReadOnly("@ + outside::quoted_text_of(place) + ")"@,
        GrantView::ReadWrite(place) => "ReadWrite("@ + outside::quoted_text_of(place) + ")"@,
    }
}

/// A list of grants as they are named where they are refused.
pub open spec fn refused_grants(fs: Seq<GrantView>) -> Seq<char>
    decreases fs.len(),
{
    if fs.len() == 0 {
        Seq::empty()
    } else if fs.len() == 1 {
        refused_grant(fs[0])
    } else {
        refused_grants(fs.drop_last()) + ", "@ + refused_grant(fs.last())
    }
}

/// A sandbox as it is named where it is refused.
pub open spec fn refused_sandbox(sandbox: SandboxView) -> Seq<char> {
    "SandboxSpec { fs: ["@ + refused_grants(sandbox.fs) + "], net: "@ + (if sandbox.net
        == NetworkMode::On {
        "On"@
    } else {
        "Off"@
    }) + " }"@
}

fn refused_grant_text(grant: &FsGrant) -> (r: String)
    ensures
        r@ == refused_grant(grant@),
{
    match grant {
        FsGrant::Full => "Full".to_owned(),
        FsGrant::ReadOnly(place) => joined3(
            "ReadOnly(",
            outside::quoted_text(place.as_str()).as_str(),
            ")",
        ),
        FsGrant::ReadWrite(place) => joined3(
            "ReadWrite(",
            outside::quoted_text(place.as_str()).as_str(),
            ")",
        ),
    }
}

fn refused_sandbox_text(sandbox: &SandboxSpec) -> (r: String)
    ensures
        r@ == refused_sandbox(sandbox@),
{
    let ghost fs = model::grants(sandbox.fs@);
    let mut list = String::new();
    let mut i: usize = 0;
    assert(fs.take(0) =~= Seq::empty());
    while i < sandbox.fs.len()
        invariant
            i <= sandbox.fs@.len(),
            fs == model::grants(sandbox.fs@),
            list@ == refused_grants(fs.take(i as int)),
        decreases sandbox.fs@.len() - i,
    {
        proof {
            assert(fs.take(i + 1).drop_last() =~= fs.take(i as int));
            assert(fs.take(i + 1).last() == fs[i as int]);
            assert(fs[i as int] == sandbox.fs@[i as int]@);
        }
        if i > 0 {
            push_text(&mut list, ", ");
        }
        push_text(&mut list, refused_grant_text(&sandbox.fs[i]).as_str());
        assert(list@ =~= refused_grants(fs.take(i + 1)));
        i = i + 1;
    }
    assert(fs.take(i as int) =~= fs);
    let mut out = joined3("SandboxSpec { fs: [", list.as_str(), "], net: ");
    match sandbox.net {
        NetworkMode::On => push_text(&mut out, "On"),
        NetworkMode::Off => push_text(&mut out, "Off"),
    }
    push_text(&mut out, " }");
    out
}

/// Refuses to host a session of a sandbox that is not supported.
pub fn ensure_sandbox_supported(session: &SessionRecord, linux: bool) -> (r: Result<(), TmuyError>)
    ensures
        match r {
            Ok(()) => session@.sandbox == model::default_sandbox() || linux,
            Err(e) => session@.sandbox != model::default_sandbox() && !linux && e@
                == ErrorView::SandboxUnsupported(refused_sandbox(session@.sandbox)),
        },
{
    if sandbox_supported(session, linux) {
        Ok(())
    } else {
        Err(TmuyError::SandboxUnsupported(refused_sandbox_text(&session.sandbox)))
    }
}

/// Records that a session runs, and gives the event for it.
pub fn session_started(
    store: &Store,
    state: &mut StateFile,
    hash: &str,
    service_pid: u32,
    child_pid: Option<u32>,
    now: Timestamp,
) -> (r: Result<(SessionRecord, EventRecord), TmuyError>)
    ensures
        ({
            let session = store::marked_live(
                store::session_of(old(state)@, hash@),
                service_pid,
                child_pid,
                now,
            );
            is_recorded(old(state)@, hash@, session, events::live(session, now), r, final(state)@)
        }),
{
    match store.mark_live_at(state, hash, service_pid, child_pid, now) {
        Ok(session) => {
            let event = live_event(&session, now);
            Ok((session, event))
        },
        Err(e) => Err(e),
    }
}

/// Records that a session exited with the code of its process, and gives the
/// event for it.
pub fn session_ended(
    store: &Store,
    state: &mut StateFile,
    hash: &str,
    exit_code: u32,
    now: Timestamp,
) -> (r: Result<(SessionRecord, EventRecord), TmuyError>)
    ensures
        ({
            let code = Some(protocol::as_signed(exit_code) as i32);
            let session = store::marked_exited(store::session_of(old(state)@, hash@), code, now);
            is_recorded(old(state)@, hash@, session, events::exited(code, now), r, final(state)@)
        }),
{
    let code = Some(signed(exit_code));
    match store.mark_exited_at(state, hash, code, now) {
        Ok(session) => Ok((session, exited_event(code, now))),
        Err(e) => Err(e),
    }
}

/// Records why a session failed to start, and gives the event for it.
pub fn session_failed(
    store: &Store,
    state: &mut StateFile,
    hash: &str,
    reason: &str,
    now: Timestamp,
) -> (r: Result<(SessionRecord, EventRecord), TmuyError>)
    ensures
        ({
            let session = store::marked_failed(store::session_of(old(state)@, hash@), reason@, now);
            is_recorded(old(state)@, hash@, session, events::failed(session, now), r, final(state)@)
        }),
{
    match store.mark_failed_at(state, hash, reason, now) {
        Ok(session) => {
            let event = failed_event(&session, now);
            Ok((session, event))
        },
        Err(e) => Err(e),
    }
}

/// Whether a change of a session was recorded together with its event, or,
/// where there is no such session, refused and nothing changed.
pub open spec fn is_recorded(
    before: model::StateView,
    hash: Seq<char>,
    session: SessionView,
    event: EventView,
    r: Result<(SessionRecord, EventRecord), TmuyError>,
    after: model::StateView,
) -> bool {
    &&& store::is_change(
        before,
        hash,
        session,
        lookup::outcome(
            match r {
                Ok(pair) => Ok(pair.0),
                Err(e) => Err(e),
            },
        ),
        after,
    )
    &&& r matches Ok(pair) ==> pair.1@ == event
}

} // verus!
