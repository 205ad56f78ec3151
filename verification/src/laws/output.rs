//! What holds of the output of a session: what is remembered of it, and what
//! its clients get.

use vstd::prelude::*;

use crate::runtime::client;
use crate::runtime::protocol::IoErrorKind;
use crate::runtime::server;
use crate::runtime::server::{ClientMode, ReadOutcome, ReadStep};

verus! {

/// The last bytes are bytes of the output, unchanged and in order: all of them
/// where they are within the limit, else so many from the end.
pub proof fn last_bytes_are_the_end_unchanged(bytes: Seq<u8>, limit: nat)
    ensures
        bytes.len() <= limit ==> server::last_bytes(bytes, limit) == bytes,
        bytes.len() > limit ==> server::last_bytes(bytes, limit) == bytes.skip(
            bytes.len() - limit,
        ),
        forall|i: int|
            0 <= i < server::last_bytes(bytes, limit).len() ==> #[trigger] server::last_bytes(
                bytes,
                limit,
            )[i] == bytes[bytes.len() - server::last_bytes(bytes, limit).len() + i],
{
}

/// What is remembered after a chunk is the end of what was remembered followed
/// by the chunk, byte for byte, and all of it up to 256 KiB.
pub proof fn chunks_are_remembered_as_they_are(history: Seq<u8>, chunk: Seq<u8>)
    ensures
        ({
            let whole = history + chunk;
            let after = server::history_with(history, chunk);
            &&& whole.len() <= 262144 ==> after == whole
            &&& whole.len() > 262144 ==> after.len() == 262144 && after == whole.skip(
                whole.len() - 262144,
            )
            &&& chunk.len() <= 262144 ==> after.skip(after.len() - chunk.len()) == chunk
        }),
{
    let whole = history + chunk;
    let after = server::history_with(history, chunk);
    if chunk.len() <= 262144 {
        assert(after.skip(after.len() - chunk.len()) =~= chunk);
    }
}

/// All output is the output up to some point and then what follows; one chunk
/// is that chunk.
pub proof fn output_adds_up(first: Seq<Seq<u8>>, second: Seq<Seq<u8>>, chunk: Seq<u8>)
    ensures
        server::whole_output(seq![chunk]) == chunk,
        server::whole_output(first + second) == server::whole_output(first) + server::whole_output(
            second,
        ),
        server::whole_output(Seq::empty()) == Seq::<u8>::empty(),
    decreases second.len(),
{
    assert(seq![chunk].drop_last() =~= Seq::empty());
    assert(server::whole_output(Seq::<Seq<u8>>::empty()) =~= Seq::empty());
    assert(server::whole_output(seq![chunk]) =~= chunk);
    if second.len() == 0 {
        assert(first + second =~= first);
        assert(server::whole_output(first + second) =~= server::whole_output(first)
            + server::whole_output(second));
    } else {
        output_adds_up(first, second.drop_last(), chunk);
        assert((first + second).drop_last() =~= first + second.drop_last());
        assert(server::whole_output(first + second) =~= server::whole_output(first)
            + server::whole_output(second));
    }
}

/// What is replayed after some output is the end of that output, unchanged.
pub proof fn replays_are_the_end_of_the_output(chunks: Seq<Seq<u8>>)
    ensures
        ({
            let whole = server::whole_output(chunks);
            let replay = server::history_of(chunks);
            &&& whole.len() <= 262144 ==> replay == whole
            &&& whole.len() > 262144 ==> replay == whole.skip(whole.len() - 262144)
        }),
{
    server::history_is_the_last_output(chunks);
}

/// The messages of a broadcast are one for each client, of that client's number,
/// through a clone of its sender and with the chunk as it is.
pub proof fn broadcasts_carry_the_chunk_to_each_client<S: Clone>(
    messages: Seq<(usize, S, Vec<u8>)>,
    clients: Map<usize, S>,
    chunk: Seq<u8>,
)
    requires
        server::carries(messages, clients, chunk),
    ensures
        forall|i: int|
            0 <= i < messages.len() ==> clients.contains_key((#[trigger] messages[i]).0) && cloned(
                clients[messages[i].0],
                messages[i].1,
            ) && messages[i].2@ == chunk,
        forall|i: int, j: int|
            0 <= i < j < messages.len() ==> (#[trigger] messages[i]).0 != (
            #[trigger] messages[j]).0,
        forall|id: usize| #[trigger]
            clients.contains_key(id) ==> exists|i: int|
                0 <= i < messages.len() && (#[trigger] messages[i]).0 == id,
{
    let pairs = Seq::new(messages.len(), |i: int| (messages[i].0, messages[i].1));
    assert forall|i: int| 0 <= i < messages.len() implies clients.contains_key(
        (#[trigger] messages[i]).0,
    ) && cloned(clients[messages[i].0], messages[i].1) && messages[i].2@ == chunk by {
        assert(clients.contains_key(pairs[i].0));
    }
    assert forall|i: int, j: int| 0 <= i < j < messages.len() implies (#[trigger] messages[i]).0
        != (#[trigger] messages[j]).0 by {
        assert(pairs[i].0 != pairs[j].0);
    }
    assert forall|id: usize| #[trigger] clients.contains_key(id) implies exists|i: int|
        0 <= i < messages.len() && (#[trigger] messages[i]).0 == id by {
        let k = choose|k: int| 0 <= k < pairs.len() && (#[trigger] pairs[k]).0 == id;
        assert(messages[k].0 == id);
    }
}

/// A list of clients holds each of them once, with a clone of its sender, and
/// nobody else.
pub proof fn lists_hold_each_client_once<S: Clone>(list: Seq<(usize, S)>, clients: Map<usize, S>)
    requires
        server::lists_clients(list, clients),
    ensures
        forall|i: int|
            0 <= i < list.len() ==> clients.contains_key((#[trigger] list[i]).0) && cloned(
                clients[list[i].0],
                list[i].1,
            ),
        forall|i: int, j: int|
            0 <= i < j < list.len() ==> (#[trigger] list[i]).0 != (#[trigger] list[j]).0,
        forall|id: usize| #[trigger]
            clients.contains_key(id) ==> exists|i: int|
                0 <= i < list.len() && (#[trigger] list[i]).0 == id,
{
}

/// What a client gets by some messages is what it gets by the first of them
/// and then by the rest: of a message to it the bytes, of another nothing.
pub proof fn messages_are_received_in_order<S>(
    first: Seq<(usize, S, Vec<u8>)>,
    second: Seq<(usize, S, Vec<u8>)>,
    message: (usize, S, Vec<u8>),
    id: usize,
)
    ensures
        server::received(seq![message], message.0) == message.2@,
        id != message.0 ==> server::received(seq![message], id) == Seq::<u8>::empty(),
        server::received(first + second, id) == server::received(first, id) + server::received(
            second,
            id,
        ),
    decreases second.len(),
{
    let one = seq![message];
    assert(one.drop_last() =~= Seq::empty());
    assert(server::received(one.drop_last(), id) =~= Seq::<u8>::empty());
    assert(server::received(one.drop_last(), message.0) =~= Seq::<u8>::empty());
    assert(server::received(one, message.0) =~= message.2@);
    if second.len() == 0 {
        assert(first + second =~= first);
        assert(server::received(first + second, id) =~= server::received(first, id)
            + server::received(second, id));
    } else {
        messages_are_received_in_order(first, second.drop_last(), message, id);
        assert((first + second).drop_last() =~= first + second.drop_last());
        assert(server::received(first + second, id) =~= server::received(first, id)
            + server::received(second, id));
    }
}

/// A client that attaches after some output gets the end of it, up to 256 KiB,
/// and then each chunk of what follows, whole and once.
pub proof fn attached_clients_see_the_output_itself<S: Clone>(
    before: Seq<Seq<u8>>,
    chunk: Seq<u8>,
    clients: Map<usize, S>,
    messages: Seq<(usize, S, Vec<u8>)>,
    id: usize,
)
    requires
        clients.contains_key(id),
        server::carries(messages, clients, chunk),
        server::whole_output(before).len() <= 262144,
    ensures
        server::history_of(before) + server::received(messages, id) == server::whole_output(before)
            + chunk,
{
    replays_are_the_end_of_the_output(before);
    server::output_reaches_every_client_once(messages, clients, chunk, id);
}

/// A client says by its first byte what it wants: `A` to attach, `I` for input,
/// `S` for a signal, and no other byte stands for anything.
pub proof fn modes_are_told_by_their_byte(byte: u8)
    ensures
        server::mode_of(byte) == Some(ClientMode::Attach) <==> byte == 65,
        server::mode_of(byte) == Some(ClientMode::Input) <==> byte == 73,
        server::mode_of(byte) == Some(ClientMode::Signal) <==> byte == 83,
{
}

/// A host goes on with what it read, stops at the end, tries an interrupted
/// read again and gives up on any other failure.
pub proof fn hosts_read_until_the_end(n: usize, kind: IoErrorKind)
    ensures
        server::host_read(ReadOutcome::Bytes(n)) == (if n > 0 {
            ReadStep::Forward
        } else {
            ReadStep::Stop
        }),
        server::host_read(ReadOutcome::Failed(kind)) == (if kind == IoErrorKind::Interrupted {
            ReadStep::Retry
        } else {
            ReadStep::Fail
        }),
{
}

/// A client goes on with what it read, stops at the end or where the host is
/// gone, tries an interrupted read again and gives up on any other failure.
pub proof fn clients_read_until_the_host_is_gone(n: usize, kind: IoErrorKind)
    ensures
        client::client_read(ReadOutcome::Bytes(n)) == (if n > 0 {
            ReadStep::Forward
        } else {
            ReadStep::Stop
        }),
        client::client_read(ReadOutcome::Failed(kind)) == (match kind {
            IoErrorKind::Interrupted => ReadStep::Retry,
            IoErrorKind::BrokenPipe => ReadStep::Stop,
            IoErrorKind::ConnectionReset => ReadStep::Stop,
            IoErrorKind::ConnectionAborted => ReadStep::Stop,
            IoErrorKind::UnexpectedEof => ReadStep::Stop,
            IoErrorKind::WouldBlock => ReadStep::Fail,
            IoErrorKind::Other => ReadStep::Fail,
        }),
{
}

/// What an attaching client sends first is five bytes: `A`, the rows of its
/// terminal but for one, at least one, and its columns, at least one, each with
/// the higher byte first.
pub proof fn handshakes_tell_the_size(rows: u16, cols: u16)
    ensures
        ({
            let sent = client::handshake(rows, cols);
            &&& sent.len() == 5
            &&& sent[0] == 65
            &&& sent[1] * 256 + sent[2] == if rows >= 2 {
                rows - 1
            } else {
                1int
            }
            &&& sent[3] * 256 + sent[4] == if cols >= 1 {
                cols as int
            } else {
                1int
            }
        }),
{
}

/// Input is sent as it is, behind an `I`.
pub proof fn input_is_sent_as_it_is(bytes: Seq<u8>)
    ensures
        client::input_message(bytes).len() == bytes.len() + 1,
        client::input_message(bytes)[0] == 73,
        client::input_message(bytes).skip(1) == bytes,
{
    assert(client::input_message(bytes).skip(1) =~= bytes);
}

/// The first bytes are bytes as they are: all of them where they are within the
/// limit, else so many.
pub proof fn first_bytes_are_the_start_unchanged(bytes: Seq<u8>, limit: nat)
    ensures
        bytes.len() <= limit ==> server::first_bytes(bytes, limit) == bytes,
        bytes.len() > limit ==> server::first_bytes(bytes, limit) == bytes.take(limit as int),
        server::first_bytes(bytes, limit).is_prefix_of(bytes),
{
    assert(bytes =~= bytes.subrange(0, bytes.len() as int));
}

} // verus!
