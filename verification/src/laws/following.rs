//! What holds of following a file: what is read of it, when that ends, and what
//! is shown for its lines.

use vstd::prelude::*;

use crate::model::SessionView;
use crate::outside;
use crate::rpc;
use crate::runtime::client;
use crate::runtime::client::{EventText, FollowAction, FollowEvent, FollowPlan};
use crate::runtime::server;

verus! {

/// Where a look finds more than was read, all of it is read: from where the
/// reader stood up to where it then stands, which is the end of the file.
pub proof fn looks_read_up_to_the_end(position: u64, follow: bool, len: u64)
    requires
        len > position,
    ensures
        ({
            let action = client::follow_action(position, follow, FollowEvent::Looked(Some(len)));
            &&& action is Read
            &&& action->from == position
            &&& action->from + action->count == len
            &&& client::read_up_to(position, Some(len)) == len
            &&& client::unread(position, Some(len)) == Some((position, (len - position) as u64))
        }),
{
}

/// Where a look finds nothing new, nothing is read and the reader stays where it is.
pub proof fn looks_find_nothing_new(position: u64, follow: bool, len: Option<u64>)
    requires
        len matches Some(n) ==> n <= position,
    ensures
        client::follow_action(position, follow, FollowEvent::Looked(len)) == (if follow {
            FollowAction::Check
        } else {
            FollowAction::End
        }),
        client::read_up_to(position, len) == position,
        client::unread(position, len) is None,
{
}

/// One who does not follow ends once the file is read; one who follows then
/// looks at the session, ends where it is dead and nothing is left of the file,
/// and waits otherwise.
pub proof fn followers_end_with_the_session(
    position: u64,
    follow: bool,
    live: bool,
    len: Option<u64>,
)
    ensures
        client::follow_action(position, follow, FollowEvent::Shown) == (if follow {
            FollowAction::Check
        } else {
            FollowAction::End
        }),
        client::follow_action(position, follow, FollowEvent::Checked { live, len }) == (if !live
            && (len is None || len->0 <= position) {
            FollowAction::End
        } else {
            FollowAction::Wait
        }),
        client::drained(position, live, len) == (!live && (len is None || len->0 <= position)),
{
}

/// What the reads of one who follows show, given what the file held at each
/// look: of each look the bytes that the action after it reads.
pub open spec fn carried_out(looks: Seq<Option<Seq<u8>>>, follow: bool) -> Seq<u8>
    decreases looks.len(),
{
    if looks.len() == 0 {
        Seq::empty()
    } else {
        let before = carried_out(looks.drop_last(), follow);
        let position = client::position_after(looks.drop_last());
        match client::follow_action(
            position,
            follow,
            FollowEvent::Looked(client::file_len(looks.last())),
        ) {
            FollowAction::Read { from, count } => before + looks.last()->0.subrange(
                from as int,
                from + count,
            ),
            _ => before,
        }
    }
}

/// What is read and shown of a file that only grows, all the reads one after the
/// other, is what the file held at the last look.
pub proof fn reads_show_the_whole_file(looks: Seq<Option<Seq<u8>>>, follow: bool)
    requires
        looks.len() > 0,
        client::only_grows(looks),
    ensures
        carried_out(looks, follow) == match looks.last() {
            Some(content) => content,
            None => Seq::empty(),
        },
        carried_out(looks, follow) == client::shown_after(looks),
{
    lemma_carried_out(looks, follow);
    client::reading_on_loses_nothing(looks);
}

proof fn lemma_carried_out(looks: Seq<Option<Seq<u8>>>, follow: bool)
    ensures
        carried_out(looks, follow) == client::shown_after(looks),
    decreases looks.len(),
{
    if looks.len() > 0 {
        lemma_carried_out(looks.drop_last(), follow);
    }
}

/// A file only grows where it is there from some look on, and each look finds
/// what the one before found, and perhaps more behind it.
pub proof fn growing_files_keep_what_they_held(looks: Seq<Option<Seq<u8>>>)
    requires
        forall|i: int| 0 <= i < looks.len() && (#[trigger] looks[i]) is Some ==> looks[i]->0.len()
            <= u64::MAX,
        forall|i: int, j: int|
            0 <= i < j < looks.len() && (#[trigger] looks[i]) is Some ==> (#[trigger] looks[j])
                is Some && looks[i]->0.is_prefix_of(looks[j]->0),
    ensures
        client::only_grows(looks),
{
}

/// Where a reader stands after its looks is where the file ended at the last one.
pub proof fn readers_stand_at_the_end(looks: Seq<Option<Seq<u8>>>)
    requires
        looks.len() > 0,
        client::only_grows(looks),
    ensures
        client::position_after(looks) == match looks.last() {
            Some(content) => content.len(),
            None => 0,
        },
{
    client::reading_on_loses_nothing(looks);
}

/// A plan reads the file that was asked for, from its start, for the session of
/// that hash, and follows it where that was asked for.
pub proof fn plans_read_from_the_start(
    plan: FollowPlan,
    session: SessionView,
    path: Seq<char>,
    follow: bool,
)
    ensures
        client::plans(plan, session, path, follow) <==> plan.hash@ == session.id_hash && plan.path@
            == path && plan.follower.position() == 0 && plan.follower.follows() == follow,
{
}

/// Lines with a newline behind each.
pub open spec fn with_newlines(lines: Seq<Seq<u8>>) -> Seq<u8>
    decreases lines.len(),
{
    if lines.len() == 0 {
        Seq::empty()
    } else {
        with_newlines(lines.drop_last()) + lines.last().push(10)
    }
}

/// The lines of some bytes, with a newline behind each, and what stands behind
/// the last newline make up the bytes; neither holds a newline itself.
pub proof fn lines_make_up_the_bytes(bytes: Seq<u8>)
    ensures
        with_newlines(client::lines_of(bytes).done) + client::lines_of(bytes).rest == bytes,
        !client::lines_of(bytes).rest.contains(10),
        forall|i: int|
            0 <= i < client::lines_of(bytes).done.len() ==> !(#[trigger] client::lines_of(
                bytes,
            ).done[i]).contains(10),
    decreases bytes.len(),
{
    let all = client::lines_of(bytes);
    if bytes.len() == 0 {
        assert(with_newlines(all.done) + all.rest =~= bytes);
    } else {
        lines_make_up_the_bytes(bytes.drop_last());
        let before = client::lines_of(bytes.drop_last());
        assert(bytes =~= bytes.drop_last().push(bytes.last()));
        if bytes.last() == 10 {
            assert(all.done.drop_last() =~= before.done);
            assert(with_newlines(all.done) + all.rest =~= bytes);
            assert forall|i: int| 0 <= i < all.done.len() implies !(
            #[trigger] all.done[i]).contains(10) by {
                if i < before.done.len() {
                    assert(all.done[i] == before.done[i]);
                }
            }
        } else {
            assert(with_newlines(all.done) + all.rest =~= bytes);
            assert(!all.rest.contains(10)) by {
                if all.rest.contains(10) {
                    let k = choose|k: int| 0 <= k < all.rest.len() && all.rest[k] == 10;
                    if k < before.rest.len() {
                        assert(before.rest[k] == 10);
                    }
                }
            }
        }
    }
}

/// The lists of bytes of a list of vectors are those of its vectors, in order.
pub proof fn byte_lists_are_those_of_the_vectors(v: Seq<Vec<u8>>)
    ensures
        client::byte_lists(v).len() == v.len(),
        forall|i: int| 0 <= i < v.len() ==> #[trigger] client::byte_lists(v)[i] == v[i]@,
{
}

/// Of lines that are shown as they are, each that is not empty is shown with
/// its newline, in order, and the empty ones are left out.
pub proof fn lines_are_shown_as_they_are(
    first: Seq<Seq<u8>>,
    second: Seq<Seq<u8>>,
    line: Seq<u8>,
)
    ensures
        client::jsonl_output(seq![line]) == (if line.len() == 0 {
            Seq::empty()
        } else {
            line.push(10)
        }),
        client::jsonl_output(first + second) == client::jsonl_output(first) + client::jsonl_output(
            second,
        ),
    decreases second.len(),
{
    assert(seq![line].drop_last() =~= Seq::empty());
    assert(client::jsonl_output(Seq::<Seq<u8>>::empty()) =~= Seq::empty());
    assert(client::jsonl_output(seq![line]) =~= (if line.len() == 0 {
        Seq::empty()
    } else {
        line.push(10)
    }));
    if second.len() == 0 {
        assert(first + second =~= first);
    } else {
        lines_are_shown_as_they_are(first, second.drop_last(), line);
        assert((first + second).drop_last() =~= first + second.drop_last());
    }
    assert(client::jsonl_output(first + second) =~= client::jsonl_output(first)
        + client::jsonl_output(second));
}

/// What is shown for a line: nothing for an empty one, the line and a newline
/// where lines are shown as they are, else the row of the event that was read
/// from this very line.
pub proof fn lines_are_shown_by_their_event<E, F: Fn(&[u8]) -> Result<EventText, E>>(
    read: F,
    jsonl: bool,
    line: Seq<u8>,
    shown: Seq<u8>,
)
    requires
        client::shows::<E, F>(read, jsonl, line, shown),
    ensures
        line.len() == 0 ==> shown == Seq::<u8>::empty(),
        line.len() > 0 && jsonl ==> shown == line.push(10),
        line.len() > 0 && !jsonl ==> exists|event: EventText, l: &[u8]|
            l@ == line && #[trigger] call_ensures(read, (l,), Ok(event)) && (
            #[trigger] event.row()) is Some && shown == vstd::utf8::encode_utf8(
                event.row()->Some_0,
            ),
{
    if line.len() > 0 && !jsonl {
        let event = choose|event: EventText|
            client::read_as::<E, F>(read, line, Ok(event)) && (#[trigger] event.row()) is Some
                && shown == vstd::utf8::encode_utf8(event.row()->Some_0);
        let l = choose|l: &[u8]| l@ == line && #[trigger] call_ensures(read, (l,), Ok(event));
        assert(call_ensures(read, (l,), Ok(event)));
    }
}

/// A line was read as given where the reader was given that line and gave that.
pub proof fn lines_are_read_as_they_are<E, F: Fn(&[u8]) -> Result<EventText, E>>(
    read: F,
    line: Seq<u8>,
    r: Result<EventText, E>,
)
    requires
        client::read_as::<E, F>(read, line, r),
    ensures
        exists|l: &[u8]| l@ == line && #[trigger] call_ensures(read, (l,), r),
{
}

/// What is shown for some lines is what is shown for each of them, in order.
pub proof fn lines_are_shown_in_order<E, F: Fn(&[u8]) -> Result<EventText, E>>(
    read: F,
    jsonl: bool,
    lines: Seq<Seq<u8>>,
    n: int,
    shown: Seq<u8>,
)
    requires
        0 <= n <= lines.len(),
        client::shows_lines::<E, F>(read, jsonl, lines, n, shown),
    ensures
        exists|pieces: Seq<Seq<u8>>|
            pieces.len() == n && #[trigger] server::whole_output(pieces) == shown && forall|i: int|
                0 <= i < n ==> client::shows::<E, F>(read, jsonl, lines[i], #[trigger] pieces[i]),
    decreases n,
{
    if n == 0 {
        let pieces = Seq::<Seq<u8>>::empty();
        assert(server::whole_output(pieces) =~= shown);
    } else {
        let (before, last) = choose|before: Seq<u8>, last: Seq<u8>|
            #![trigger client::shows::<E, F>(read, jsonl, lines[n - 1], last), before + last]
            shown == before + last && client::shows_lines::<E, F>(
                read,
                jsonl,
                lines,
                n - 1,
                before,
            ) && client::shows::<E, F>(read, jsonl, lines[n - 1], last);
        lines_are_shown_in_order::<E, F>(read, jsonl, lines, n - 1, before);
        let earlier = choose|earlier: Seq<Seq<u8>>|
            earlier.len() == n - 1 && #[trigger] server::whole_output(earlier) == before
                && forall|i: int|
                0 <= i < n - 1 ==> client::shows::<E, F>(
                    read,
                    jsonl,
                    lines[i],
                    #[trigger] earlier[i],
                );
        let pieces = earlier.push(last);
        assert(pieces.drop_last() =~= earlier);
        assert(server::whole_output(pieces) == shown);
        assert forall|i: int| 0 <= i < n implies client::shows::<E, F>(
            read,
            jsonl,
            lines[i],
            #[trigger] pieces[i],
        ) by {
            if i < n - 1 {
                assert(pieces[i] == earlier[i]);
            }
        }
    }
}

/// The row of an event holds the time as the calendar writes it, the kind and
/// the detail, with tabs between them and a newline at the end.
pub proof fn rows_hold_time_kind_and_detail(event: EventText)
    ensures
        ({
            let ts = outside::utc_text_of(event.at().secs as int, event.at().nanos as nat);
            &&& ts is None ==> event.row() is None
            &&& ts is Some ==> event.row() == Some(
                ts->0 + "\t"@ + event.kind() + "\t"@ + event.detail() + "\n"@,
            )
        }),
{
}

/// The lines that are not empty are those of the lines, in order: a line of its
/// own stays where it is not empty, and lists are taken one after the other.
pub proof fn filled_lines_are_kept_in_order(
    first: Seq<Seq<u8>>,
    second: Seq<Seq<u8>>,
    line: Seq<u8>,
)
    ensures
        rpc::filled(seq![line]) == (if line.len() == 0 {
            Seq::empty()
        } else {
            seq![line]
        }),
        rpc::filled(first + second) == rpc::filled(first) + rpc::filled(second),
{
    let keep = |line: Seq<u8>| line.len() > 0;
    Seq::filter_distributes_over_add(first, second, keep);
    reveal(Seq::filter);
    assert(seq![line].drop_last() =~= Seq::empty());
    assert(Seq::<Seq<u8>>::empty().filter(keep) =~= Seq::empty());
    assert(rpc::filled(seq![line]) =~= (if line.len() == 0 {
        Seq::empty()
    } else {
        seq![line]
    }));
}

/// The messages for some lines are one for each, read from that very line.
pub proof fn messages_are_those_of_the_lines<M, E, F: Fn(&[u8]) -> Result<M, E>>(
    parse: F,
    lines: Seq<Seq<u8>>,
    messages: Seq<M>,
    i: int,
)
    requires
        rpc::messages_for::<M, E, F>(parse, lines, messages),
        0 <= i < lines.len(),
    ensures
        messages.len() == lines.len(),
        exists|l: &[u8]|
            l@ == lines[i] && #[trigger] call_ensures(parse, (l,), Ok::<M, E>(messages[i])),
{
    assert(rpc::parsed_as::<M, E, F>(parse, lines[i], Ok::<M, E>(messages[i])));
}

/// A line was parsed as given where the parser was given that line and gave that.
pub proof fn lines_are_parsed_as_they_are<M, E, F: Fn(&[u8]) -> Result<M, E>>(
    parse: F,
    line: Seq<u8>,
    r: Result<M, E>,
)
    requires
        rpc::parsed_as::<M, E, F>(parse, line, r),
    ensures
        exists|l: &[u8]| l@ == line && #[trigger] call_ensures(parse, (l,), r),
{
}

} // verus!
