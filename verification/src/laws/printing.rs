//! What holds of what is printed.

use vstd::prelude::*;

use crate::cli;
use crate::model::{GrantView, NetworkMode, SandboxView, SessionStatus, SessionView};
use crate::outside;
use crate::runtime::server;
use crate::runtime::ui;
use crate::text;

verus! {

/// The row of a session holds its name, its hash, its status and its log
/// directory, with tabs between them, and ends the line.
pub proof fn rows_hold_name_hash_status_and_directory(s: SessionView)
    ensures
        cli::session_row(s) == s.current_name + "\t"@ + s.id_hash + "\t"@ + cli::status_word(
            s.status,
        ) + "\t"@ + s.started_log_dir + "\n"@,
{
}

/// A status is printed by its own name.
pub proof fn statuses_are_printed_by_name(status: SessionStatus)
    ensures
        status is Starting ==> cli::status_word(status) == "Starting"@,
        status is Live ==> cli::status_word(status) == "Live"@,
        status is Exited ==> cli::status_word(status) == "Exited"@,
        status is Failed ==> cli::status_word(status) == "Failed"@,
{
}

/// The rows of a list are those of its sessions, one after the other: what is
/// printed for two lists, one behind the other, is what is printed for each.
pub proof fn lists_are_printed_row_by_row(
    first: Seq<SessionView>,
    second: Seq<SessionView>,
    s: SessionView,
)
    ensures
        cli::list_words(seq![s]) == cli::session_row(s),
        cli::session_rows(first + second) == cli::session_rows(first) + cli::session_rows(second),
        first.len() > 0 && second.len() > 0 ==> cli::list_words(first + second) == cli::list_words(
            first,
        ) + cli::list_words(second),
        cli::list_words(Seq::empty()) == "no sessions\n"@,
    decreases second.len(),
{
    assert(seq![s].drop_last() =~= Seq::empty());
    assert(cli::session_rows(Seq::<SessionView>::empty()) =~= Seq::empty());
    assert(cli::session_rows(seq![s]) =~= cli::session_row(s));
    if second.len() == 0 {
        assert(first + second =~= first);
    } else {
        lists_are_printed_row_by_row(first, second.drop_last(), s);
        assert((first + second).drop_last() =~= first + second.drop_last());
    }
    assert(cli::session_rows(first + second) =~= cli::session_rows(first) + cli::session_rows(
        second,
    ));
}

/// The row of each listed session stands in what is printed, behind those of
/// the sessions before it and before those of the sessions behind it.
pub proof fn each_listed_session_has_its_row(sessions: Seq<SessionView>, i: int)
    requires
        0 <= i < sessions.len(),
    ensures
        cli::list_words(sessions) == cli::session_rows(sessions.take(i)) + cli::session_row(
            sessions[i],
        ) + cli::session_rows(sessions.skip(i + 1)),
{
    let one = seq![sessions[i]];
    assert(sessions =~= sessions.take(i) + one + sessions.skip(i + 1));
    lists_are_printed_row_by_row(sessions.take(i), one, sessions[i]);
    lists_are_printed_row_by_row(sessions.take(i) + one, sessions.skip(i + 1), sessions[i]);
}

/// A command line is printed word by word with a space between two words. A
/// word with a space in it is quoted, any other is printed as it is.
pub proof fn command_lines_are_printed_word_by_word(
    first: Seq<Seq<char>>,
    second: Seq<Seq<char>>,
    word: Seq<char>,
)
    ensures
        cli::command_words(Seq::empty()) == Seq::<char>::empty(),
        word.contains(' ') ==> cli::command_words(seq![word]) == outside::quoted_text_of(word),
        !word.contains(' ') ==> cli::command_words(seq![word]) == word,
        first.len() > 0 && second.len() > 0 ==> cli::command_words(first + second)
            == cli::command_words(first) + " "@ + cli::command_words(second),
    decreases second.len(),
{
    if first.len() > 0 && second.len() > 0 {
        let whole = first + second;
        assert(whole.drop_last() =~= first + second.drop_last());
        assert(whole.last() == second.last());
        if second.len() == 1 {
            assert(whole.drop_last() =~= first);
        } else {
            command_lines_are_printed_word_by_word(first, second.drop_last(), word);
        }
        assert(cli::command_words(whole) =~= cli::command_words(first) + " "@
            + cli::command_words(second));
    }
}

/// The details of a session are one line for each of its sixteen parts, with
/// the name of the part before it.
pub proof fn details_hold_every_part(s: SessionView, created_at: Seq<char>)
    ensures
        cli::detail_words(s, created_at) == "name"@ + ": "@ + s.current_name + "\n"@ + (
        "started_name"@ + ": "@ + s.started_name + "\n"@) + ("hash"@ + ": "@ + s.id_hash + "\n"@)
            + ("status"@ + ": "@ + cli::status_word(s.status) + "\n"@) + ("created_at"@ + ": "@
            + created_at + "\n"@) + ("cwd"@ + ": "@ + s.cwd + "\n"@) + ("command"@ + ": "@
            + cli::command_words(s.command) + "\n"@) + ("log_dir"@ + ": "@ + s.started_log_dir
            + "\n"@) + ("log_path"@ + ": "@ + s.log_path + "\n"@) + ("meta_path"@ + ": "@
            + s.meta_path + "\n"@) + ("events_path"@ + ": "@ + s.events_path + "\n"@) + (
        "child_pid"@ + ": "@ + text::optional_pid(s.child_pid) + "\n"@) + ("service_pid"@ + ": "@
            + text::optional_pid(s.service_pid) + "\n"@) + ("exit_code"@ + ": "@
            + text::optional_code(s.exit_code) + "\n"@) + ("failure_reason"@ + ": "@
            + cli::reason_words(s.failure_reason) + "\n"@) + ("detach_key"@ + ": "@ + s.detach_key
            + "\n"@),
{
}

/// A reason is printed in quotation marks, and the lack of one as such.
pub proof fn reasons_are_quoted(reason: Seq<char>)
    ensures
        cli::reason_words(Some(reason)) == "Some("@ + outside::quoted_text_of(reason) + ")"@,
        cli::reason_words(None) == "None"@,
{
}

/// A session is referred to by its name and, in brackets, its hash.
pub proof fn references_hold_name_and_hash(s: SessionView)
    ensures
        s.short_ref() == s.current_name + " ("@ + s.id_hash + ")"@,
{
}

/// The status bar shows the session, the detach key, each grant and the network mode.
pub proof fn status_bars_show_session_key_and_sandbox(s: SessionView, detach_key: Seq<char>)
    ensures
        ui::status_words(s, detach_key) == "tmuy "@ + s.current_name + " ("@ + s.id_hash + ")"@
            + " | detach "@ + detach_key + " | sandbox "@ + "fs:"@ + ui::grant_list(s.sandbox.fs)
            + " net:"@ + (if s.sandbox.net == NetworkMode::On {
            "on"@
        } else {
            "off"@
        }),
{
    let net = if s.sandbox.net == NetworkMode::On {
        "on"@
    } else {
        "off"@
    };
    assert(ui::status_words(s, detach_key) =~= "tmuy "@ + s.current_name + " ("@ + s.id_hash + ")"@
        + " | detach "@ + detach_key + " | sandbox "@ + "fs:"@ + ui::grant_list(s.sandbox.fs)
        + " net:"@ + net);
}

/// Grants are shown one by one with a comma between two: `full`, or `ro:` or
/// `rw:` and the place.
pub proof fn grants_are_shown_one_by_one(
    first: Seq<GrantView>,
    second: Seq<GrantView>,
    place: Seq<char>,
)
    ensures
        ui::grant_list(Seq::empty()) == Seq::<char>::empty(),
        ui::grant_list(seq![GrantView::Full]) == "full"@,
        ui::grant_list(seq![GrantView::ReadOnly(place)]) == "ro:"@ + place,
        ui::grant_list(seq![GrantView::ReadWrite(place)]) == "rw:"@ + place,
        first.len() > 0 && second.len() > 0 ==> ui::grant_list(first + second) == ui::grant_list(
            first,
        ) + ","@ + ui::grant_list(second),
    decreases second.len(),
{
    if first.len() > 0 && second.len() > 0 {
        let whole = first + second;
        assert(whole.drop_last() =~= first + second.drop_last());
        assert(whole.last() == second.last());
        if second.len() == 1 {
            assert(whole.drop_last() =~= first);
        } else {
            grants_are_shown_one_by_one(first, second.drop_last(), place);
        }
        assert(ui::grant_list(whole) =~= ui::grant_list(first) + ","@ + ui::grant_list(second));
    }
}

/// A sandbox is shown by its grants and its network mode.
pub proof fn sandboxes_are_shown_by_grants_and_network(sandbox: SandboxView)
    ensures
        ui::sandbox_words(sandbox) == "fs:"@ + ui::grant_list(sandbox.fs) + " net:"@ + (
        if sandbox.net == NetworkMode::On {
            "on"@
        } else {
            "off"@
        }),
{
}

/// A sandbox that is refused is named by each of its grants, with commas
/// between them, and its network mode.
pub proof fn refused_sandboxes_are_named_whole(
    first: Seq<GrantView>,
    second: Seq<GrantView>,
    place: Seq<char>,
    sandbox: SandboxView,
)
    ensures
        server::refused_grants(Seq::empty()) == Seq::<char>::empty(),
        server::refused_grants(seq![GrantView::Full]) == "Full"@,
        server::refused_grants(seq![GrantView::ReadOnly(place)]) == "ReadOnly("@
            + outside::quoted_text_of(place) + ")"@,
        server::refused_grants(seq![GrantView::ReadWrite(place)]) == "ReadWrite("@
            + outside::quoted_text_of(place) + ")"@,
        first.len() > 0 && second.len() > 0 ==> server::refused_grants(first + second)
            == server::refused_grants(first) + ", "@ + server::refused_grants(second),
        server::refused_sandbox(sandbox) == "SandboxSpec { fs: ["@ + server::refused_grants(
            sandbox.fs,
        ) + "], net: "@ + (if sandbox.net == NetworkMode::On {
            "On"@
        } else {
            "Off"@
        }) + " }"@,
    decreases second.len(),
{
    if first.len() > 0 && second.len() > 0 {
        let whole = first + second;
        assert(whole.drop_last() =~= first + second.drop_last());
        assert(whole.last() == second.last());
        if second.len() == 1 {
            assert(whole.drop_last() =~= first);
        } else {
            refused_sandboxes_are_named_whole(first, second.drop_last(), place, sandbox);
        }
        assert(server::refused_grants(whole) =~= server::refused_grants(first) + ", "@
            + server::refused_grants(second));
    }
}

} // verus!
