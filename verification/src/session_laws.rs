//! What a check sends, hears and reports, event by event; and what a run reports of its tests.
use vstd::prelude::*;

use crate::ast::{FnDecl, Program};
use crate::bindings::{law_bind, law_unbind, value_of};
use crate::daemon::{diagnostic_of, header_of, DiagV, InV, OutV, MAX_OPEN_DOCS};
use crate::eval_laws::law_functions_are_found_by_name;
use crate::gates::program_gate;
use crate::json::{json_print, json_text, member, JsonV};
use crate::lines::{position_of, starts_of};
use crate::machine::{new_machine, CodeV, MachV, FUEL};
use crate::program::ProgramV;
use crate::run::{
    code_of, failed_reports, is_test, located, observed, planned_reports, planned_run, test_report,
    test_reports, ReportV,
};
use crate::scan::{trimmed, trimmed_end, word_of};
use crate::semantics::{call, fn_at};
use crate::serve::{settled, SettledV};
use crate::session::{
    begun, countable, doc_at, finished, found, messages_of, stepped, turned, waiting, ActionV,
    CheckV, EventV, SessionV, TurnV,
};
use crate::text::{byte_len, nat_text};
use crate::value::{TrapV, ValV};
use crate::wire::{
    error_tree, framed, header_step, length_line, message_of, reply_of, request_of, request_of_line,
    HeaderStepV, MessageV, RequestV,
};

verus! {

// ------------------------------------------------------------------------------------------
// What a check sends
// ------------------------------------------------------------------------------------------

/// A check sends its whole text under a version that was not used before, and last of all asks for
/// the answer to that version, under a number that was not used before; it waits for that number.
pub proof fn law_checks_ask_for_their_own_version(s: SessionV, uri: Seq<char>, text: Seq<char>)
    requires
        s.next_id < i64::MAX,
        s.next_version < i64::MAX,
    ensures
        ({
            let (after, out) = begun(s, uri, text);
            let version = (s.next_version + 1) as i64;
            let id = (s.next_id + 1) as i64;
            &&& out.len() >= 2
            &&& out.last() == (OutV::Wait { id, uri, version })
            &&& out[out.len() - 2] == (OutV::Open { uri, version, text }) || out[out.len() - 2] == (
            OutV::Change { uri, version, text })
            &&& after.next_id == s.next_id + 1
            &&& after.next_version == s.next_version + 1
            &&& waiting(s, uri).wait_id == id
            &&& waiting(s, uri).uri == uri
        }),
{
}

/// A check begins with nothing heard: no diagnostics, no failure, no end, no cancellation.
pub proof fn law_checks_begin_with_nothing_heard(s: SessionV, uri: Seq<char>)
    ensures
        waiting(s, uri).diagnostics is None,
        !waiting(s, uri).wait_failed,
        !waiting(s, uri).progress_done,
        !waiting(s, uri).canceled,
{
}

/// A document with the very same text keeps what was published of it; one whose text changed loses
/// it. What was published of every other document that stays open is kept.
pub proof fn law_unchanged_texts_keep_their_diagnostics(
    s: SessionV,
    uri: Seq<char>,
    text: Seq<char>,
    other: Seq<char>,
)
    requires
        s.wf(),
        doc_at(s.docs, uri, 0) is Some,
    ensures
        ({
            let old_text = s.docs[doc_at(s.docs, uri, 0)->Some_0 as int].text;
            let old_header = s.docs[doc_at(s.docs, uri, 0)->Some_0 as int].header;
            let after = begun(s, uri, text).0;
            &&& old_text == text && old_header == header_of(text) ==> after.diags == s.diags
            &&& old_text != text ==> value_of(after.diags, uri) is None
            &&& other != uri ==> value_of(after.diags, other) == value_of(s.diags, other)
        }),
{
    law_unbind(s.diags, uri, uri);
    law_unbind(s.diags, uri, other);
}

/// Only a document that was open and is another one's is closed to make room, and only where there is
/// none: the one that was used least recently.
pub proof fn law_room_is_made_only_when_needed(s: SessionV, uri: Seq<char>, text: Seq<char>, i: int)
    requires
        doc_at(s.docs, uri, 0) is None,
        0 <= i < begun(s, uri, text).1.len(),
    ensures
        begun(s, uri, text).1[i] matches OutV::Close { uri: closed } ==> s.docs.len()
            >= MAX_OPEN_DOCS && closed == s.docs[0].uri,
        s.docs.len() < MAX_OPEN_DOCS ==> begun(s, uri, text).0.docs.len() == s.docs.len() + 1,
        s.docs.len() >= MAX_OPEN_DOCS ==> begun(s, uri, text).0.docs.len() == s.docs.len(),
{
}

// ------------------------------------------------------------------------------------------
// What a check hears
// ------------------------------------------------------------------------------------------

/// The answer ends a check that is not canceled; an answer that is an error ends it only once the
/// processing has ended. The diagnostics that were published last are those of the check; a request
/// of the server's is answered; and nothing else changes a check.
pub proof fn law_checks_follow_their_events(c: CheckV, p: Option<Seq<DiagV>>, body: Seq<char>)
    requires
        !c.canceled,
    ensures
        stepped(c, EventV::Message(InV::Answer { failed: false })).1 == ActionV::Finish,
        stepped(c, EventV::Message(InV::Answer { failed: true })).0 == (CheckV {
            wait_failed: true,
            ..c
        }),
        stepped(c, EventV::Message(InV::Answer { failed: true })).1 == (if c.progress_done {
            ActionV::Finish
        } else {
            ActionV::Wait
        }),
        stepped(c, EventV::Message(InV::Diagnostics(p))).0 == (CheckV { diagnostics: Some(p), ..c }),
        stepped(c, EventV::Message(InV::Progress { finished: true })).0.progress_done,
        !stepped(c, EventV::Message(InV::Progress { finished: false })).0.progress_done,
        !c.wait_failed ==> stepped(c, EventV::Message(InV::Progress { finished: true })).1
            == ActionV::Wait,
        !c.wait_failed ==> stepped(c, EventV::Message(InV::Diagnostics(p))).1 == ActionV::Wait,
        stepped(c, EventV::Message(InV::Request(body))) == (c, ActionV::Send(body)),
        stepped(c, EventV::Message(InV::Other)) == (c, ActionV::Wait),
{
}

/// A client that goes cancels its check, once; one that stays does not. Time that runs out and a
/// broken server fail the check, each with its own reason.
pub proof fn law_checks_are_canceled_by_their_client(c: CheckV, error: Seq<char>)
    ensures
        !c.canceled ==> stepped(c, EventV::Silence { disconnected: true }) == (
            CheckV { canceled: true, ..c },
            ActionV::Cancel,
        ),
        stepped(c, EventV::Silence { disconnected: false }) == (c, ActionV::Wait),
        c.canceled ==> stepped(c, EventV::Silence { disconnected: true }) == (c, ActionV::Wait),
        stepped(c, EventV::Expired).1 == ActionV::Fail("canceled: client disconnected"@),
        stepped(c, EventV::Broken(error)).1 == ActionV::Fail(error),
        c.canceled ==> stepped(c, EventV::Message(InV::Answer { failed: false })).1
            == ActionV::Fail("canceled: client disconnected"@),
{
}

/// A turn that ends a check well reports the diagnostics that the check heard, or those known of its
/// unchanged document; one that fails it drops the document and closes it, unless a cancellation
/// closed it before.
pub proof fn law_turns_end_as_their_check_does(s: SessionV, c: CheckV, e: EventV)
    ensures
        turned(s, c, e).1 matches TurnV::Done(messages) ==> {
            let after = stepped(c, e).0;
            &&& stepped(c, e).1 == ActionV::Finish
            &&& after.diagnostics matches Some(p) ==> messages == messages_of(p) && value_of(
                turned(s, c, e).0.diags,
                c.uri,
            ) == Some(p)
            &&& after.diagnostics is None ==> turned(s, c, e).0 == s && (value_of(
                s.diags,
                c.uri,
            ) matches Some(p) ==> messages == messages_of(p))
            &&& after.diagnostics is None && value_of(s.diags, c.uri) is None ==> messages.len() == 0
        },
        turned(s, c, e).1 matches TurnV::Failed(error, close) ==> {
            &&& stepped(c, e).1 == ActionV::Fail(error)
            &&& close is None <==> c.canceled
            &&& close matches Some(o) ==> o == (OutV::Close { uri: c.uri })
        },
        turned(s, c, e).1 matches TurnV::Cancel(after, close) ==> close == (OutV::Close {
            uri: c.uri,
        }) && after.canceled && turned(s, c, e).0 == s,
        stepped(c, e).1 == ActionV::Finish && countable(found(s, stepped(c, e).0)) ==> turned(
            s,
            c,
            e,
        ).1 is Done,
{
    let after = stepped(c, e).0;
    assert(after.uri == c.uri);
    match after.diagnostics {
        Some(p) => {
            law_bind(s.diags, c.uri, p, c.uri);
            assert(value_of(finished(s, after).diags, c.uri) == Some(p));
        },
        None => {},
    }
}

/// Each diagnostic is one message, in order, on the line counted from one, with its text; a missing
/// severity and the first are errors, and then come warnings, information and hints.
pub proof fn law_messages_report_every_diagnostic(items: Seq<DiagV>, i: int)
    requires
        0 <= i < items.len(),
        items[i].line < usize::MAX,
    ensures
        messages_of(Some(items)).len() == items.len(),
        messages_of(Some(items))[i].data == items[i].message,
        messages_of(Some(items))[i].line == items[i].line + 1,
        items[i].severity is None ==> messages_of(Some(items))[i].severity == "error"@,
        items[i].severity == Some(1u64) ==> messages_of(Some(items))[i].severity == "error"@,
        items[i].severity == Some(2u64) ==> messages_of(Some(items))[i].severity == "warning"@,
        items[i].severity == Some(3u64) ==> messages_of(Some(items))[i].severity == "information"@,
        items[i].severity == Some(4u64) ==> messages_of(Some(items))[i].severity == "hint"@,
        messages_of(None).len() == 0,
{
}

/// The outcome of a check is answered: messages with `ok`, and an error without it, which asks for a
/// new server.
pub proof fn law_outcomes_are_answered(messages: Seq<MessageV>, error: Seq<char>)
    ensures
        settled(Ok(messages)) is Validate,
        settled(Err(error)) == SettledV::Restart(json_print(error_tree(error))),
        member(error_tree(error), "ok"@) == Some(JsonV::Bool(false)),
        member(error_tree(error), "error"@) == Some(JsonV::Str(error)),
{
    reveal_strlit("ok");
    reveal_strlit("error");
    assert("ok"@.len() == 2 && "error"@.len() == 5);
}

// ------------------------------------------------------------------------------------------
// The wire
// ------------------------------------------------------------------------------------------

/// A request needs its file, its fingerprint and its text, each as a text, and is exactly these; the
/// first that is missing is named.
pub proof fn law_requests_need_all_three(tree: JsonV)
    ensures
        request_of(tree) is Ok <==> {
            &&& member(tree, "file"@) matches Some(JsonV::Str(_))
            &&& member(tree, "fingerprint"@) matches Some(JsonV::Str(_))
            &&& member(tree, "text"@) matches Some(JsonV::Str(_))
        },
        request_of(tree) matches Ok(r) ==> {
            &&& member(tree, "file"@) == Some(JsonV::Str(r.file))
            &&& member(tree, "fingerprint"@) == Some(JsonV::Str(r.fingerprint))
            &&& member(tree, "text"@) == Some(JsonV::Str(r.text))
        },
        !(member(tree, "file"@) matches Some(JsonV::Str(_))) ==> request_of(tree) == Err::<
            RequestV,
            Seq<char>,
        >("request missing \"file\""@),
{
}

/// A line that is no tree is no request.
pub proof fn law_malformed_lines_are_refused(line: Seq<char>)
    ensures
        json_text(trimmed(line)) is None ==> request_of_line(line) is Err,
        json_text(trimmed(line)) matches Some(tree) ==> request_of_line(line) == request_of(tree),
{
}

/// The header of a message ends at a blank line, and only there; the last length that it stated is
/// the length of the body. Without one, and where the stream ends, the message fails. Any other line
/// changes nothing.
pub proof fn law_headers_end_at_a_blank_line(length: Option<usize>, line: Seq<char>)
    ensures
        line.len() == 0 ==> header_step(length, line).1 is Failed,
        line.len() > 0 && trimmed_end(line).len() == 0 ==> header_step(length, line).0 == length && (
        length matches Some(n) ==> header_step(length, line).1 == HeaderStepV::Body(n)) && (length
            is None ==> header_step(length, line).1 is Failed),
        line.len() > 0 && trimmed_end(line).len() > 0 ==> header_step(length, line).1
            == HeaderStepV::More,
        line.len() > 0 && "Content-Length:"@.is_prefix_of(trimmed_end(line)) ==> header_step(
            length,
            line,
        ).0 == word_of(trimmed(trimmed_end(line).skip("Content-Length:"@.len() as int))),
        line.len() > 0 && !"Content-Length:"@.is_prefix_of(trimmed_end(line))
            && !"content-length:"@.is_prefix_of(trimmed_end(line)) ==> header_step(length, line).0
            == length,
{
    reveal_strlit("Content-Length:");
    assert("Content-Length:"@.len() == 15);
}

// ------------------------------------------------------------------------------------------
// Tests
// ------------------------------------------------------------------------------------------

/// A function is a test exactly where its name starts with `test_`.
pub proof fn law_tests_are_named(name: Seq<char>)
    ensures
        is_test(name) <==> exists|rest: Seq<char>| name == #[trigger] ("test_"@ + rest),
{
    if is_test(name) {
        assert(name =~= "test_"@ + name.skip("test_"@.len() as int));
    }
    if exists|rest: Seq<char>| name == #[trigger] ("test_"@ + rest) {
        let rest = choose|rest: Seq<char>| name == #[trigger] ("test_"@ + rest);
        assert("test_"@.is_prefix_of("test_"@ + rest));
    }
}

/// A test passes exactly where its call, without arguments and on a machine of its own, does not
/// trap. A failure is the message of the trap and the place that it happened at; the clauses that
/// could not be decided are reported with it.
pub proof fn law_tests_pass_without_a_trap(c: CodeV, test: FnDecl, file: Seq<char>)
    ensures
        ({
            let ran = call(c, test, Seq::empty(), new_machine(FUEL));
            let told = test_report(c, test, file);
            &&& told.name == test.name@
            &&& told.outcome is Ok <==> ran.0 is Ok
            &&& ran.0 matches Err(t) ==> told.outcome == Err::<(), Seq<char>>(
                located(t, file, c.source),
            )
            &&& told.skipped == ran.1.skipped
        }),
{
}

proof fn lemma_reports(c: CodeV, file: Seq<char>, n: nat)
    requires
        n <= c.fns.len(),
    ensures
        test_reports(c, file, n) == c.fns.take(n as int).filter(
            |g: FnDecl| is_test(g.name@),
        ).map_values(|g: FnDecl| test_report(c, g, file)),
    decreases n,
{
    let keep = |g: FnDecl| is_test(g.name@);
    let tell = |g: FnDecl| test_report(c, g, file);
    reveal(Seq::filter);
    if n == 0 {
        assert(c.fns.take(0) =~= Seq::<FnDecl>::empty());
        assert(Seq::<FnDecl>::empty().map_values(tell) =~= Seq::<ReportV>::empty());
    } else {
        lemma_reports(c, file, (n - 1) as nat);
        assert(c.fns.take(n as int).drop_last() =~= c.fns.take(n - 1));
        assert(c.fns.take(n as int).last() == c.fns[n - 1]);
        let front = c.fns.take(n - 1).filter(keep);
        if is_test(c.fns[n - 1].name@) {
            assert(front.push(c.fns[n - 1]).map_values(tell) =~= front.map_values(tell).push(
                test_report(c, c.fns[n - 1], file),
            ));
        }
    }
}

/// A program that the interpreter takes reports every test, each with its own outcome, in the order
/// of the functions; and no function that is no test.
pub proof fn law_reports_are_those_of_the_tests(
    p: Program,
    file: Seq<char>,
    source: Seq<char>,
    control: ProgramV,
)
    requires
        program_gate(p) is Ok,
    ensures
        planned_reports(p, file, source, control) == p.fns@.filter(
            |g: FnDecl| is_test(g.name@),
        ).map_values(|g: FnDecl| test_report(code_of(p, source, control), g, file)),
{
    let c = code_of(p, source, control);
    assert(c.fns == p.fns@);
    lemma_reports(c, file, p.fns@.len());
    assert(p.fns@.take(p.fns@.len() as int) =~= p.fns@);
}

proof fn lemma_all_failed(fns: Seq<FnDecl>, reason: Seq<char>, n: nat, i: int)
    requires
        0 <= i < failed_reports(fns, reason, n).len(),
    ensures
        failed_reports(fns, reason, n)[i].outcome == Err::<(), Seq<char>>(reason),
    decreases n,
{
    if n > 0 && n <= fns.len() {
        let front = failed_reports(fns, reason, (n - 1) as nat);
        if i < front.len() {
            lemma_all_failed(fns, reason, (n - 1) as nat, i);
        }
    }
}

/// A program that the interpreter does not take passes no test: each fails with the refusal.
pub proof fn law_refused_programs_pass_no_test(
    p: Program,
    file: Seq<char>,
    source: Seq<char>,
    control: ProgramV,
    i: int,
)
    requires
        program_gate(p) is Err,
        0 <= i < planned_reports(p, file, source, control).len(),
    ensures
        planned_reports(p, file, source, control)[i].outcome == Err::<(), Seq<char>>(
            program_gate(p)->Err_0,
        ),
{
    lemma_all_failed(p.fns@, program_gate(p)->Err_0, p.fns@.len(), i);
}

/// A run shows what its call gave: the value, or the message of the trap, marked where the behavior
/// was undefined; every access to the transmitter; and the heap as it was left.
pub proof fn law_runs_show_what_happened(r: Result<ValV, TrapV>, m: MachV)
    ensures
        r matches Ok(v) ==> observed(r, m).outcome == Ok::<ValV, Seq<char>>(v),
        r matches Err(t) ==> observed(r, m).outcome == Err::<ValV, Seq<char>>(
            if t.undef {
                "undef: "@ + t.message
            } else {
                t.message
            },
        ),
        m.uart matches Some(u) ==> observed(r, m).mmio == u.events && observed(r, m).uart_profile
            == Some(u.script) && observed(r, m).uart_cursor == u.cursor,
        m.uart is None ==> observed(r, m).mmio.len() == 0 && observed(r, m).uart_profile is None,
        observed(r, m).heap == m.heap,
{
}

/// A located trap is its message, and behind it the file, the line and the column in brackets.
pub proof fn law_traps_are_located(t: TrapV, file: Seq<char>, source: Seq<char>)
    ensures
        ({
            let (line, col) = position_of(
                starts_of(source),
                t.span.start,
            );
            located(t, file, source) == t.message + " ("@ + file + ":"@ + nat_text(line)
                + ":"@ + nat_text(col as nat) + ")"@
        }),
{
}

/// A run of a program that the interpreter takes calls the last function of the name, without
/// arguments and on a machine of its own; one that it does not take gives the refusal.
pub proof fn law_runs_call_the_named_function(
    p: Program,
    source: Seq<char>,
    name: Seq<char>,
    control: ProgramV,
    i: int,
)
    requires
        0 <= i < p.fns@.len(),
        p.fns@[i].name@ == name,
        forall|k: int| i < k < p.fns@.len() ==> (#[trigger] p.fns@[k]).name@ != name,
    ensures
        program_gate(p) is Ok ==> {
            let ran = call(
                code_of(p, source, control),
                p.fns@[i],
                Seq::empty(),
                new_machine(FUEL),
            );
            planned_run(p, source, name, control) == observed(ran.0, ran.1)
        },
        program_gate(p) matches Err(reason) ==> planned_run(p, source, name, control).outcome == Err::<
            ValV,
            Seq<char>,
        >(reason),
{
    law_functions_are_found_by_name(p.fns@, name, p.fns@.len(), i);
    let k = fn_at(p.fns@, name, p.fns@.len());
    if k is Some && k->Some_0 < i {
        assert(false);
    }
}

/// What a message of a reply, and a diagnostic of the server, leaves out has a default: the severity is
/// an error or not stated, the line is nothing, and the text is empty.
pub proof fn law_missing_members_have_defaults(tree: JsonV)
    ensures
        member(tree, "severity"@) is None ==> message_of(tree).severity == "error"@,
        member(tree, "line"@) is None ==> message_of(tree).line == 0,
        member(tree, "data"@) is None ==> message_of(tree).data == ""@,
        member(tree, "severity"@) matches Some(JsonV::Str(s)) ==> message_of(tree).severity == s,
        member(tree, "data"@) matches Some(JsonV::Str(s)) ==> message_of(tree).data == s,
        member(tree, "line"@) matches Some(JsonV::Int(n)) ==> (0 <= n <= u32::MAX ==> message_of(
            tree,
        ).line == n),
        member(tree, "severity"@) is None ==> diagnostic_of(tree).severity is None,
        member(tree, "range"@) is None ==> diagnostic_of(tree).line == 0,
        member(tree, "message"@) is None ==> diagnostic_of(tree).message == ""@,
{
}

/// A reply brings messages only where it says `ok` and lists them, and then brings every one, in order.
pub proof fn law_replies_bring_every_message(tree: JsonV, i: int)
    ensures
        member(tree, "ok"@) != Some(JsonV::Bool(true)) ==> reply_of(tree) is None,
        !(member(tree, "messages"@) matches Some(JsonV::Arr(_))) ==> reply_of(tree) is None,
        member(tree, "ok"@) == Some(JsonV::Bool(true)) ==> (member(
            tree,
            "messages"@,
        ) matches Some(JsonV::Arr(items)) ==> (reply_of(tree) matches Some(told) && told.len()
            == items.len() && (0 <= i < items.len() ==> told[i] == message_of(items[i])))),
{
}

/// A frame is the line with the length of its body in bytes, a blank line, and the whole body.
pub proof fn law_frames_hold_their_body(body: Seq<char>)
    ensures
        framed(body) == length_line(byte_len(body)) + "\r\n"@ + body,
        length_line(byte_len(body)) == "Content-Length: "@ + nat_text(byte_len(body)) + "\r\n"@,
{
    reveal_strlit("\r\n");
    reveal_strlit("\r\n\r\n");
    assert("\r\n\r\n"@ =~= "\r\n"@ + "\r\n"@);
    assert(framed(body) =~= length_line(byte_len(body)) + "\r\n"@ + body);
}

} // verus!
