//! What the findings about a checkout say of the probes behind them.
use vstd::prelude::*;

use crate::doctor::{
    below, clang_search, clang_step, findings, first_solid_line, has_space, last_mark,
    law_clang_is_never_an_error, lean_checked, lean_finding, lean_version, pinned_version,
    reported_version, version_end, version_line, CheckStatus, ClangStepV, OutcomeV, ProbesV,
};
use crate::scan::{is_space, lines_from, trimmed};
use crate::text_laws::{blank, law_head_is_cut, law_trimmed_text_is_solid_at_both_ends};

verus! {

// ------------------------------------------------------------------------------------------
// Versions
// ------------------------------------------------------------------------------------------

/// A line that can be a version: not blank, and not a warning.
pub open spec fn usable(line: Seq<char>) -> bool {
    !blank(line) && !"warning:"@.is_prefix_of(line)
}

/// All lines that a command printed: first the output, then the errors.
pub open spec fn printed(stdout: Seq<char>, stderr: Seq<char>) -> Seq<Seq<char>> {
    lines_from(stdout, 0) + lines_from(stderr, 0)
}

/// The line at `i` is the first that can be a version.
pub open spec fn first_usable(lines: Seq<Seq<char>>, i: int) -> bool {
    &&& 0 <= i < lines.len()
    &&& usable(lines[i])
    &&& forall|k: int| 0 <= k < i ==> !usable(#[trigger] lines[k])
}

/// The command ended well and `v` is the first line that can be a version, without the white space
/// around it.
pub open spec fn gives(o: OutcomeV, v: Seq<char>) -> bool {
    o matches OutcomeV::Exited { success, stdout, stderr, .. } && success && exists|i: int|
        #[trigger] first_usable(printed(stdout, stderr), i) && v == trimmed(
            printed(stdout, stderr)[i],
        )
}

proof fn lemma_version_line(lines: Seq<Seq<char>>, i: nat)
    requires
        i <= lines.len(),
        forall|k: int| 0 <= k < i ==> !usable(#[trigger] lines[k]),
    ensures
        version_line(lines, i) matches Some(line) ==> exists|k: int|
            #[trigger] first_usable(lines, k) && lines[k] == line,
        version_line(lines, i) is None ==> forall|k: int|
            0 <= k < lines.len() ==> !usable(#[trigger] lines[k]),
    decreases lines.len() - i,
{
    if i < lines.len() {
        law_trimmed_text_is_solid_at_both_ends(lines[i as int]);
        if usable(lines[i as int]) {
            assert(first_usable(lines, i as int));
        } else {
            lemma_version_line(lines, i + 1);
        }
    }
}

proof fn lemma_one_first(lines: Seq<Seq<char>>, i: int, k: int)
    requires
        first_usable(lines, i),
        first_usable(lines, k),
    ensures
        i == k,
{
    if i < k {
        assert(!usable(lines[i]));
    }
    if k < i {
        assert(!usable(lines[k]));
    }
}

/// A command reports a version exactly where it ended well and printed a line that is neither blank
/// nor a warning; the version is the first such line.
pub proof fn law_version_is_the_first_usable_line(program: Seq<char>, o: OutcomeV, v: Seq<char>)
    ensures
        reported_version(program, o) == Ok::<Seq<char>, Seq<char>>(v) <==> gives(o, v),
        reported_version(program, o) is Ok <==> exists|u: Seq<char>| #[trigger] gives(o, u),
{
    match o {
        OutcomeV::NotRun(_) => {},
        OutcomeV::Exited { success, status, stdout, stderr } => {
            let lines = printed(stdout, stderr);
            lemma_version_line(lines, 0);
            if success && version_line(lines, 0) is Some {
                let line = version_line(lines, 0)->Some_0;
                let k = choose|k: int| #[trigger] first_usable(lines, k) && lines[k] == line;
                assert(gives(o, trimmed(line)));
                assert forall|u: Seq<char>| #[trigger] gives(o, u) implies u == trimmed(line) by {
                    let i = choose|i: int|
                        #[trigger] first_usable(lines, i) && u == trimmed(lines[i]);
                    lemma_one_first(lines, i, k);
                }
            } else if success {
                assert forall|u: Seq<char>| !#[trigger] gives(o, u) by {
                    if gives(o, u) {
                        let i = choose|i: int|
                            #[trigger] first_usable(lines, i) && u == trimmed(lines[i]);
                        assert(!usable(lines[i]));
                    }
                }
            }
        },
    }
}

/// A version is one run of text with no white space around it, and never empty.
pub proof fn law_versions_are_solid(program: Seq<char>, o: OutcomeV)
    ensures
        reported_version(program, o) matches Ok(v) ==> v.len() > 0 && !is_space(v.first())
            && !is_space(v.last()),
{
    if reported_version(program, o) is Ok {
        let v = reported_version(program, o)->Ok_0;
        law_version_is_the_first_usable_line(program, o, v);
        match o {
            OutcomeV::Exited { stdout, stderr, .. } => {
                let lines = printed(stdout, stderr);
                let i = choose|i: int| #[trigger] first_usable(lines, i) && v == trimmed(lines[i]);
                law_trimmed_text_is_solid_at_both_ends(lines[i]);
            },
            _ => {},
        }
    }
}

proof fn lemma_solid_line(lines: Seq<Seq<char>>, i: nat, k: nat)
    requires
        i <= k <= lines.len(),
        forall|j: int| i <= j < k ==> blank(#[trigger] lines[j]),
        k < lines.len() ==> !blank(lines[k as int]),
    ensures
        k < lines.len() ==> first_solid_line(lines, i) == Some(lines[k as int]),
        k == lines.len() ==> first_solid_line(lines, i) is None,
    decreases k - i,
{
    if i < lines.len() {
        law_trimmed_text_is_solid_at_both_ends(lines[i as int]);
        if i < k {
            lemma_solid_line(lines, i + 1, k);
        }
    }
}

/// A command that gives no version is named, with the reason: the error of running it; the first
/// line of its errors that is not blank; the way it ended, where all are blank; or that it printed
/// none.
pub proof fn law_failures_name_the_command(program: Seq<char>, o: OutcomeV, k: nat)
    ensures
        o matches OutcomeV::NotRun(error) ==> reported_version(program, o) == Err::<
            Seq<char>,
            Seq<char>,
        >("cannot run `"@ + program + "`: "@ + error),
        o matches OutcomeV::Exited { success, status, stdout, stderr } ==> {
            let lines = lines_from(stderr, 0);
            &&& !success && k < lines.len() && !blank(lines[k as int]) && (forall|j: int|
                0 <= j < k ==> blank(#[trigger] lines[j])) ==> reported_version(program, o) == Err::<
                Seq<char>,
                Seq<char>,
            >("`"@ + program + "` failed: "@ + lines[k as int])
            &&& !success && (forall|j: int| 0 <= j < lines.len() ==> blank(#[trigger] lines[j]))
                ==> reported_version(program, o) == Err::<Seq<char>, Seq<char>>(
                "`"@ + program + "` exited with "@ + status,
            )
            &&& success && (forall|j: int|
                0 <= j < printed(stdout, stderr).len() ==> !usable(
                    #[trigger] printed(stdout, stderr)[j],
                )) ==> reported_version(program, o) == Err::<Seq<char>, Seq<char>>(
                "`"@ + program + "` printed no version"@,
            )
        },
{
    match o {
        OutcomeV::NotRun(_) => {},
        OutcomeV::Exited { success, status, stdout, stderr } => {
            let lines = lines_from(stderr, 0);
            if !success && k < lines.len() && !blank(lines[k as int]) && (forall|j: int|
                0 <= j < k ==> blank(#[trigger] lines[j])) {
                lemma_solid_line(lines, 0, k);
            }
            if !success && (forall|j: int| 0 <= j < lines.len() ==> blank(#[trigger] lines[j])) {
                lemma_solid_line(lines, 0, lines.len());
            }
            if success {
                lemma_version_line(printed(stdout, stderr), 0);
            }
        },
    }
}

// ------------------------------------------------------------------------------------------
// Lean
// ------------------------------------------------------------------------------------------

/// `:v` stands at `i`.
pub open spec fn mark_at(s: Seq<char>, i: int) -> bool {
    0 <= i && i + 1 < s.len() && s[i] == ':' && s[i + 1] == 'v'
}

proof fn lemma_last_mark(s: Seq<char>, n: nat)
    requires
        n < s.len(),
    ensures
        last_mark(s, n) matches Some(i) ==> i < n && mark_at(s, i as int) && forall|k: int|
            i < k < n ==> !#[trigger] mark_at(s, k),
        last_mark(s, n) is None ==> forall|k: int| 0 <= k < n ==> !#[trigger] mark_at(s, k),
    decreases n,
{
    if n > 0 && !(s[n - 1] == ':' && s[n as int] == 'v') {
        lemma_last_mark(s, (n - 1) as nat);
    }
}

/// The parts of a pin: anything, the mark `:v`, and the version in one word, in which no second mark
/// stands.
pub open spec fn pin_of(head: Seq<char>, version: Seq<char>, pin: Seq<char>) -> bool {
    &&& pin == head + seq![':', 'v'] + version
    &&& version.len() > 0
    &&& forall|i: int| 0 <= i < version.len() ==> !is_space(#[trigger] version[i])
    &&& forall|i: int| !#[trigger] mark_at(version, i)
}

/// A pin asks for the version behind its last `:v`, and for none where nothing or more than a word
/// stands there.
pub proof fn law_pins_ask_for_what_follows_the_last_mark(
    pin: Seq<char>,
    head: Seq<char>,
    version: Seq<char>,
)
    ensures
        pin_of(head, version, pin) ==> pinned_version(pin) == Some(version),
        pinned_version(pin) matches Some(v) ==> exists|h: Seq<char>| #[trigger] pin_of(h, v, pin),
{
    if pin.len() > 0 {
        let n = (pin.len() - 1) as nat;
        lemma_last_mark(pin, n);
        if pin_of(head, version, pin) {
            let at = head.len() as int;
            assert(pin[at] == ':' && pin[at + 1] == 'v');
            assert(mark_at(pin, at));
            assert forall|k: int| at < k < n implies !#[trigger] mark_at(pin, k) by {
                if mark_at(pin, k) {
                    assert(k >= at + 2);
                    assert(pin[k] == version[k - at - 2]);
                    assert(pin[k + 1] == version[k - at - 1]);
                    assert(mark_at(version, k - at - 2));
                }
            }
            let i = last_mark(pin, n)->Some_0;
            assert(i == at);
            assert(pin.skip(i as int + 2) =~= version);
            assert(!has_space(version));
        }
        if pinned_version(pin) is Some {
            let v = pinned_version(pin)->Some_0;
            let i = last_mark(pin, n)->Some_0;
            let h = pin.take(i as int);
            assert(pin =~= h + seq![':', 'v'] + v);
            assert forall|k: int| !#[trigger] mark_at(v, k) by {
                if mark_at(v, k) {
                    assert(v[k] == pin[i as int + 2 + k]);
                    assert(v[k + 1] == pin[i as int + 3 + k]);
                    assert(mark_at(pin, i as int + 2 + k));
                }
            }
            assert forall|k: int| 0 <= k < v.len() implies !is_space(#[trigger] v[k]) by {
                assert(!has_space(v));
            }
            assert(pin_of(h, v, pin));
        }
    }
}

/// A comma or a closing bracket.
pub open spec fn closes(c: char) -> bool {
    c == ',' || c == ')'
}

/// The parts of a report: the opening, the version, and either nothing or something that starts with
/// a comma or a closing bracket.
pub open spec fn report_of(version: Seq<char>, rest: Seq<char>, report: Seq<char>) -> bool {
    &&& report == "Lean (version "@ + version + rest
    &&& version.len() > 0
    &&& forall|i: int| 0 <= i < version.len() ==> !closes(#[trigger] version[i])
    &&& rest.len() > 0 ==> closes(rest[0])
}

proof fn lemma_version_end(s: Seq<char>, i: nat)
    requires
        i <= s.len(),
    ensures
        i <= version_end(s, i) <= s.len(),
        forall|k: int| i <= k < version_end(s, i) ==> !closes(#[trigger] s[k]),
        version_end(s, i) < s.len() ==> closes(s[version_end(s, i) as int]),
    decreases s.len() - i,
{
    if i < s.len() && !closes(s[i as int]) {
        lemma_version_end(s, i + 1);
    }
}

/// A report of Lean names the version between its opening and the first comma or closing bracket.
pub proof fn law_reports_name_the_version_up_to_the_comma(
    report: Seq<char>,
    version: Seq<char>,
    rest: Seq<char>,
)
    ensures
        report_of(version, rest, report) ==> lean_version(report) == Some(version),
        lean_version(report) matches Some(v) ==> exists|r: Seq<char>|
            #[trigger] report_of(v, r, report),
{
    let open = "Lean (version "@;
    law_head_is_cut(report, open);
    if report_of(version, rest, report) {
        let body = version + rest;
        assert(report =~= open + body);
        assert(report.skip(open.len() as int) =~= body);
        lemma_version_end(body, 0);
        let e = version_end(body, 0) as int;
        assert forall|k: int| 0 <= k < version.len() implies !closes(#[trigger] body[k]) by {
            assert(body[k] == version[k]);
        }
        if e < version.len() {
            assert(closes(body[e]));
        }
        if e > version.len() {
            assert(body[version.len() as int] == rest[0]);
        }
        assert(body.take(e) =~= version);
    }
    if lean_version(report) is Some {
        let v = lean_version(report)->Some_0;
        let body = report.skip(open.len() as int);
        lemma_version_end(body, 0);
        let e = version_end(body, 0) as int;
        let r = body.skip(e);
        assert(report =~= open + v + r);
        assert(report_of(v, r, report));
    }
}

/// The pinned and the reported Lean are the same, or there is no finding but a failure: only equal
/// versions pass, and the finding then names the pin and the version.
pub proof fn law_lean_passes_exactly_on_equal_versions(
    pin: Seq<char>,
    reported: Result<Seq<char>, Seq<char>>,
)
    ensures
        lean_finding(pin, reported) is Ok <==> pinned_version(pin) is Some && reported is Ok
            && lean_version(reported->Ok_0) == pinned_version(pin),
        lean_finding(pin, reported) matches Ok(detail) ==> detail == pin + " (Lean "@
            + pinned_version(pin)->Some_0 + ")"@,
{
}

// ------------------------------------------------------------------------------------------
// Clang
// ------------------------------------------------------------------------------------------

/// The search for an unconfigured Clang asks the one of Homebrew's LLVM and then the one on the
/// path; the first that answers is the finding, with its own version, and the search stops there.
pub proof fn law_first_clang_that_answers_is_found(answers: Seq<Result<Seq<char>, Seq<char>>>)
    ensures
        answers.len() == 0 ==> clang_step(None, answers) == ClangStepV::Probe(
            "/opt/homebrew/opt/llvm/bin/clang"@,
        ),
        answers.len() > 0 ==> (answers[0] matches Ok(version) ==> (clang_step(
            None,
            answers,
        ) matches ClangStepV::Done(c) && c.status == CheckStatus::Okay && c.detail
            == "/opt/homebrew/opt/llvm/bin/clang"@ + " ("@ + version + ")"@)),
        answers.len() == 1 && answers[0] is Err ==> clang_step(None, answers) == ClangStepV::Probe(
            "clang"@,
        ),
        answers.len() > 1 && answers[0] is Err ==> (answers[1] matches Ok(version) ==> (clang_step(
            None,
            answers,
        ) matches ClangStepV::Done(c) && c.status == CheckStatus::Okay && c.detail == "clang"@
            + " ("@ + version + ")"@)),
        answers.len() > 1 && answers[0] is Err && answers[1] is Err ==> (clang_step(
            None,
            answers,
        ) matches ClangStepV::Done(c) && c.status == CheckStatus::Warning),
{
    reveal_with_fuel(clang_search, 3);
}

/// A configured Clang that answers is found under its own name, with its own version.
pub proof fn law_configured_clang_is_found(
    candidate: Seq<char>,
    answers: Seq<Result<Seq<char>, Seq<char>>>,
)
    ensures
        answers.len() > 0 ==> (answers[0] matches Ok(version) ==> (clang_step(
            Some(candidate),
            answers,
        ) matches ClangStepV::Done(c) && c.status == CheckStatus::Okay && c.detail
            == "SABLE_CLANG="@ + candidate + " ("@ + version + ")"@)),
{
}

// ------------------------------------------------------------------------------------------
// The report
// ------------------------------------------------------------------------------------------

/// A path below a directory is the directory, one slash, and the rest.
pub proof fn law_paths_are_joined_by_one_slash(dir: Seq<char>, rel: Seq<char>)
    ensures
        dir.len() == 0 ==> below(dir, rel) == rel,
        dir.len() > 0 && dir.last() != '/' ==> below(dir, rel) == dir + "/"@ + rel,
        dir.len() > 0 && dir.last() == '/' ==> below(dir, rel) == dir + rel,
{
}

/// The names of the findings, in order.
pub open spec fn finding_names() -> Seq<Seq<char>> {
    seq!["checkout"@, "Cargo"@, "Lake"@, "Lean"@, "prelude"@, "hosted runtime"@, "Clang"@]
}

/// There are seven findings about a checkout, named and in order.
pub proof fn law_findings_come_in_order(start: Seq<char>, p: ProbesV, i: int)
    requires
        p.clang.settled(),
    ensures
        findings(start, Some(p)).repo_root == Some(p.root),
        findings(start, Some(p)).checks.len() == 7,
        0 <= i < 7 ==> findings(start, Some(p)).checks[i].name == finding_names()[i],
        findings(start, Some(p)).checks[0].status == CheckStatus::Okay,
        findings(start, Some(p)).checks[0].detail == p.root,
{
    law_clang_is_never_an_error(p.clang.configured, p.clang.answers());
    let c = findings(start, Some(p)).checks;
    assert(c[0].name == "checkout"@ && c[1].name == "Cargo"@ && c[2].name == "Lake"@);
    assert(c[3].name == "Lean"@ && c[4].name == "prelude"@ && c[5].name == "hosted runtime"@);
    assert(c[6].name == "Clang"@);
}

/// The findings about Cargo and Lake are each of its own command: the finding is good exactly where
/// that command gives a version, and its detail is then that version, whatever the other commands
/// did.
pub proof fn law_commands_are_found_by_their_own_probe(start: Seq<char>, p: ProbesV, v: Seq<char>)
    ensures
        ({
            let cargo = findings(start, Some(p)).checks[1];
            let lake = findings(start, Some(p)).checks[2];
            &&& cargo.status == CheckStatus::Okay && cargo.detail == v <==> gives(p.cargo, v)
            &&& cargo.status != CheckStatus::Okay ==> cargo.status == CheckStatus::Error
            &&& lake.status == CheckStatus::Okay && lake.detail == v <==> gives(p.lake, v)
            &&& lake.status != CheckStatus::Okay ==> lake.status == CheckStatus::Error
        }),
{
    law_version_is_the_first_usable_line("cargo"@, p.cargo, v);
    law_version_is_the_first_usable_line("lake"@, p.lake, v);
}

/// A command that could not be run is reported with its own name and its own error.
pub proof fn law_missing_commands_are_named(start: Seq<char>, p: ProbesV)
    ensures
        p.cargo matches OutcomeV::NotRun(error) ==> findings(start, Some(p)).checks[1].detail
            == "cannot run `"@ + "cargo"@ + "`: "@ + error,
        p.lake matches OutcomeV::NotRun(error) ==> findings(start, Some(p)).checks[2].detail
            == "cannot run `"@ + "lake"@ + "`: "@ + error,
        p.pin matches Err(error) ==> findings(start, Some(p)).checks[3].detail == "cannot read "@
            + below(below(p.root, "lean"@), "lean-toolchain"@) + ": "@ + error,
{
}

/// Each finding depends on its own probe alone: two checkouts that agree on a probe agree on its
/// finding.
pub proof fn law_findings_depend_on_their_own_probe(
    start: Seq<char>,
    p: ProbesV,
    other: Seq<char>,
    q: ProbesV,
)
    ensures
        ({
            let a = findings(start, Some(p)).checks;
            let b = findings(other, Some(q)).checks;
            &&& p.cargo == q.cargo ==> a[1] == b[1]
            &&& p.lake == q.lake ==> a[2] == b[2]
            &&& p.root == q.root && p.pin == q.pin && p.lean == q.lean ==> a[3] == b[3]
            &&& p.prelude == q.prelude <==> a[4] == b[4]
            &&& p.root == q.root && p.runtime == q.runtime ==> a[5] == b[5]
            &&& p.runtime != q.runtime ==> a[5] != b[5]
            &&& p.clang == q.clang ==> a[6] == b[6]
        }),
{
    let a = findings(start, Some(p)).checks;
    let b = findings(other, Some(q)).checks;
    assert(p.prelude != q.prelude ==> a[4].status != b[4].status);
    assert(p.runtime != q.runtime ==> a[5].status != b[5].status);
}

/// The prelude that is not built is a warning, and the runtime that is missing an error.
pub proof fn law_files_are_found(start: Seq<char>, p: ProbesV)
    ensures
        findings(start, Some(p)).checks[4].status == (if p.prelude {
            CheckStatus::Okay
        } else {
            CheckStatus::Warning
        }),
        findings(start, Some(p)).checks[5].status == (if p.runtime {
            CheckStatus::Okay
        } else {
            CheckStatus::Error
        }),
        !p.runtime ==> findings(start, Some(p)).checks[5].detail == "missing "@ + below(
            p.root,
            "runtime/hosted/sable_rt_v1.c"@,
        ),
{
}

/// A checkout is ready exactly where Cargo and Lake both give a version, the Lean that runs is the
/// pinned one, and the hosted runtime is there. Neither the prelude nor Clang decides it.
pub proof fn law_ready_exactly_when_all_that_is_needed_is_there(start: Seq<char>, p: ProbesV)
    requires
        p.clang.settled(),
    ensures
        findings(start, Some(p)).ready() <==> {
            &&& exists|v: Seq<char>| #[trigger] gives(p.cargo, v)
            &&& exists|v: Seq<char>| #[trigger] gives(p.lake, v)
            &&& p.pin is Ok
            &&& exists|v: Seq<char>|
                #[trigger] gives(p.lean, v) && pinned_version(trimmed(p.pin->Ok_0)) is Some
                    && lean_version(v) == pinned_version(trimmed(p.pin->Ok_0))
            &&& p.runtime
        },
{
    let r = findings(start, Some(p));
    let c = r.checks;
    law_clang_is_never_an_error(p.clang.configured, p.clang.answers());
    let none = Seq::<char>::empty();
    law_version_is_the_first_usable_line("cargo"@, p.cargo, none);
    law_version_is_the_first_usable_line("lake"@, p.lake, none);
    let lean = reported_version("lake"@, p.lean);
    law_version_is_the_first_usable_line("lake"@, p.lean, none);
    assert(c[3] == lean_checked(below(p.root, "lean"@), p.pin, lean));
    if r.ready() {
        assert(c[1].status != CheckStatus::Error);
        assert(c[2].status != CheckStatus::Error);
        assert(c[3].status != CheckStatus::Error);
        assert(c[5].status != CheckStatus::Error);
        let v = lean->Ok_0;
        law_version_is_the_first_usable_line("lake"@, p.lean, v);
        assert(gives(p.lean, v));
    }
    if (exists|v: Seq<char>| #[trigger] gives(p.cargo, v)) && (exists|v: Seq<char>|
        #[trigger] gives(p.lake, v)) && p.pin is Ok && (exists|v: Seq<char>|
        #[trigger] gives(p.lean, v) && pinned_version(trimmed(p.pin->Ok_0)) is Some && lean_version(
            v,
        ) == pinned_version(trimmed(p.pin->Ok_0))) && p.runtime {
        let v = choose|v: Seq<char>|
            #[trigger] gives(p.lean, v) && pinned_version(trimmed(p.pin->Ok_0)) is Some
                && lean_version(v) == pinned_version(trimmed(p.pin->Ok_0));
        law_version_is_the_first_usable_line("lake"@, p.lean, v);
        assert forall|i: int| 0 <= i < c.len() implies (#[trigger] c[i]).status
            != CheckStatus::Error by {
            assert(i == 0 || i == 1 || i == 2 || i == 3 || i == 4 || i == 5 || i == 6);
        }
    }
}

/// Native execution is possible exactly where a ready checkout found a Clang that answers.
pub proof fn law_native_execution_needs_clang(start: Seq<char>, p: ProbesV)
    requires
        p.clang.settled(),
    ensures
        findings(start, Some(p)).native_ready() <==> findings(start, Some(p)).ready()
            && p.clang.step()->Done_0.status == CheckStatus::Okay,
{
    let r = findings(start, Some(p));
    reveal_strlit("checkout");
    reveal_strlit("Cargo");
    reveal_strlit("Lake");
    reveal_strlit("Lean");
    reveal_strlit("prelude");
    reveal_strlit("hosted runtime");
    reveal_strlit("Clang");
    law_clang_is_never_an_error(p.clang.configured, p.clang.answers());
    assert("Clang"@[1] == 'l' && "Cargo"@[1] == 'a');
    assert("Clang"@.len() == 5);
    assert(r.checks[6].name == "Clang"@);
    if r.native_ready() {
        let i = choose|i: int|
            0 <= i < r.checks.len() && (#[trigger] r.checks[i]).name == "Clang"@
                && r.checks[i].status == CheckStatus::Okay;
        law_findings_come_in_order(start, p, i);
        if i != 6 {
            assert(finding_names()[i] == "Clang"@);
            assert(i == 0 || i == 1 || i == 2 || i == 3 || i == 4 || i == 5);
            assert(false);
        }
    }
}

} // verus!
