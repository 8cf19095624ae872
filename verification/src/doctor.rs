//! What `sable doctor` makes of the checkout and the commands around it.
use vstd::prelude::*;

use crate::repr::{group_views, opt_view, views};
use crate::scan::{
    after_prefix, is_space, lines_from, space, split_lines, starts_with, strip_prefix, trim,
    trimmed,
};
use crate::text::{cat2, cat3, cat4, cat5, cat6, chars_of, owned, same_text};

verus! {

broadcast use group_views;

#[derive(Clone, Copy, Debug, PartialEq, Eq, Structural)]
pub enum CheckStatus {
    Okay,
    Warning,
    Error,
}

/// One finding.
#[derive(Debug)]
pub struct Check {
    pub status: CheckStatus,
    pub name: &'static str,
    pub detail: String,
}

pub ghost struct CheckV {
    pub status: CheckStatus,
    pub name: Seq<char>,
    pub detail: Seq<char>,
}

impl View for Check {
    type V = CheckV;

    open spec fn view(&self) -> CheckV {
        CheckV { status: self.status, name: self.name@, detail: self.detail@ }
    }
}

/// The findings, in order.
#[derive(Debug)]
pub struct Report {
    pub repo_root: Option<String>,
    pub checks: Vec<Check>,
}

pub ghost struct ReportV {
    pub repo_root: Option<Seq<char>>,
    pub checks: Seq<CheckV>,
}

impl View for Report {
    type V = ReportV;

    open spec fn view(&self) -> ReportV {
        ReportV { repo_root: opt_view(self.repo_root), checks: views(self.checks@) }
    }
}

impl ReportV {
    /// Nothing that checking needs is wrong.
    pub open spec fn ready(self) -> bool {
        forall|i: int|
            0 <= i < self.checks.len() ==> (#[trigger] self.checks[i]).status != CheckStatus::Error
    }

    /// Native execution is possible too.
    pub open spec fn native_ready(self) -> bool {
        self.ready() && exists|i: int|
            0 <= i < self.checks.len() && (#[trigger] self.checks[i]).name == "Clang"@
                && self.checks[i].status == CheckStatus::Okay
    }
}

impl Report {
    pub fn ready(&self) -> (r: bool)
        ensures
            r == self@.ready(),
    {
        let n: usize = self.checks.len();
        let mut i: usize = 0;
        while i < n
            invariant
                n == self.checks@.len(),
                i <= n,
                forall|k: int|
                    0 <= k < i ==> (#[trigger] self@.checks[k]).status != CheckStatus::Error,
            decreases n - i,
        {
            assert(self@.checks[i as int] == self.checks@[i as int]@);
            if self.checks[i].status == CheckStatus::Error {
                return false;
            }
            i = i + 1;
        }
        true
    }

    pub fn native_ready(&self) -> (r: bool)
        ensures
            r == self@.native_ready(),
    {
        if !self.ready() {
            return false;
        }
        let n: usize = self.checks.len();
        let mut i: usize = 0;
        while i < n
            invariant
                n == self.checks@.len(),
                i <= n,
                self@.ready(),
                forall|k: int|
                    0 <= k < i ==> !((#[trigger] self@.checks[k]).name == "Clang"@
                        && self@.checks[k].status == CheckStatus::Okay),
            decreases n - i,
        {
            assert(self@.checks[i as int] == self.checks@[i as int]@);
            if same_text(self.checks[i].name, "Clang") && self.checks[i].status == CheckStatus::Okay {
                return true;
            }
            i = i + 1;
        }
        false
    }
}

// ------------------------------------------------------------------------------------------
// Paths
// ------------------------------------------------------------------------------------------

/// A path below a directory.
pub open spec fn below(dir: Seq<char>, rel: Seq<char>) -> Seq<char> {
    if dir.len() == 0 {
        rel
    } else if dir.last() == '/' {
        dir + rel
    } else {
        dir + "/"@ + rel
    }
}

/// Joins a relative path to a directory.
pub fn join_path(dir: &str, rel: &str) -> (r: String)
    ensures
        r@ == below(dir@, rel@),
{
    let chars = chars_of(dir);
    let n: usize = chars.len();
    if n == 0 {
        return owned(rel);
    }
    if chars[n - 1] == '/' {
        return cat2(dir, rel);
    }
    cat3(dir, "/", rel)
}

// ------------------------------------------------------------------------------------------
// Commands
// ------------------------------------------------------------------------------------------

/// What running a command gave.
#[derive(Debug)]
pub enum CommandOutcome {
    /// The command could not be run.
    NotRun(String),
    Exited { success: bool, status: String, stdout: String, stderr: String },
}

pub ghost enum OutcomeV {
    NotRun(Seq<char>),
    Exited { success: bool, status: Seq<char>, stdout: Seq<char>, stderr: Seq<char> },
}

impl View for CommandOutcome {
    type V = OutcomeV;

    open spec fn view(&self) -> OutcomeV {
        match *self {
            CommandOutcome::NotRun(e) => OutcomeV::NotRun(e@),
            CommandOutcome::Exited { success, status, stdout, stderr } => OutcomeV::Exited {
                success,
                status: status@,
                stdout: stdout@,
                stderr: stderr@,
            },
        }
    }
}

/// The first line, at `i` or later, that is not blank.
pub open spec fn first_solid_line(lines: Seq<Seq<char>>, i: nat) -> Option<Seq<char>>
    decreases lines.len() - i,
{
    if i >= lines.len() {
        None
    } else if trimmed(lines[i as int]).len() != 0 {
        Some(lines[i as int])
    } else {
        first_solid_line(lines, i + 1)
    }
}

/// The first line, at `i` or later, that is neither blank nor a warning.
pub open spec fn version_line(lines: Seq<Seq<char>>, i: nat) -> Option<Seq<char>>
    decreases lines.len() - i,
{
    if i >= lines.len() {
        None
    } else if trimmed(lines[i as int]).len() != 0 && !"warning:"@.is_prefix_of(lines[i as int]) {
        Some(lines[i as int])
    } else {
        version_line(lines, i + 1)
    }
}

/// The version that a command reported, or why there is none.
pub open spec fn reported_version(program: Seq<char>, o: OutcomeV) -> Result<Seq<char>, Seq<char>> {
    match o {
        OutcomeV::NotRun(error) => Err("cannot run `"@ + program + "`: "@ + error),
        OutcomeV::Exited { success, status, stdout, stderr } => if !success {
            match first_solid_line(lines_from(stderr, 0), 0) {
                Some(detail) => Err("`"@ + program + "` failed: "@ + detail),
                None => Err("`"@ + program + "` exited with "@ + status),
            }
        } else {
            match version_line(lines_from(stdout, 0) + lines_from(stderr, 0), 0) {
                Some(line) => Ok(trimmed(line)),
                None => Err("`"@ + program + "` printed no version"@),
            }
        },
    }
}

pub open spec fn text_result(r: Result<String, String>) -> Result<Seq<char>, Seq<char>> {
    match r {
        Ok(s) => Ok(s@),
        Err(e) => Err(e@),
    }
}

fn blank_line(s: &str) -> (r: bool)
    ensures
        r == (trimmed(s@).len() == 0),
{
    chars_of(trim(s).as_str()).len() == 0
}

fn find_solid_line(text: &str) -> (r: Option<String>)
    ensures
        opt_view(r) == first_solid_line(lines_from(text@, 0), 0),
{
    let lines = split_lines(text);
    let ghost all = lines_from(text@, 0);
    let n: usize = lines.len();
    let mut i: usize = 0;
    while i < n
        invariant
            n == lines@.len(),
            i <= n,
            lines@.map_values(|s: String| s@) == all,
            all == lines_from(text@, 0),
            first_solid_line(all, 0) == first_solid_line(all, i as nat),
        decreases n - i,
    {
        assert(all[i as int] == lines@[i as int]@);
        if !blank_line(lines[i].as_str()) {
            return Some(lines[i].clone());
        }
        i = i + 1;
    }
    None
}

fn find_version_line(lines: &Vec<String>, Ghost(all): Ghost<Seq<Seq<char>>>, Ghost(from): Ghost<nat>) -> (r:
    Option<String>)
    requires
        from + lines@.len() <= all.len(),
        forall|k: int| 0 <= k < lines@.len() ==> all[from + k] == (#[trigger] lines@[k])@,
    ensures
        match r {
            Some(x) => version_line(all, from) == Some(x@),
            None => version_line(all, from) == version_line(all, from + lines@.len()),
        },
{
    let n: usize = lines.len();
    let mut i: usize = 0;
    while i < n
        invariant
            n == lines@.len(),
            i <= n,
            from + lines@.len() <= all.len(),
            forall|k: int| 0 <= k < lines@.len() ==> all[from + k] == (#[trigger] lines@[k])@,
            version_line(all, from) == version_line(all, from + i as nat),
        decreases n - i,
    {
        assert(all[from + i] == lines@[i as int]@);
        if !blank_line(lines[i].as_str()) && !starts_with(lines[i].as_str(), "warning:") {
            return Some(lines[i].clone());
        }
        i = i + 1;
    }
    None
}

/// Reads the version off what a command gave.
pub fn command_version(program: &str, outcome: &CommandOutcome) -> (r: Result<String, String>)
    ensures
        text_result(r) == reported_version(program@, outcome@),
{
    match outcome {
        CommandOutcome::NotRun(error) => Err(
            cat4("cannot run `", program, "`: ", error.as_str()),
        ),
        CommandOutcome::Exited { success, status, stdout, stderr } => {
            if !*success {
                return match find_solid_line(stderr.as_str()) {
                    Some(detail) => Err(cat4("`", program, "` failed: ", detail.as_str())),
                    None => Err(cat4("`", program, "` exited with ", status.as_str())),
                };
            }
            let out = split_lines(stdout.as_str());
            let err = split_lines(stderr.as_str());
            let ghost a = lines_from(stdout@, 0);
            let ghost b = lines_from(stderr@, 0);
            proof {
                assert forall|k: int| 0 <= k < out@.len() implies (a + b)[0 + k] == (
                #[trigger] out@[k])@ by {
                    assert(out@.map_values(|s: String| s@)[k] == out@[k]@);
                }
                assert forall|k: int| 0 <= k < err@.len() implies (a + b)[a.len() + k] == (
                #[trigger] err@[k])@ by {
                    assert(err@.map_values(|s: String| s@)[k] == err@[k]@);
                }
                assert(out@.map_values(|s: String| s@).len() == out@.len());
                assert(err@.map_values(|s: String| s@).len() == err@.len());
            }
            let line = match find_version_line(&out, Ghost(a + b), Ghost(0)) {
                Some(line) => Some(line),
                None => find_version_line(&err, Ghost(a + b), Ghost(a.len())),
            };
            match line {
                Some(line) => Ok(trim(line.as_str())),
                None => Err(cat3("`", program, "` printed no version")),
            }
        },
    }
}

/// A command that checking needs.
pub open spec fn required(name: Seq<char>, version: Result<Seq<char>, Seq<char>>) -> CheckV {
    match version {
        Ok(version) => CheckV { status: CheckStatus::Okay, name, detail: version },
        Err(error) => CheckV { status: CheckStatus::Error, name, detail: error },
    }
}

pub fn required_command(name: &'static str, version: Result<String, String>) -> (r: Check)
    ensures
        r@ == required(name@, text_result(version)),
{
    match version {
        Ok(version) => Check { status: CheckStatus::Okay, name, detail: version },
        Err(error) => Check { status: CheckStatus::Error, name, detail: error },
    }
}

// ------------------------------------------------------------------------------------------
// Lean
// ------------------------------------------------------------------------------------------

/// The last place, before `n`, where `:v` stands.
pub open spec fn last_mark(s: Seq<char>, n: nat) -> Option<nat>
    decreases n,
{
    if n == 0 || n >= s.len() {
        None
    } else if s[n - 1] == ':' && s[n as int] == 'v' {
        Some((n - 1) as nat)
    } else {
        last_mark(s, (n - 1) as nat)
    }
}

pub open spec fn has_space(s: Seq<char>) -> bool {
    exists|i: int| 0 <= i < s.len() && is_space(#[trigger] s[i])
}

/// The version that a toolchain pin asks for: what follows its last `:v`, in one word.
pub open spec fn pinned_version(pin: Seq<char>) -> Option<Seq<char>> {
    if pin.len() == 0 {
        None
    } else {
        match last_mark(pin, (pin.len() - 1) as nat) {
            None => None,
            Some(i) => {
                let version = pin.skip(i as int + 2);
                if version.len() == 0 || has_space(version) {
                    None
                } else {
                    Some(version)
                }
            },
        }
    }
}

/// Where the version in a report ends, at `i` or later: at a comma or a closing bracket.
pub open spec fn version_end(s: Seq<char>, i: nat) -> nat
    decreases s.len() - i,
{
    if i >= s.len() {
        s.len()
    } else if s[i as int] == ',' || s[i as int] == ')' {
        i
    } else {
        version_end(s, i + 1)
    }
}

/// The version that a report of Lean names.
pub open spec fn lean_version(report: Seq<char>) -> Option<Seq<char>> {
    match after_prefix(report, "Lean (version "@) {
        None => None,
        Some(rest) => {
            let version = rest.take(version_end(rest, 0) as int);
            if version.len() == 0 {
                None
            } else {
                Some(version)
            }
        },
    }
}

/// The pin and the report name the same version, or why not.
pub open spec fn lean_finding(pin: Seq<char>, reported: Result<Seq<char>, Seq<char>>) -> Result<
    Seq<char>,
    Seq<char>,
> {
    match pinned_version(pin) {
        None => Err("unsupported Lean toolchain pin `"@ + pin + "`"@),
        Some(expected) => match reported {
            Err(error) => Err(error),
            Ok(report) => match lean_version(report) {
                None => Err(
                    "could not parse `lake env lean --version` output: "@ + report,
                ),
                Some(actual) => if actual != expected {
                    Err(
                        "pinned `"@ + pin + "` requires Lean "@ + expected
                            + ", but `lake env lean --version` reported "@ + actual,
                    )
                } else {
                    Ok(pin + " (Lean "@ + actual + ")"@)
                },
            },
        },
    }
}

fn pin_version(pin: &str) -> (r: Option<String>)
    ensures
        opt_view(r) == pinned_version(pin@),
{
    let chars = chars_of(pin);
    let len: usize = chars.len();
    if len == 0 {
        return None;
    }
    let mut n: usize = len - 1;
    while n > 0 && !(chars[n - 1] == ':' && chars[n] == 'v')
        invariant
            chars@ == pin@,
            len == chars@.len(),
            n < len,
            last_mark(pin@, (len - 1) as nat) == last_mark(pin@, n as nat),
        decreases n,
    {
        n = n - 1;
    }
    if n == 0 {
        return None;
    }
    let ghost version = pin@.skip(n as int + 1);
    if n + 1 == len {
        assert(version.len() == 0);
        return None;
    }
    let mut i: usize = n + 1;
    while i < len
        invariant
            chars@ == pin@,
            len == chars@.len(),
            n + 1 <= i <= len,
            version == pin@.skip(n as int + 1),
            last_mark(pin@, (len - 1) as nat) == Some((n - 1) as nat),
            n > 0,
            forall|k: int| 0 <= k < i - (n + 1) ==> !is_space(#[trigger] version[k]),
        decreases len - i,
    {
        assert(version[i - (n + 1)] == pin@[i as int]);
        if space(chars[i]) {
            assert(is_space(version[i - (n + 1)]));
            return None;
        }
        i = i + 1;
    }
    let r = crate::scan::run_of(&chars, n + 1, len);
    assert(r@ =~= version);
    Some(r)
}

fn report_version(report: &str) -> (r: Option<String>)
    ensures
        opt_view(r) == lean_version(report@),
{
    let rest = match strip_prefix(report, "Lean (version ") {
        None => {
            return None;
        },
        Some(rest) => rest,
    };
    let chars = chars_of(rest.as_str());
    let n: usize = chars.len();
    let mut i: usize = 0;
    while i < n && chars[i] != ',' && chars[i] != ')'
        invariant
            chars@ == rest@,
            n == chars@.len(),
            i <= n,
            version_end(rest@, 0) == version_end(rest@, i as nat),
        decreases n - i,
    {
        i = i + 1;
    }
    if i == 0 {
        assert(rest@.take(0).len() == 0);
        return None;
    }
    let r = crate::scan::run_of(&chars, 0, i);
    assert(r@ =~= rest@.take(i as int));
    Some(r)
}

fn lean_result(pin: &str, reported: Result<String, String>) -> (r: Result<String, String>)
    ensures
        text_result(r) == lean_finding(pin@, text_result(reported)),
{
    let expected = match pin_version(pin) {
        None => {
            return Err(cat3("unsupported Lean toolchain pin `", pin, "`"));
        },
        Some(expected) => expected,
    };
    let report = match reported {
        Err(error) => {
            return Err(error);
        },
        Ok(report) => report,
    };
    let actual = match report_version(report.as_str()) {
        None => {
            return Err(
                cat2("could not parse `lake env lean --version` output: ", report.as_str()),
            );
        },
        Some(actual) => actual,
    };
    if !same_text(actual.as_str(), expected.as_str()) {
        return Err(
            cat6(
                "pinned `",
                pin,
                "` requires Lean ",
                expected.as_str(),
                ", but `lake env lean --version` reported ",
                actual.as_str(),
            ),
        );
    }
    Ok(cat4(pin, " (Lean ", actual.as_str(), ")"))
}

pub fn lean_check_from_probe(pin: &str, reported: Result<String, String>) -> (r: Check)
    ensures
        r@ == required("Lean"@, lean_finding(pin@, text_result(reported))),
{
    required_command("Lean", lean_result(pin, reported))
}

/// The Lean finding, where the pin could be read.
pub open spec fn lean_checked(
    lean_root: Seq<char>,
    pin: Result<Seq<char>, Seq<char>>,
    reported: Result<Seq<char>, Seq<char>>,
) -> CheckV {
    match pin {
        Err(error) => CheckV {
            status: CheckStatus::Error,
            name: "Lean"@,
            detail: "cannot read "@ + below(lean_root, "lean-toolchain"@) + ": "@ + error,
        },
        Ok(pin) => required("Lean"@, lean_finding(trimmed(pin), reported)),
    }
}

pub fn lean_check(lean_root: &str, pin: Result<String, String>, reported: Result<String, String>) -> (r:
    Check)
    ensures
        r@ == lean_checked(lean_root@, text_result(pin), text_result(reported)),
{
    match pin {
        Err(error) => Check {
            status: CheckStatus::Error,
            name: "Lean",
            detail: cat4(
                "cannot read ",
                join_path(lean_root, "lean-toolchain").as_str(),
                ": ",
                error.as_str(),
            ),
        },
        Ok(pin) => lean_check_from_probe(trim(pin.as_str()).as_str(), reported),
    }
}

// ------------------------------------------------------------------------------------------
// Clang
// ------------------------------------------------------------------------------------------

/// What the search for Clang does next.
#[derive(Debug)]
pub enum ClangStep {
    /// Ask this candidate for its version.
    Probe(String),
    Done(Check),
}

pub ghost enum ClangStepV {
    Probe(Seq<char>),
    Done(CheckV),
}

impl View for ClangStep {
    type V = ClangStepV;

    open spec fn view(&self) -> ClangStepV {
        match *self {
            ClangStep::Probe(p) => ClangStepV::Probe(p@),
            ClangStep::Done(c) => ClangStepV::Done(c@),
        }
    }
}

pub open spec fn clang(status: CheckStatus, detail: Seq<char>) -> CheckV {
    CheckV { status, name: "Clang"@, detail }
}

/// The candidates where none is configured, in order.
pub open spec fn clang_candidates() -> Seq<Seq<char>> {
    seq!["/opt/homebrew/opt/llvm/bin/clang"@, "clang"@]
}

/// What the search does, given the answers of the candidates so far. A configured candidate is the
/// only one: where it is broken there is no fallback.
pub open spec fn clang_step(
    configured: Option<Seq<char>>,
    answers: Seq<Result<Seq<char>, Seq<char>>>,
) -> ClangStepV {
    match configured {
        Some(candidate) => if answers.len() == 0 {
            ClangStepV::Probe(candidate)
        } else {
            match answers[0] {
                Ok(version) => ClangStepV::Done(
                    clang(
                        CheckStatus::Okay,
                        "SABLE_CLANG="@ + candidate + " ("@ + version + ")"@,
                    ),
                ),
                Err(error) => ClangStepV::Done(
                    clang(
                        CheckStatus::Warning,
                        "configured SABLE_CLANG="@ + candidate + " is unusable: "@ + error
                            + "; no fallback attempted"@,
                    ),
                ),
            }
        },
        None => clang_search(answers, 0),
    }
}

/// The search from candidate `i` on.
pub open spec fn clang_search(answers: Seq<Result<Seq<char>, Seq<char>>>, i: nat) -> ClangStepV
    decreases 2 - i,
{
    if i >= 2 {
        ClangStepV::Done(
            clang(
                CheckStatus::Warning,
                "not found; optional for verification, required for native execution"@,
            ),
        )
    } else if i >= answers.len() {
        ClangStepV::Probe(clang_candidates()[i as int])
    } else {
        match answers[i as int] {
            Ok(version) => ClangStepV::Done(
                clang(
                    CheckStatus::Okay,
                    clang_candidates()[i as int] + " ("@ + version + ")"@,
                ),
            ),
            Err(_) => clang_search(answers, i + 1),
        }
    }
}

pub open spec fn answer_views(answers: Seq<Result<String, String>>) -> Seq<
    Result<Seq<char>, Seq<char>>,
> {
    Seq::new(answers.len(), |i: int| text_result(answers[i]))
}

fn clang_warning(detail: String) -> (r: ClangStep)
    ensures
        r@ == ClangStepV::Done(clang(CheckStatus::Warning, detail@)),
{
    ClangStep::Done(Check { status: CheckStatus::Warning, name: "Clang", detail })
}

fn clang_found(detail: String) -> (r: ClangStep)
    ensures
        r@ == ClangStepV::Done(clang(CheckStatus::Okay, detail@)),
{
    ClangStep::Done(Check { status: CheckStatus::Okay, name: "Clang", detail })
}

pub fn clang_check_with_probe(configured: Option<&str>, answers: &Vec<Result<String, String>>) -> (r:
    ClangStep)
    ensures
        r@ == clang_step(opt_view(configured), answer_views(answers@)),
{
    let ghost given = answer_views(answers@);
    match configured {
        Some(candidate) => {
            if answers.len() == 0 {
                return ClangStep::Probe(owned(candidate));
            }
            assert(given[0] == text_result(answers@[0]));
            match &answers[0] {
                Ok(version) => clang_found(
                    cat5("SABLE_CLANG=", candidate, " (", version.as_str(), ")"),
                ),
                Err(error) => clang_warning(
                    cat5(
                        "configured SABLE_CLANG=",
                        candidate,
                        " is unusable: ",
                        error.as_str(),
                        "; no fallback attempted",
                    ),
                ),
            }
        },
        None => {
            let mut i: usize = 0;
            while i < 2
                invariant
                    i <= 2,
                    given == answer_views(answers@),
                    clang_search(given, 0) == clang_search(given, i as nat),
                    configured is None,
                decreases 2 - i,
            {
                let candidate = if i == 0 {
                    "/opt/homebrew/opt/llvm/bin/clang"
                } else {
                    "clang"
                };
                assert(candidate@ == clang_candidates()[i as int]);
                if i >= answers.len() {
                    return ClangStep::Probe(owned(candidate));
                }
                assert(given[i as int] == text_result(answers@[i as int]));
                match &answers[i] {
                    Ok(version) => {
                        return clang_found(cat4(candidate, " (", version.as_str(), ")"));
                    },
                    Err(_) => {},
                }
                i = i + 1;
            }
            clang_warning(
                owned("not found; optional for verification, required for native execution"),
            )
        },
    }
}

/// A configured Clang is authoritative: it is probed, and whatever it answers ends the search.
pub proof fn law_configured_clang_is_authoritative(
    candidate: Seq<char>,
    answers: Seq<Result<Seq<char>, Seq<char>>>,
)
    ensures
        answers.len() == 0 ==> clang_step(Some(candidate), answers) == ClangStepV::Probe(candidate),
        answers.len() > 0 ==> clang_step(Some(candidate), answers) is Done,
        answers.len() > 0 && answers[0] is Err ==> (clang_step(
            Some(candidate),
            answers,
        ) matches ClangStepV::Done(c) && c.status == CheckStatus::Warning),
{
}

/// The search for Clang ends after two answers.
pub proof fn law_clang_search_ends(
    configured: Option<Seq<char>>,
    answers: Seq<Result<Seq<char>, Seq<char>>>,
)
    requires
        answers.len() >= 2,
    ensures
        clang_step(configured, answers) is Done,
{
    reveal_with_fuel(clang_search, 3);
}

/// However the search for Clang ends, its finding is named after Clang and is never an error:
/// Clang is optional.
pub proof fn law_clang_is_never_an_error(
    configured: Option<Seq<char>>,
    answers: Seq<Result<Seq<char>, Seq<char>>>,
)
    ensures
        clang_step(configured, answers) matches ClangStepV::Done(c) ==> c.name == "Clang"@
            && c.status != CheckStatus::Error,
{
    reveal_with_fuel(clang_search, 3);
}

/// What is configured as Clang, and what the candidates that were asked for their version did, in
/// the order in which they were asked.
#[derive(Debug)]
pub struct ClangProbes {
    pub configured: Option<String>,
    pub outcomes: Vec<CommandOutcome>,
}

pub ghost struct ClangProbesV {
    pub configured: Option<Seq<char>>,
    pub outcomes: Seq<OutcomeV>,
}

impl View for ClangProbes {
    type V = ClangProbesV;

    open spec fn view(&self) -> ClangProbesV {
        ClangProbesV { configured: opt_view(self.configured), outcomes: views(self.outcomes@) }
    }
}

impl ClangProbesV {
    /// The candidate that is asked as number `i`.
    pub open spec fn candidate(self, i: int) -> Seq<char> {
        match self.configured {
            Some(candidate) => candidate,
            None => if i == 0 {
                clang_candidates()[0]
            } else {
                clang_candidates()[1]
            },
        }
    }

    /// What the candidates reported.
    pub open spec fn answers(self) -> Seq<Result<Seq<char>, Seq<char>>> {
        Seq::new(
            self.outcomes.len(),
            |i: int| reported_version(self.candidate(i), self.outcomes[i]),
        )
    }

    pub open spec fn step(self) -> ClangStepV {
        clang_step(self.configured, self.answers())
    }

    /// Enough candidates were asked to end the search.
    pub open spec fn settled(self) -> bool {
        self.step() is Done
    }
}

impl ClangProbes {
    /// What the search does next.
    pub fn step(&self) -> (r: ClangStep)
        ensures
            r@ == self@.step(),
    {
        let mut answers: Vec<Result<String, String>> = Vec::new();
        let n: usize = self.outcomes.len();
        let mut i: usize = 0;
        while i < n
            invariant
                n == self.outcomes@.len(),
                i <= n,
                answers@.len() == i,
                forall|k: int|
                    0 <= k < i ==> text_result(#[trigger] answers@[k]) == self@.answers()[k],
            decreases n - i,
        {
            let candidate: &str = match &self.configured {
                Some(candidate) => candidate.as_str(),
                None => if i == 0 {
                    "/opt/homebrew/opt/llvm/bin/clang"
                } else {
                    "clang"
                },
            };
            assert(candidate@ == self@.candidate(i as int));
            assert(self@.outcomes[i as int] == self.outcomes@[i as int]@);
            answers.push(command_version(candidate, &self.outcomes[i]));
            i = i + 1;
        }
        assert(answer_views(answers@) =~= self@.answers());
        let configured: Option<&str> = match &self.configured {
            Some(candidate) => Some(candidate.as_str()),
            None => None,
        };
        clang_check_with_probe(configured, &answers)
    }
}

// ------------------------------------------------------------------------------------------
// The report
// ------------------------------------------------------------------------------------------

/// What was found in and around a checkout.
#[derive(Debug)]
pub struct Probes {
    pub root: String,
    pub cargo: CommandOutcome,
    pub lake: CommandOutcome,
    /// The contents of the toolchain pin.
    pub pin: Result<String, String>,
    pub lean: CommandOutcome,
    /// The built prelude is there.
    pub prelude: bool,
    /// The hosted runtime is there.
    pub runtime: bool,
    pub clang: ClangProbes,
}

pub ghost struct ProbesV {
    pub root: Seq<char>,
    pub cargo: OutcomeV,
    pub lake: OutcomeV,
    pub pin: Result<Seq<char>, Seq<char>>,
    pub lean: OutcomeV,
    pub prelude: bool,
    pub runtime: bool,
    pub clang: ClangProbesV,
}

impl View for Probes {
    type V = ProbesV;

    open spec fn view(&self) -> ProbesV {
        ProbesV {
            root: self.root@,
            cargo: self.cargo@,
            lake: self.lake@,
            pin: text_result(self.pin),
            lean: self.lean@,
            prelude: self.prelude,
            runtime: self.runtime,
            clang: self.clang@,
        }
    }
}

pub open spec fn prelude_finding(built: bool) -> CheckV {
    if built {
        CheckV {
            status: CheckStatus::Okay,
            name: "prelude"@,
            detail: "built (lean/.lake/build/lib/lean/Sable.olean)"@,
        }
    } else {
        CheckV {
            status: CheckStatus::Warning,
            name: "prelude"@,
            detail: "not built; run `cd lean && lake build` before the first check"@,
        }
    }
}

pub open spec fn runtime_finding(root: Seq<char>, present: bool) -> CheckV {
    if present {
        CheckV {
            status: CheckStatus::Okay,
            name: "hosted runtime"@,
            detail: "runtime/hosted/sable_rt_v1.c"@,
        }
    } else {
        CheckV {
            status: CheckStatus::Error,
            name: "hosted runtime"@,
            detail: "missing "@ + below(root, "runtime/hosted/sable_rt_v1.c"@),
        }
    }
}

/// The findings about a checkout, in order; or the one finding that there is none.
pub open spec fn findings(start: Seq<char>, probes: Option<ProbesV>) -> ReportV {
    match probes {
        None => ReportV {
            repo_root: None,
            checks: seq![
                CheckV {
                    status: CheckStatus::Error,
                    name: "checkout"@,
                    detail: "no ancestor of "@ + start + " contains lean/lean-toolchain"@,
                },
            ],
        },
        Some(p) => ReportV {
            repo_root: Some(p.root),
            checks: seq![
                CheckV { status: CheckStatus::Okay, name: "checkout"@, detail: p.root },
                required("Cargo"@, reported_version("cargo"@, p.cargo)),
                required("Lake"@, reported_version("lake"@, p.lake)),
                lean_checked(below(p.root, "lean"@), p.pin, reported_version("lake"@, p.lean)),
                prelude_finding(p.prelude),
                runtime_finding(p.root, p.runtime),
                p.clang.step()->Done_0,
            ],
        },
    }
}

/// Inspects the checkout and the commands that the documented workflows use.
///
/// Verification needs Cargo, Lake and the pinned Lean. Clang is optional for checking and for
/// dynamic tests, and is reported because native execution needs it.
pub fn inspect(start: &str, probes: Option<Probes>) -> (r: Report)
    requires
        probes matches Some(p) ==> p@.clang.settled(),
    ensures
        r@ == findings(start@, opt_view(probes)),
{
    let mut checks: Vec<Check> = Vec::new();
    let p = match probes {
        None => {
            checks.push(
                Check {
                    status: CheckStatus::Error,
                    name: "checkout",
                    detail: cat3("no ancestor of ", start, " contains lean/lean-toolchain"),
                },
            );
            let r = Report { repo_root: None, checks };
            assert(r@.checks =~= findings(start@, None).checks);
            return r;
        },
        Some(p) => p,
    };
    let ghost told = findings(start@, Some(p@));
    let ghost root = p.root@;
    checks.push(Check { status: CheckStatus::Okay, name: "checkout", detail: p.root.clone() });
    checks.push(required_command("Cargo", command_version("cargo", &p.cargo)));
    checks.push(required_command("Lake", command_version("lake", &p.lake)));
    let lean_root = join_path(p.root.as_str(), "lean");
    checks.push(lean_check(lean_root.as_str(), p.pin, command_version("lake", &p.lean)));
    checks.push(
        if p.prelude {
            Check {
                status: CheckStatus::Okay,
                name: "prelude",
                detail: owned("built (lean/.lake/build/lib/lean/Sable.olean)"),
            }
        } else {
            Check {
                status: CheckStatus::Warning,
                name: "prelude",
                detail: owned("not built; run `cd lean && lake build` before the first check"),
            }
        },
    );
    checks.push(
        if p.runtime {
            Check {
                status: CheckStatus::Okay,
                name: "hosted runtime",
                detail: owned("runtime/hosted/sable_rt_v1.c"),
            }
        } else {
            Check {
                status: CheckStatus::Error,
                name: "hosted runtime",
                detail: cat2(
                    "missing ",
                    join_path(p.root.as_str(), "runtime/hosted/sable_rt_v1.c").as_str(),
                ),
            }
        },
    );
    match p.clang.step() {
        ClangStep::Done(clang) => {
            checks.push(clang);
        },
        ClangStep::Probe(_) => {},
    }
    let r = Report { repo_root: Some(p.root), checks };
    assert(r@.checks =~= told.checks);
    r
}

/// Without a checkout nothing is ready, and the missing checkout is the one finding.
pub proof fn law_missing_checkout_is_not_ready(start: Seq<char>)
    ensures
        !findings(start, None).ready(),
        findings(start, None).checks.len() == 1,
        findings(start, None).checks[0].name == "checkout"@,
{
    assert(findings(start, None).checks[0].status == CheckStatus::Error);
}

/// A Lean that is not exactly the pinned one is a required failure: whoever is ready runs the
/// pinned version.
pub proof fn law_ready_means_pinned_lean(start: Seq<char>, p: ProbesV)
    requires
        findings(start, Some(p)).ready(),
    ensures
        p.pin is Ok,
        reported_version("lake"@, p.lean) is Ok,
        pinned_version(trimmed(p.pin->Ok_0)) is Some,
        lean_version(reported_version("lake"@, p.lean)->Ok_0) == pinned_version(
            trimmed(p.pin->Ok_0),
        ),
{
    let r = findings(start, Some(p));
    let c = r.checks[3];
    assert(c == lean_checked(below(p.root, "lean"@), p.pin, reported_version("lake"@, p.lean)));
    assert(c.status != CheckStatus::Error);
}

/// What is known of Clang never makes a checkout unready.
pub proof fn law_clang_is_optional(start: Seq<char>, p: ProbesV, other: ClangProbesV)
    requires
        p.clang.settled(),
        other.settled(),
    ensures
        findings(start, Some(p)).ready() == findings(
            start,
            Some(ProbesV { clang: other, ..p }),
        ).ready(),
{
    law_clang_is_never_an_error(p.clang.configured, p.clang.answers());
    law_clang_is_never_an_error(other.configured, other.answers());
    let a = findings(start, Some(p));
    let b = findings(start, Some(ProbesV { clang: other, ..p }));
    assert forall|i: int| 0 <= i < 7 implies (#[trigger] a.checks[i].status == CheckStatus::Error)
        == (b.checks[i].status == CheckStatus::Error) by {
        if i < 6 {
            assert(a.checks[i] == b.checks[i]);
        }
    }
    if a.ready() {
        assert forall|i: int| 0 <= i < b.checks.len() implies #[trigger] b.checks[i].status
            != CheckStatus::Error by {
            assert(a.checks[i].status != CheckStatus::Error);
        }
    }
    if b.ready() {
        assert forall|i: int| 0 <= i < a.checks.len() implies #[trigger] a.checks[i].status
            != CheckStatus::Error by {
            assert(b.checks[i].status != CheckStatus::Error);
        }
    }
}

/// Native readiness implies readiness.
pub proof fn law_native_ready_is_ready(r: ReportV)
    ensures
        r.native_ready() ==> r.ready(),
{
}

} // verus!
