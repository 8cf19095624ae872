//! Running the tests and the functions of a program.
use vstd::prelude::*;

use crate::ast::{FnDecl, Program};
use crate::bindings::Binding;
use crate::callable::find_fn;
use crate::devices::{
    disciplined, lemma_reads_bound, lemma_select_is_orderly, orderly, reads, MmioEvent,
};
use crate::drops::PlanError;
use crate::gates::{program_gate, validate_interp_program};
use crate::heap::{empty_heap, FieldsV, Heap, HeapV};
use crate::lines::{lemma_first_line, position_of, starts_of, LineMap};
use crate::machine::{new_machine, CodeV, Interp, MachV, Machine, SkipV, Skipped, FUEL};
use crate::program::{program_outlines, sealed_program, ControlProgram, ProgramV};
use crate::repr::{group_views, opt_view, views};
use crate::semantics::{call, fn_at};
use crate::text::{cat2, cat6, chars_of, nat_text, owned, usize_decimal};
use crate::value::{
    control_plan_message, lemma_record_view, plan_message, ArrV, RtArray, RtVal, Trap, TrapV, ValV,
};

verus! {

broadcast use group_views;

// ------------------------------------------------------------------------------------------
// Programs
// ------------------------------------------------------------------------------------------

/// The source that a program was read from.
#[derive(Debug)]
pub struct ModuleSet {
    pub file: String,
    pub combined_source: String,
}

impl ModuleSet {
    pub fn single(file: String, source: String) -> (r: ModuleSet)
        ensures
            r.file == file,
            r.combined_source == source,
    {
        ModuleSet { file, combined_source: source }
    }

    /// File, line and column of an offset.
    pub fn locate(&self, offset: usize) -> (r: (String, usize, usize))
        ensures
            r.0@ == self.file@,
            r.1 == position_of(starts_of(self.combined_source@), offset).0,
            r.2 == position_of(starts_of(self.combined_source@), offset).1,
    {
        let source = self.combined_source.as_str();
        let lines = LineMap::new(source);
        let len: usize = source.as_bytes().len();
        proof {
            assert(len == crate::text::byte_len(source@));
            lemma_first_line(source@);
        }
        let (line, col) = lines.line_col(offset);
        (self.file.clone(), line, col)
    }
}

/// A program with the control plan that was sealed for it.
pub struct CheckedProgram {
    pub program: Program,
    pub control: ControlProgram,
}

impl CheckedProgram {
    pub open spec fn wf(&self) -> bool {
        self.control@.wf()
    }

    pub fn seal(program: Program) -> (r: Result<CheckedProgram, PlanError>)
        ensures
            match sealed_program(program, program_outlines(program)) {
                Ok(control) => r matches Ok(x) && x.program == program && x.control@ == control
                    && x.wf(),
                Err(e) => r matches Err(x) && x@ == e,
            },
    {
        match ControlProgram::build(&program) {
            Err(e) => Err(e),
            Ok(control) => Ok(CheckedProgram { program, control }),
        }
    }

    pub fn program(&self) -> (r: &Program)
        ensures
            *r == self.program,
    {
        &self.program
    }

    pub fn control(&self) -> (r: &ControlProgram)
        ensures
            *r == self.control,
    {
        &self.control
    }
}

/// A checked program whose obligations were discharged; it keeps its plan.
pub struct VerifiedProgram {
    pub checked: CheckedProgram,
}

impl VerifiedProgram {
    pub fn program(&self) -> (r: &Program)
        ensures
            *r == self.checked.program,
    {
        &self.checked.program
    }

    pub fn control(&self) -> (r: &ControlProgram)
        ensures
            *r == self.checked.control,
    {
        &self.checked.control
    }
}

pub open spec fn code_of(p: Program, source: Seq<char>, control: ProgramV) -> CodeV {
    CodeV { control, fns: p.fns@, classes: p.classes@, records: p.records@, source }
}

// ------------------------------------------------------------------------------------------
// Tests
// ------------------------------------------------------------------------------------------

/// What became of one test.
#[derive(Debug)]
pub struct TestReport {
    pub name: String,
    /// The failure, as it is shown.
    pub outcome: Result<(), String>,
    /// The clauses that could not be checked.
    pub skipped: Vec<Skipped>,
}

pub ghost struct ReportV {
    pub name: Seq<char>,
    pub outcome: Result<(), Seq<char>>,
    pub skipped: Seq<SkipV>,
}

impl View for TestReport {
    type V = ReportV;

    open spec fn view(&self) -> ReportV {
        ReportV {
            name: self.name@,
            outcome: match self.outcome {
                Ok(_) => Ok(()),
                Err(e) => Err(e@),
            },
            skipped: views(self.skipped@),
        }
    }
}

/// A function is a test by its name.
pub open spec fn is_test(name: Seq<char>) -> bool {
    "test_"@.is_prefix_of(name)
}

/// The tests among the first `n` functions, each failed for the same reason.
pub open spec fn failed_reports(fns: Seq<FnDecl>, reason: Seq<char>, n: nat) -> Seq<ReportV>
    decreases n,
{
    if n == 0 || n > fns.len() {
        Seq::empty()
    } else {
        let front = failed_reports(fns, reason, (n - 1) as nat);
        if is_test(fns[n - 1].name@) {
            front.push(
                ReportV {
                    name: fns[n - 1].name@,
                    outcome: Err(reason),
                    skipped: Seq::empty(),
                },
            )
        } else {
            front
        }
    }
}

/// A trap and where it happened.
pub open spec fn located(t: TrapV, file: Seq<char>, source: Seq<char>) -> Seq<char> {
    let (line, col) = position_of(starts_of(source), t.span.start);
    t.message + " ("@ + file + ":"@ + nat_text(line) + ":"@ + nat_text(col as nat) + ")"@
}

/// A test runs on a machine of its own.
pub open spec fn test_report(c: CodeV, test: FnDecl, file: Seq<char>) -> ReportV {
    let (r, m) = call(c, test, Seq::empty(), new_machine(FUEL));
    ReportV {
        name: test.name@,
        outcome: match r {
            Ok(_) => Ok(()),
            Err(t) => Err(located(t, file, c.source)),
        },
        skipped: m.skipped,
    }
}

/// The tests among the first `n` functions, in order.
pub open spec fn test_reports(c: CodeV, file: Seq<char>, n: nat) -> Seq<ReportV>
    decreases n,
{
    if n == 0 || n > c.fns.len() {
        Seq::empty()
    } else {
        let front = test_reports(c, file, (n - 1) as nat);
        if is_test(c.fns[n - 1].name@) {
            front.push(test_report(c, c.fns[n - 1], file))
        } else {
            front
        }
    }
}

/// The tests of a program under a plan. A program that the interpreter does not take fails every
/// test with the refusal.
pub open spec fn planned_reports(p: Program, file: Seq<char>, source: Seq<char>, control: ProgramV) -> Seq<
    ReportV,
> {
    match program_gate(p) {
        Err(reason) => failed_reports(p.fns@, reason, p.fns@.len()),
        Ok(_) => test_reports(code_of(p, source, control), file, p.fns@.len()),
    }
}

/// The tests of a program under the plan that is sealed for it.
pub open spec fn program_reports(p: Program, file: Seq<char>, source: Seq<char>) -> Seq<ReportV> {
    match sealed_program(p, program_outlines(p)) {
        Err(e) => failed_reports(p.fns@, plan_message(e.message), p.fns@.len()),
        Ok(control) => planned_reports(p, file, source, control),
    }
}

fn named_test(name: &str) -> (r: bool)
    ensures
        r == is_test(name@),
{
    let chars = chars_of(name);
    let prefix = chars_of("test_");
    let n: usize = prefix.len();
    if chars.len() < n {
        return false;
    }
    let mut i: usize = 0;
    while i < n
        invariant
            chars@ == name@,
            prefix@ == "test_"@,
            n == prefix@.len(),
            n <= chars@.len(),
            i <= n,
            forall|k: int| 0 <= k < i ==> chars@[k] == prefix@[k],
        decreases n - i,
    {
        if chars[i] != prefix[i] {
            assert("test_"@[i as int] != name@[i as int]);
            return false;
        }
        i = i + 1;
    }
    assert("test_"@ =~= name@.subrange(0, n as int));
    true
}

pub fn control_failure_reports(program: &Program, error: &str) -> (r: Vec<TestReport>)
    ensures
        views(r@) == failed_reports(program.fns@, error@, program.fns@.len()),
{
    let mut out: Vec<TestReport> = Vec::new();
    let n: usize = program.fns.len();
    let mut i: usize = 0;
    while i < n
        invariant
            n == program.fns@.len(),
            i <= n,
            views(out@) == failed_reports(program.fns@, error@, i as nat),
        decreases n - i,
    {
        let f = &program.fns[i];
        if named_test(f.name.as_str()) {
            let none: Vec<Skipped> = Vec::new();
            assert(views(none@) =~= Seq::empty());
            out.push(
                TestReport { name: f.name.clone(), outcome: Err(owned(error)), skipped: none },
            );
        }
        i = i + 1;
    }
    out
}

fn show_trap(t: &Trap, mods: &ModuleSet) -> (r: String)
    ensures
        r@ == located(t@, mods.file@, mods.combined_source@),
{
    let (file, line, col) = mods.locate(t.span.start);
    cat2(
        cat6(
            t.message.as_str(),
            " (",
            file.as_str(),
            ":",
            usize_decimal(line).as_str(),
            ":",
        ).as_str(),
        cat2(usize_decimal(col).as_str(), ")").as_str(),
    )
}

fn run_one(interp: &Interp<'_>, test: &FnDecl, mods: &ModuleSet) -> (r: TestReport)
    requires
        interp.control@.wf(),
        interp.source@ == mods.combined_source@,
    ensures
        r@ == test_report(interp@, *test, mods.file@),
{
    let mut m = Machine::new(FUEL);
    let none: Vec<RtVal> = Vec::new();
    assert(views(none@) =~= Seq::empty());
    let outcome = match interp.call(test, &none, &mut m) {
        Ok(_) => Ok(()),
        Err(t) => {
            let shown = show_trap(&t, mods);
            assert(shown@ =~= located(t@, mods.file@, interp@.source));
            Err(shown)
        },
    };
    TestReport { name: test.name.clone(), outcome, skipped: m.skipped }
}

pub fn run_tests_with_control(program: &Program, mods: &ModuleSet, control: &ControlProgram) -> (r:
    Vec<TestReport>)
    requires
        control@.wf(),
    ensures
        views(r@) == planned_reports(*program, mods.file@, mods.combined_source@, control@),
{
    match validate_interp_program(program) {
        Err(error) => {
            return control_failure_reports(program, error.as_str());
        },
        Ok(_) => {},
    }
    let interp = Interp {
        control,
        fns: &program.fns,
        classes: &program.classes,
        records: &program.records,
        source: mods.combined_source.as_str(),
    };
    let ghost c = code_of(*program, mods.combined_source@, control@);
    assert(interp@ == c);
    let mut out: Vec<TestReport> = Vec::new();
    let n: usize = program.fns.len();
    let mut i: usize = 0;
    while i < n
        invariant
            n == program.fns@.len(),
            i <= n,
            interp.control@.wf(),
            interp.source@ == mods.combined_source@,
            interp@ == c,
            c.fns == program.fns@,
            views(out@) == test_reports(c, mods.file@, i as nat),
        decreases n - i,
    {
        let f = &program.fns[i];
        if named_test(f.name.as_str()) {
            out.push(run_one(&interp, f, mods));
        }
        i = i + 1;
    }
    out
}

/// Runs the tests of a program.
pub fn run_tests(program: &Program, mods: &ModuleSet) -> (r: Vec<TestReport>)
    ensures
        views(r@) == program_reports(*program, mods.file@, mods.combined_source@),
{
    match ControlProgram::build(program) {
        Err(e) => control_failure_reports(program, control_plan_message(&e).as_str()),
        Ok(control) => run_tests_with_control(program, mods, &control),
    }
}

/// Runs the tests of a checked program under its own plan.
pub fn run_checked_tests(checked: &CheckedProgram, mods: &ModuleSet) -> (r: Vec<TestReport>)
    requires
        checked.wf(),
    ensures
        views(r@) == planned_reports(
            checked.program,
            mods.file@,
            mods.combined_source@,
            checked.control@,
        ),
{
    run_tests_with_control(checked.program(), mods, checked.control())
}

// ------------------------------------------------------------------------------------------
// Functions
// ------------------------------------------------------------------------------------------

/// What a run gave, and what its devices saw.
#[derive(Debug)]
pub struct ObservedRun {
    pub outcome: Result<RtVal, String>,
    pub mmio: Vec<MmioEvent>,
    /// The profile of the transmitter, and how often its status was read.
    pub uart_profile: Option<i128>,
    pub uart_cursor: usize,
    /// The storage that the outcome may name.
    pub heap: Heap,
}

pub ghost struct RunV {
    pub outcome: Result<ValV, Seq<char>>,
    pub mmio: Seq<MmioEvent>,
    pub uart_profile: Option<i128>,
    pub uart_cursor: usize,
    pub heap: HeapV,
}

pub open spec fn outcome_view(r: Result<RtVal, String>) -> Result<ValV, Seq<char>> {
    match r {
        Ok(v) => Ok(v@),
        Err(e) => Err(e@),
    }
}

impl View for ObservedRun {
    type V = RunV;

    open spec fn view(&self) -> RunV {
        RunV {
            outcome: outcome_view(self.outcome),
            mmio: self.mmio@,
            uart_profile: self.uart_profile,
            uart_cursor: self.uart_cursor,
            heap: self.heap@,
        }
    }
}

/// A run that did not start.
pub open spec fn refused_run(reason: Seq<char>) -> RunV {
    RunV {
        outcome: Err(reason),
        mmio: Seq::empty(),
        uart_profile: None,
        uart_cursor: 0,
        heap: empty_heap(),
    }
}

/// A trap as a run reports it.
pub open spec fn trap_text(t: TrapV) -> Seq<char> {
    if t.undef {
        "undef: "@ + t.message
    } else {
        t.message
    }
}

pub open spec fn observed(r: Result<ValV, TrapV>, m: MachV) -> RunV {
    RunV {
        outcome: match r {
            Ok(v) => Ok(v),
            Err(t) => Err(trap_text(t)),
        },
        mmio: match m.uart {
            Some(u) => u.events,
            None => Seq::empty(),
        },
        uart_profile: match m.uart {
            Some(u) => Some(u.script),
            None => None,
        },
        uart_cursor: match m.uart {
            Some(u) => u.cursor,
            None => 0,
        },
        heap: m.heap,
    }
}

/// The transmitter as a run shows it: without a profile there is no access; the cursor is the
/// number of reads; and every access keeps to the discipline, so a byte is written only right
/// after a read that found the transmitter ready.
pub open spec fn trace_in_order(run: RunV) -> bool {
    &&& run.uart_profile is None ==> run.mmio.len() == 0
    &&& run.uart_cursor == reads(run.mmio, run.mmio.len())
    &&& forall|i: int| 0 <= i < run.mmio.len() ==> #[trigger] disciplined(run.mmio, i)
}

/// A run of one function of a program under a plan.
pub open spec fn planned_run(p: Program, source: Seq<char>, name: Seq<char>, control: ProgramV) -> RunV {
    match program_gate(p) {
        Err(reason) => refused_run(reason),
        Ok(_) => {
            let i = fn_at(p.fns@, name, p.fns@.len())->Some_0;
            let (r, m) = call(
                code_of(p, source, control),
                p.fns@[i as int],
                Seq::empty(),
                new_machine(FUEL),
            );
            observed(r, m)
        },
    }
}

/// A run of one function of a program under the plan that is sealed for it.
pub open spec fn program_run(p: Program, source: Seq<char>, name: Seq<char>) -> RunV {
    match sealed_program(p, program_outlines(p)) {
        Err(e) => refused_run(plan_message(e.message)),
        Ok(control) => planned_run(p, source, name, control),
    }
}

/// The program has the function, or is refused before it is looked for.
pub open spec fn callable(p: Program, name: Seq<char>) -> bool {
    program_gate(p) is Ok ==> fn_at(p.fns@, name, p.fns@.len()) is Some
}

fn refuse_run(reason: String) -> (r: ObservedRun)
    ensures
        r@ == refused_run(reason@),
        trace_in_order(r@),
{
    let none: Vec<MmioEvent> = Vec::new();
    assert(none@ =~= Seq::empty());
    ObservedRun {
        outcome: Err(reason),
        mmio: none,
        uart_profile: None,
        uart_cursor: 0,
        heap: Heap::new(),
    }
}

pub fn run_fn_observed_with_control(
    program: &Program,
    mods: &ModuleSet,
    name: &str,
    control: &ControlProgram,
) -> (r: ObservedRun)
    requires
        control@.wf(),
        callable(*program, name@),
    ensures
        r@ == planned_run(*program, mods.combined_source@, name@, control@),
        trace_in_order(r@),
{
    match validate_interp_program(program) {
        Err(error) => {
            return refuse_run(error);
        },
        Ok(_) => {},
    }
    let interp = Interp {
        control,
        fns: &program.fns,
        classes: &program.classes,
        records: &program.records,
        source: mods.combined_source.as_str(),
    };
    assert(interp@ == code_of(*program, mods.combined_source@, control@));
    let i: usize = match find_fn(&program.fns, name) {
        Some(i) => i,
        None => 0,
    };
    let mut m = Machine::new(FUEL);
    proof {
        lemma_select_is_orderly(0);
    }
    let none: Vec<RtVal> = Vec::new();
    assert(views(none@) =~= Seq::empty());
    let outcome = match interp.call(&program.fns[i], &none, &mut m) {
        Ok(v) => Ok(v),
        Err(t) => {
            if t.undef {
                Err(cat2("undef: ", t.message.as_str()))
            } else {
                Err(t.message)
            }
        },
    };
    assert(orderly(m@.uart));
    match m.uart {
        None => {
            let events: Vec<MmioEvent> = Vec::new();
            assert(events@ =~= Seq::empty());
            ObservedRun {
                outcome,
                mmio: events,
                uart_profile: None,
                uart_cursor: 0,
                heap: m.heap,
            }
        },
        Some(uart) => {
            proof {
                reveal(orderly);
                lemma_reads_bound(uart.events@, uart.events@.len());
                assert(uart.events.len() <= usize::MAX);
            }
            ObservedRun {
                outcome,
                mmio: uart.events,
                uart_profile: Some(uart.script),
                uart_cursor: uart.cursor,
                heap: m.heap,
            }
        },
    }
}

/// What a run returned: a value, and the storage that it may name.
#[derive(Debug)]
pub struct Returned {
    pub value: RtVal,
    pub heap: Heap,
}

pub ghost struct ReturnedV {
    pub value: ValV,
    pub heap: HeapV,
}

impl View for Returned {
    type V = ReturnedV;

    open spec fn view(&self) -> ReturnedV {
        ReturnedV { value: self.value@, heap: self.heap@ }
    }
}

impl ReturnedV {
    /// The array that was returned, or that a returned owning option holds.
    pub open spec fn array(self) -> Option<ArrV> {
        match self.value {
            ValV::Arr(id) => self.heap.array(id),
            ValV::AffineOptBoolArray(Some(id)) => self.heap.array(id),
            _ => None,
        }
    }

    /// The fields of the object or record that was returned, or of the object that a returned
    /// owning option holds.
    pub open spec fn fields(self) -> Option<FieldsV> {
        match self.value {
            ValV::Obj { fields, .. } => self.heap.object(fields),
            ValV::AffineOptClass { value: Some(fields), .. } => self.heap.object(fields),
            ValV::Record { fields, .. } => Some(fields),
            _ => None,
        }
    }

    /// The keys of the resource map that was returned.
    pub open spec fn keys(self) -> Option<Seq<i128>> {
        match self.value {
            ValV::ResMap(id) => self.heap.map(id),
            _ => None,
        }
    }
}

impl Returned {
    pub fn array(&self) -> (r: Option<&RtArray>)
        ensures
            opt_view(r) == self@.array(),
    {
        match &self.value {
            RtVal::Arr(id) => self.heap.array(*id),
            RtVal::AffineOptBoolArray(Some(id)) => self.heap.array(*id),
            _ => None,
        }
    }

    pub fn fields(&self) -> (r: Option<&Vec<Binding<RtVal>>>)
        ensures
            match self@.fields() {
                Some(fields) => r matches Some(x) && views(x@) == fields,
                None => r is None,
            },
    {
        broadcast use lemma_record_view;

        match &self.value {
            RtVal::Obj { fields, .. } => self.heap.object(*fields),
            RtVal::AffineOptClass { value: Some(fields), .. } => self.heap.object(*fields),
            RtVal::Record { fields, .. } => Some(fields),
            _ => None,
        }
    }

    pub fn keys(&self) -> (r: Option<&Vec<i128>>)
        ensures
            opt_view(r) == self@.keys(),
    {
        match &self.value {
            RtVal::ResMap(id) => {
                if *id < self.heap.maps.len() {
                    Some(&self.heap.maps[*id].keys)
                } else {
                    None
                }
            },
            _ => None,
        }
    }
}

/// What a run hands its caller.
pub open spec fn returned(run: RunV) -> Result<ReturnedV, Seq<char>> {
    match run.outcome {
        Ok(value) => Ok(ReturnedV { value, heap: run.heap }),
        Err(e) => Err(e),
    }
}

/// A computed result stands for a stated one, with its storage.
pub open spec fn hands_over(r: Result<Returned, String>, s: Result<ReturnedV, Seq<char>>) -> bool {
    match s {
        Ok(v) => r matches Ok(x) && x@ == v,
        Err(e) => r matches Err(x) && x@ == e,
    }
}

fn hand_over(run: ObservedRun) -> (r: Result<Returned, String>)
    ensures
        hands_over(r, returned(run@)),
{
    match run.outcome {
        Ok(value) => Ok(Returned { value, heap: run.heap }),
        Err(e) => Err(e),
    }
}

/// Runs a function under the plan that was sealed with its program.
pub fn run_checked_fn(checked: &CheckedProgram, mods: &ModuleSet, name: &str) -> (r: Result<
    Returned,
    String,
>)
    requires
        checked.wf(),
        callable(checked.program, name@),
    ensures
        hands_over(
            r,
            returned(
                planned_run(
                    checked.program,
                    mods.combined_source@,
                    name@,
                    checked.control@,
                ),
            ),
        ),
{
    hand_over(run_fn_observed_with_control(checked.program(), mods, name, checked.control()))
}

/// Runs a function under the plan that travelled through verification with its program.
pub fn run_verified_fn(verified: &VerifiedProgram, mods: &ModuleSet, name: &str) -> (r: Result<
    Returned,
    String,
>)
    requires
        verified.checked.wf(),
        callable(verified.checked.program, name@),
    ensures
        hands_over(
            r,
            returned(
                planned_run(
                    verified.checked.program,
                    mods.combined_source@,
                    name@,
                    verified.checked.control@,
                ),
            ),
        ),
{
    hand_over(run_fn_observed_with_control(verified.program(), mods, name, verified.control()))
}

pub fn run_checked_fn_observed(checked: &CheckedProgram, mods: &ModuleSet, name: &str) -> (r:
    ObservedRun)
    requires
        checked.wf(),
        callable(checked.program, name@),
    ensures
        r@ == planned_run(
            checked.program,
            mods.combined_source@,
            name@,
            checked.control@,
        ),
        trace_in_order(r@),
{
    run_fn_observed_with_control(checked.program(), mods, name, checked.control())
}

/// Plans a program that nobody sealed, and runs a function of it.
pub fn run_unchecked_fn_observed(program: &Program, mods: &ModuleSet, name: &str) -> (r: ObservedRun)
    requires
        callable(*program, name@),
    ensures
        r@ == program_run(*program, mods.combined_source@, name@),
        trace_in_order(r@),
{
    match ControlProgram::build(program) {
        Err(e) => refuse_run(control_plan_message(&e)),
        Ok(control) => run_fn_observed_with_control(program, mods, name, &control),
    }
}

pub fn run_unchecked_fn(program: &Program, mods: &ModuleSet, name: &str) -> (r: Result<
    Returned,
    String,
>)
    requires
        callable(*program, name@),
    ensures
        hands_over(r, returned(program_run(*program, mods.combined_source@, name@))),
{
    hand_over(run_unchecked_fn_observed(program, mods, name))
}

} // verus!
