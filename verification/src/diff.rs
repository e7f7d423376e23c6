//! Running a table of test cases against one program: how outputs are
//! compared and what the report of a run holds.
//!
//! The caller runs the program; a [`TestRun`] says which case is next, takes
//! the outcome of each run and keeps the report.

use crate::process::{option_view, run_result_view, RunError, RunErrorView};
use crate::testcase::{cases_view, TestCase, TestCaseView};
use crate::text::{
    chars_of, crlf_to_lf, decimal, decimal_string, has_crlf, lemma_crlf_to_lf_len,
    lemma_crlf_to_lf_unchanged, lemma_trim_ends, lemma_trim_idempotent, replace_crlf, string_of,
    trim, trim_bounds,
};
use vstd::prelude::*;

verus! {

/// The form in which outputs are compared: each `"\r\n"` replaced by `"\n"`,
/// then trimmed.
pub open spec fn normalized(s: Seq<char>) -> Seq<char> {
    trim(crlf_to_lf(s))
}

/// Normalizing is idempotent on every text whose normal form holds no
/// carriage return directly before a line feed.
pub proof fn lemma_normalized_idempotent(s: Seq<char>)
    requires
        !has_crlf(normalized(s)),
    ensures
        normalized(normalized(s)) == normalized(s),
{
    lemma_crlf_to_lf_unchanged(normalized(s));
    lemma_trim_idempotent(crlf_to_lf(s));
}

/// On every other text it is not: the second pass makes the text shorter.
pub proof fn lemma_normalized_not_idempotent(s: Seq<char>)
    requires
        has_crlf(normalized(s)),
    ensures
        normalized(normalized(s)).len() < normalized(s).len(),
{
    lemma_crlf_to_lf_len(normalized(s));
    lemma_trim_ends(crlf_to_lf(normalized(s)));
}

/// The normal form of `s`.
pub fn normalize_output(s: &str) -> (r: String)
    ensures
        r@ == normalized(s@),
{
    let v = chars_of(s);
    let w = replace_crlf(&v);
    let (a, b) = trim_bounds(&w);
    string_of(&w, a, b)
}

/// Tells whether two outputs are equal in normal form.
pub fn outputs_match(actual: &str, expected: &str) -> (r: bool)
    ensures
        r == (normalized(actual@) == normalized(expected@)),
{
    normalize_output(actual) == normalize_output(expected)
}

/// What kind of failure a test case ended in.
#[derive(Clone, Copy, Debug, PartialEq, Eq, Structural)]
pub enum FailureKind {
    /// The program ran and its output differs from the expected one.
    Mismatch,
    /// The program could not be run to a successful end.
    Error,
}

/// How one test case ended.
#[derive(Clone, Copy, Debug, PartialEq, Eq, Structural)]
pub enum Verdict {
    Pass,
    Fail,
    Error,
}

/// One failed test case.
#[derive(Debug)]
pub struct TestFailure {
    /// The position of the case in the suite, counted from 1.
    pub index: usize,
    pub name: String,
    pub input: String,
    /// The expected output in normal form; empty for an error.
    pub expected: String,
    /// The actual output in normal form, or the error in words.
    pub actual: String,
    pub kind: FailureKind,
    /// Where the caller stored the actual output or the error, if it did.
    pub artifact: Option<String>,
}

/// A failed test case as plain values.
pub struct TestFailureView {
    pub index: nat,
    pub name: Seq<char>,
    pub input: Seq<char>,
    pub expected: Seq<char>,
    pub actual: Seq<char>,
    pub kind: FailureKind,
    pub artifact: Option<Seq<char>>,
}

impl View for TestFailure {
    type V = TestFailureView;

    open spec fn view(&self) -> TestFailureView {
        TestFailureView {
            index: self.index as nat,
            name: self.name@,
            input: self.input@,
            expected: self.expected@,
            actual: self.actual@,
            kind: self.kind,
            artifact: option_view(self.artifact),
        }
    }
}

impl TestFailureView {
    /// The failure written out in full: position and name, the input, and
    /// the error or the expected and the actual output.
    pub open spec fn details(self) -> Seq<char> {
        "FAILED TEST "@ + decimal(self.index) + " "@ + self.name + "\n\nInput:\n>>>>>\n"@
            + self.input + "\n>>>>>\n\n"@ + match self.kind {
            FailureKind::Error => "Error:\n>>>>>\n"@ + self.actual + "\n>>>>>\n"@,
            FailureKind::Mismatch => "Expected Output:\n>>>>>\n"@ + self.expected
                + "\n>>>>>\n\nActual Output:\n>>>>>\n"@ + self.actual + "\n>>>>>\n"@,
        }
    }
}

impl TestFailure {
    /// The failure written out in full, as it is kept for inspection.
    pub fn details(&self) -> (s: String)
        ensures
            s@ == self@.details(),
    {
        let mut s = "FAILED TEST ".to_owned();
        s.append(decimal_string(self.index as u64).as_str());
        s.append(" ");
        s.append(self.name.as_str());
        s.append("\n\nInput:\n>>>>>\n");
        s.append(self.input.as_str());
        s.append("\n>>>>>\n\n");
        let ghost head = s@;
        match self.kind {
            FailureKind::Error => {
                s.append("Error:\n>>>>>\n");
                s.append(self.actual.as_str());
                s.append("\n>>>>>\n");
                proof {
                    assert(s@ =~= head + ("Error:\n>>>>>\n"@ + self.actual@ + "\n>>>>>\n"@));
                }
            },
            FailureKind::Mismatch => {
                s.append("Expected Output:\n>>>>>\n");
                s.append(self.expected.as_str());
                s.append("\n>>>>>\n\nActual Output:\n>>>>>\n");
                s.append(self.actual.as_str());
                s.append("\n>>>>>\n");
                proof {
                    assert(s@ =~= head + ("Expected Output:\n>>>>>\n"@ + self.expected@
                        + "\n>>>>>\n\nActual Output:\n>>>>>\n"@ + self.actual@
                        + "\n>>>>>\n"@));
                }
            },
        }
        s
    }
}

/// The report of a run over a suite.
#[derive(Debug)]
pub struct TestRunReport {
    /// The number of cases in the suite.
    pub total: usize,
    /// The number of cases that passed.
    pub passed: usize,
    /// The cases that did not, in the order of the suite.
    pub failures: Vec<TestFailure>,
}

/// A report as plain values.
pub struct TestRunReportView {
    pub total: nat,
    pub passed: nat,
    pub failures: Seq<TestFailureView>,
}

/// The views of the failures held in `v`.
pub open spec fn failures_view(v: Seq<TestFailure>) -> Seq<TestFailureView> {
    Seq::new(v.len(), |i: int| v[i]@)
}

impl View for TestRunReport {
    type V = TestRunReportView;

    open spec fn view(&self) -> TestRunReportView {
        TestRunReportView {
            total: self.total as nat,
            passed: self.passed as nat,
            failures: failures_view(self.failures@),
        }
    }
}

impl TestRunReport {
    /// Every case of the suite passed.
    pub fn all_passed(&self) -> (r: bool)
        ensures
            r == (self@.failures.len() == 0),
    {
        self.failures.len() == 0
    }
}

/// What the caller hands in for one case: the outcome of the run and where
/// it stored the output or the error.
pub struct Recorded {
    pub result: Result<Seq<char>, RunErrorView>,
    pub artifact: Option<Seq<char>>,
}

/// The case passes: the program ran and its output equals the expected one
/// in normal form.
pub open spec fn case_passes(case: TestCaseView, result: Result<Seq<char>, RunErrorView>) -> bool {
    match result {
        Ok(out) => normalized(out) == normalized(case.expected_output),
        Err(_) => false,
    }
}

/// How a case ended whose run gave `result`.
pub open spec fn verdict_of(case: TestCaseView, result: Result<Seq<char>, RunErrorView>) -> Verdict {
    match result {
        Ok(out) => if normalized(out) == normalized(case.expected_output) {
            Verdict::Pass
        } else {
            Verdict::Fail
        },
        Err(_) => Verdict::Error,
    }
}

/// The entry that the report gets for a case that did not pass.
pub open spec fn failure_of(index: nat, case: TestCaseView, rec: Recorded) -> TestFailureView {
    match rec.result {
        Ok(out) => TestFailureView {
            index,
            name: case.name,
            input: case.input,
            expected: normalized(case.expected_output),
            actual: normalized(out),
            kind: FailureKind::Mismatch,
            artifact: rec.artifact,
        },
        Err(e) => TestFailureView {
            index,
            name: case.name,
            input: case.input,
            expected: Seq::empty(),
            actual: e.message(),
            kind: FailureKind::Error,
            artifact: rec.artifact,
        },
    }
}

/// The report after the first `recs.len()` cases of `cases` ended as
/// `recs` says. A failure does not stop the run: every case counts.
pub open spec fn report_of(cases: Seq<TestCaseView>, recs: Seq<Recorded>) -> TestRunReportView
    decreases recs.len(),
{
    if recs.len() == 0 {
        TestRunReportView { total: cases.len(), passed: 0, failures: Seq::empty() }
    } else {
        let before = report_of(cases, recs.drop_last());
        let i = recs.len() - 1;
        if i >= cases.len() {
            before
        } else if case_passes(cases[i], recs.last().result) {
            TestRunReportView { passed: before.passed + 1, ..before }
        } else {
            TestRunReportView {
                failures: before.failures.push(failure_of((i + 1) as nat, cases[i], recs.last())),
                ..before
            }
        }
    }
}

/// The report counts every case that ran once, as passed or as a failure.
pub proof fn lemma_report_counts(cases: Seq<TestCaseView>, recs: Seq<Recorded>)
    requires
        recs.len() <= cases.len(),
    ensures
        report_of(cases, recs).total == cases.len(),
        report_of(cases, recs).passed + report_of(cases, recs).failures.len() == recs.len(),
    decreases recs.len(),
{
    if recs.len() > 0 {
        lemma_report_counts(cases, recs.drop_last());
    }
}

/// Each failure of the report stands for a case that did not pass, names
/// its position, and holds what `failure_of` says of it.
pub proof fn lemma_report_failure(cases: Seq<TestCaseView>, recs: Seq<Recorded>, k: int)
    requires
        recs.len() <= cases.len(),
        0 <= k < report_of(cases, recs).failures.len(),
    ensures
        1 <= report_of(cases, recs).failures[k].index <= recs.len(),
        !case_passes(
            cases[report_of(cases, recs).failures[k].index - 1],
            recs[report_of(cases, recs).failures[k].index - 1].result,
        ),
        report_of(cases, recs).failures[k] == failure_of(
            report_of(cases, recs).failures[k].index,
            cases[report_of(cases, recs).failures[k].index - 1],
            recs[report_of(cases, recs).failures[k].index - 1],
        ),
    decreases recs.len(),
{
    let prev = recs.drop_last();
    let before = report_of(cases, prev);
    if k < before.failures.len() {
        lemma_report_failure(cases, prev, k);
        let f = before.failures[k];
        assert(report_of(cases, recs).failures[k] == f);
        assert(prev[f.index - 1] == recs[f.index - 1]);
    }
}

/// The failures stand in the order of the suite.
pub proof fn lemma_report_ordered(cases: Seq<TestCaseView>, recs: Seq<Recorded>, j: int, k: int)
    requires
        recs.len() <= cases.len(),
        0 <= j < k < report_of(cases, recs).failures.len(),
    ensures
        report_of(cases, recs).failures[j].index < report_of(cases, recs).failures[k].index,
    decreases recs.len(),
{
    let prev = recs.drop_last();
    let before = report_of(cases, prev);
    assert(report_of(cases, recs).failures[j] == before.failures[j]);
    if k < before.failures.len() {
        lemma_report_ordered(cases, prev, j, k);
    } else {
        lemma_report_failure(cases, prev, j);
    }
}

/// Every case that did not pass has its failure in the report.
pub proof fn lemma_report_covers(cases: Seq<TestCaseView>, recs: Seq<Recorded>, i: int) -> (k: int)
    requires
        recs.len() <= cases.len(),
        0 <= i < recs.len(),
        !case_passes(cases[i], recs[i].result),
    ensures
        0 <= k < report_of(cases, recs).failures.len(),
        report_of(cases, recs).failures[k].index == i + 1,
    decreases recs.len(),
{
    let prev = recs.drop_last();
    let before = report_of(cases, prev);
    if i < recs.len() - 1 {
        assert(prev[i] == recs[i]);
        let k = lemma_report_covers(cases, prev, i);
        assert(report_of(cases, recs).failures[k] == before.failures[k]);
        k
    } else {
        before.failures.len() as int
    }
}

/// A run of a suite against one program, case by case.
pub struct TestRun {
    suite: Vec<TestCase>,
    next: usize,
    passed: usize,
    failures: Vec<TestFailure>,
    recs: Ghost<Seq<Recorded>>,
}

impl TestRun {
    #[verifier::type_invariant]
    spec fn inv(self) -> bool {
        &&& self.next == self.recs@.len()
        &&& self.next <= self.suite.len()
        &&& self.passed + self.failures.len() == self.next
        &&& report_of(cases_view(self.suite@), self.recs@) == TestRunReportView {
            total: self.suite.len() as nat,
            passed: self.passed as nat,
            failures: failures_view(self.failures@),
        }
    }

    /// The cases of the suite.
    pub closed spec fn cases(self) -> Seq<TestCaseView> {
        cases_view(self.suite@)
    }

    /// What was recorded so far, one entry for each case that ran.
    pub closed spec fn recorded(self) -> Seq<Recorded> {
        self.recs@
    }

    /// All cases ran.
    pub open spec fn spec_finished(self) -> bool {
        self.recorded().len() >= self.cases().len()
    }

    /// A run over `suite` in which no case ran yet.
    pub fn new(suite: Vec<TestCase>) -> (run: TestRun)
        ensures
            run.cases() == cases_view(suite@),
            run.recorded() == Seq::<Recorded>::empty(),
    {
        let failures: Vec<TestFailure> = Vec::new();
        proof {
            assert(failures_view(failures@) =~= Seq::<TestFailureView>::empty());
        }
        TestRun { suite, next: 0, passed: 0, failures, recs: Ghost(Seq::empty()) }
    }

    /// All cases ran.
    pub fn finished(&self) -> (r: bool)
        ensures
            r == self.spec_finished(),
            self.recorded().len() <= self.cases().len(),
    {
        proof {
            use_type_invariant(self);
        }
        self.next >= self.suite.len()
    }

    /// The case to run next with its position, counted from 1, or `None`
    /// when all cases ran. Cases run in the order of the suite, whatever the
    /// earlier ones gave.
    pub fn pending(&self) -> (r: Option<(usize, &TestCase)>)
        ensures
            self.spec_finished() <==> r is None,
            r matches Some(p) ==> p.0 == self.recorded().len() + 1 && p.1@ == self.cases()[
                self.recorded().len() as int
            ],
    {
        proof {
            use_type_invariant(self);
        }
        if self.next < self.suite.len() {
            Some((self.next + 1, &self.suite[self.next]))
        } else {
            None
        }
    }

    /// Takes the outcome of running the pending case, and where the caller
    /// stored the output or the error. Returns the run with that case
    /// recorded and how the case ended, or the run as it was and `None` if
    /// no case was pending.
    pub fn record(self, result: Result<String, RunError>, artifact: Option<String>) -> (r: (
        TestRun,
        Option<Verdict>,
    ))
        ensures
            r.0.cases() == self.cases(),
            self.spec_finished() ==> r.1 is None && r.0.recorded() == self.recorded(),
            !self.spec_finished() ==> r.1 == Some(
                verdict_of(self.cases()[self.recorded().len() as int], run_result_view(result)),
            ) && r.0.recorded() == self.recorded().push(
                Recorded { result: run_result_view(result), artifact: option_view(artifact) },
            ),
    {
        proof {
            use_type_invariant(&self);
        }
        if self.next >= self.suite.len() {
            return (self, None);
        }
        let ghost rec = Recorded {
            result: run_result_view(result),
            artifact: option_view(artifact),
        };
        let TestRun { suite, next, passed, failures, recs } = self;
        let mut passed = passed;
        let mut failures = failures;
        let ghost before = recs@;
        let ghost old_failures = failures_view(failures@);
        let case = &suite[next];
        let index = next + 1;
        assert(cases_view(suite@)[next as int] == case@);
        proof {
            assert(before.push(rec).drop_last() =~= before);
        }
        let verdict = match result {
            Ok(raw) => {
                let actual = normalize_output(raw.as_str());
                let expected = normalize_output(case.expected_output.as_str());
                if actual == expected {
                    passed = passed + 1;
                    Verdict::Pass
                } else {
                    let failure = TestFailure {
                        index,
                        name: case.name.clone(),
                        input: case.input.clone(),
                        expected,
                        actual,
                        kind: FailureKind::Mismatch,
                        artifact,
                    };
                    failures.push(failure);
                    proof {
                        assert(failures_view(failures@) =~= old_failures.push(failure@));
                    }
                    Verdict::Fail
                }
            },
            Err(e) => {
                let failure = TestFailure {
                    index,
                    name: case.name.clone(),
                    input: case.input.clone(),
                    expected: String::new(),
                    actual: e.message(),
                    kind: FailureKind::Error,
                    artifact,
                };
                failures.push(failure);
                proof {
                    assert(failures_view(failures@) =~= old_failures.push(failure@));
                }
                Verdict::Error
            },
        };
        (
            TestRun { suite, next: next + 1, passed, failures, recs: Ghost(before.push(rec)) },
            Some(verdict),
        )
    }

    /// The report of the run as far as it went.
    pub fn into_report(self) -> (report: TestRunReport)
        ensures
            report@ == report_of(self.cases(), self.recorded()),
    {
        proof {
            use_type_invariant(&self);
        }
        TestRunReport { total: self.suite.len(), passed: self.passed, failures: self.failures }
    }
}

} // verus!
