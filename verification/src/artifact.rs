//! The names of the files in which inputs and outputs are kept for
//! inspection.

use vstd::prelude::*;

verus! {

/// What a kept file holds.
#[derive(Clone, Copy, Debug, PartialEq, Eq, Structural)]
pub enum ArtifactKind {
    /// The input of a failed test case or of a mismatching seed.
    Input,
    /// The expected output.
    Expected,
    /// The output of the candidate at a mismatching seed.
    Actual,
    /// A failed test case as a whole.
    TestCase,
    /// The output of a test case, in normal form.
    Output,
    /// The error of a run that failed.
    Error,
}

impl ArtifactKind {
    /// What the name of a file of this kind starts with.
    pub open spec fn spec_prefix(self) -> Seq<char> {
        match self {
            ArtifactKind::Input => "input_"@,
            ArtifactKind::Expected => "expected_"@,
            ArtifactKind::Actual => "actual_"@,
            ArtifactKind::TestCase => "testcase_"@,
            ArtifactKind::Output => "output_"@,
            ArtifactKind::Error => "error_"@,
        }
    }

    /// What the name of a file of this kind starts with.
    pub fn prefix(self) -> (r: &'static str)
        ensures
            r@ == self.spec_prefix(),
    {
        match self {
            ArtifactKind::Input => "input_",
            ArtifactKind::Expected => "expected_",
            ArtifactKind::Actual => "actual_",
            ArtifactKind::TestCase => "testcase_",
            ArtifactKind::Output => "output_",
            ArtifactKind::Error => "error_",
        }
    }

    /// What the name of every kept file ends with.
    pub fn suffix() -> (r: &'static str)
        ensures
            r@ == ".txt"@,
    {
        ".txt"
    }
}

} // verus!
