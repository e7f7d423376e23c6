//! Which mode a session runs in: from the command line, or from a named
//! entry of the configuration.

use crate::pattern::{lowercase_of, to_lowercase};
use crate::process::option_view;
use crate::text::{chars_of, same_text, trim, trim_text};
use vstd::prelude::*;

verus! {

/// What a session does, with the files it works on.
#[derive(Debug)]
pub enum Mode {
    /// Compile and run one source whenever it changes.
    Watcher { solution: String },
    /// Compile one source and run it against a table of test cases.
    TestCase { solution: String, testcases: String },
    /// Compare a solution with a brute-force solution on generated inputs.
    Stress { solution: String, generator: String, brute: String },
}

/// A mode as plain text.
pub enum ModeView {
    Watcher { solution: Seq<char> },
    TestCase { solution: Seq<char>, testcases: Seq<char> },
    Stress { solution: Seq<char>, generator: Seq<char>, brute: Seq<char> },
}

impl View for Mode {
    type V = ModeView;

    open spec fn view(&self) -> ModeView {
        match self {
            Mode::Watcher { solution } => ModeView::Watcher { solution: solution@ },
            Mode::TestCase { solution, testcases } => ModeView::TestCase {
                solution: solution@,
                testcases: testcases@,
            },
            Mode::Stress { solution, generator, brute } => ModeView::Stress {
                solution: solution@,
                generator: generator@,
                brute: brute@,
            },
        }
    }
}

/// What a file is to a session.
#[derive(Clone, Copy, Debug, PartialEq, Eq, Structural)]
pub enum Role {
    Solution,
    TestCases,
    Brute,
    Generator,
}

impl Role {
    /// The role in words, as it stands at the start of a message.
    pub open spec fn spec_label(self) -> Seq<char> {
        match self {
            Role::Solution => "Solution"@,
            Role::TestCases => "Test case"@,
            Role::Brute => "Brute force"@,
            Role::Generator => "Generator"@,
        }
    }

    /// The name of the field that holds a file of this role in the
    /// configuration.
    pub open spec fn spec_field(self) -> Seq<char> {
        match self {
            Role::Solution => "solution"@,
            Role::TestCases => "testcases"@,
            Role::Brute => "brute"@,
            Role::Generator => "generator"@,
        }
    }

    /// The name of the field that holds a file of this role in the
    /// configuration.
    pub fn field(self) -> (r: &'static str)
        ensures
            r@ == self.spec_field(),
    {
        match self {
            Role::Solution => "solution",
            Role::TestCases => "testcases",
            Role::Brute => "brute",
            Role::Generator => "generator",
        }
    }

    /// The role in words, as it stands at the start of a message.
    pub fn label(self) -> (r: &'static str)
        ensures
            r@ == self.spec_label(),
    {
        match self {
            Role::Solution => "Solution",
            Role::TestCases => "Test case",
            Role::Brute => "Brute force",
            Role::Generator => "Generator",
        }
    }
}

impl ModeView {
    /// The files of the mode with their roles, in the order in which their
    /// existence is checked.
    pub open spec fn files(self) -> Seq<(Role, Seq<char>)> {
        match self {
            ModeView::Watcher { solution } => seq![(Role::Solution, solution)],
            ModeView::TestCase { solution, testcases } => seq![
                (Role::Solution, solution),
                (Role::TestCases, testcases),
            ],
            ModeView::Stress { solution, generator, brute } => seq![
                (Role::Solution, solution),
                (Role::Brute, brute),
                (Role::Generator, generator),
            ],
        }
    }
}

/// The views of the files held in `v`.
pub open spec fn files_view(v: Seq<(Role, String)>) -> Seq<(Role, Seq<char>)> {
    Seq::new(v.len(), |i: int| (v[i].0, v[i].1@))
}

/// The first file that is not there: the first index of `files` at which
/// `present` holds no `true`.
pub open spec fn first_missing(files: Seq<(Role, Seq<char>)>, present: Seq<bool>) -> Option<int>
    decreases files.len(),
{
    if files.len() == 0 {
        None
    } else {
        match first_missing(files.drop_last(), present) {
            Some(i) => Some(i),
            None => {
                let last = files.len() - 1;
                if last < present.len() && present[last] {
                    None
                } else {
                    Some(last)
                }
            },
        }
    }
}

/// A file that a mode needs and that does not exist.
#[derive(Debug)]
pub struct MissingFile {
    pub role: Role,
    pub path: String,
}

impl MissingFile {
    /// The finding in words.
    pub open spec fn spec_message(role: Role, path: Seq<char>) -> Seq<char> {
        role.spec_label() + " file '"@ + path + "' not found"@
    }

    /// The warning for a file that a section of the configuration names.
    pub open spec fn spec_warning(role: Role, path: Seq<char>, section: Seq<char>) -> Seq<char> {
        "Warning: "@ + section + " "@ + role.spec_field() + " file '"@ + path + "' not found"@
    }

    /// The warning for a file that `section` of the configuration names.
    pub fn warning(&self, section: &str) -> (s: String)
        ensures
            s@ == Self::spec_warning(self.role, self.path@, section@),
    {
        let mut s = "Warning: ".to_owned();
        s.append(section);
        s.append(" ");
        s.append(self.role.field());
        s.append(" file '");
        s.append(self.path.as_str());
        s.append("' not found");
        s
    }

    /// The finding in words.
    pub fn message(&self) -> (s: String)
        ensures
            s@ == Self::spec_message(self.role, self.path@),
    {
        let mut s = self.role.label().to_owned();
        s.append(" file '");
        s.append(self.path.as_str());
        s.append("' not found");
        s
    }
}

impl Mode {
    /// The files of the mode with their roles, in the order in which their
    /// existence is checked.
    pub fn files(&self) -> (r: Vec<(Role, String)>)
        ensures
            files_view(r@) == self@.files(),
    {
        let mut r: Vec<(Role, String)> = Vec::new();
        match self {
            Mode::Watcher { solution } => {
                r.push((Role::Solution, solution.clone()));
            },
            Mode::TestCase { solution, testcases } => {
                r.push((Role::Solution, solution.clone()));
                r.push((Role::TestCases, testcases.clone()));
            },
            Mode::Stress { solution, generator, brute } => {
                r.push((Role::Solution, solution.clone()));
                r.push((Role::Brute, brute.clone()));
                r.push((Role::Generator, generator.clone()));
            },
        }
        proof {
            assert(files_view(r@) =~= self@.files());
        }
        r
    }

    /// The first file of the mode that does not exist, where `present` tells
    /// of each file of `files()` whether it exists. A file of which
    /// `present` tells nothing counts as missing.
    pub fn missing_file(&self, present: &Vec<bool>) -> (r: Option<MissingFile>)
        ensures
            match first_missing(self@.files(), present@) {
                Some(i) => r matches Some(m) && m.role == self@.files()[i].0 && m.path@
                    == self@.files()[i].1,
                None => r is None,
            },
    {
        let files = self.files();
        let ghost all = files_view(files@);
        let mut i: usize = 0;
        while i < files.len()
            invariant
                i <= files.len(),
                all == files_view(files@),
                all == self@.files(),
                first_missing(all.take(i as int), present@) is None,
            decreases files.len() - i,
        {
            proof {
                assert(all.take(i + 1).drop_last() =~= all.take(i as int));
            }
            if !(i < present.len() && present[i]) {
                proof {
                    assert(first_missing(all.take(i + 1), present@) == Some(i as int));
                    lemma_first_missing_stays(all, present@, i + 1);
                }
                return Some(MissingFile { role: files[i].0, path: files[i].1.clone() });
            }
            i += 1;
        }
        proof {
            assert(all.take(files.len() as int) =~= all);
        }
        None
    }
}

/// A missing file found among the first `n` files is the first missing file
/// of all.
pub proof fn lemma_first_missing_stays(files: Seq<(Role, Seq<char>)>, present: Seq<bool>, n: int)
    requires
        0 <= n <= files.len(),
        first_missing(files.take(n), present) is Some,
    ensures
        first_missing(files, present) == first_missing(files.take(n), present),
    decreases files.len() - n,
{
    if n < files.len() {
        assert(files.take(n + 1).drop_last() =~= files.take(n));
        lemma_first_missing_stays(files, present, n + 1);
    } else {
        assert(files.take(n) =~= files);
    }
}

/// A named entry of the configuration.
#[derive(Debug)]
pub struct CustomConfig {
    pub mode: String,
    pub solution: String,
    pub testcases: String,
    pub brute: String,
    pub generator: String,
}

/// A named entry as plain text.
pub struct CustomConfigView {
    pub mode: Seq<char>,
    pub solution: Seq<char>,
    pub testcases: Seq<char>,
    pub brute: Seq<char>,
    pub generator: Seq<char>,
}

impl View for CustomConfig {
    type V = CustomConfigView;

    open spec fn view(&self) -> CustomConfigView {
        CustomConfigView {
            mode: self.mode@,
            solution: self.solution@,
            testcases: self.testcases@,
            brute: self.brute@,
            generator: self.generator@,
        }
    }
}

/// Why a named entry of the configuration cannot be used.
#[derive(Debug)]
pub enum ConfigError {
    /// A watcher entry names no solution.
    MissingSolution,
    /// A test-case entry lacks its solution or its test cases.
    MissingTestCaseFields,
    /// A stress entry lacks one of its three files.
    MissingStressFields,
    /// The entry asks for a mode that there is not.
    InvalidMode { mode: String },
}

/// A configuration error as plain text.
pub enum ConfigErrorView {
    MissingSolution,
    MissingTestCaseFields,
    MissingStressFields,
    InvalidMode { mode: Seq<char> },
}

impl View for ConfigError {
    type V = ConfigErrorView;

    open spec fn view(&self) -> ConfigErrorView {
        match self {
            ConfigError::MissingSolution => ConfigErrorView::MissingSolution,
            ConfigError::MissingTestCaseFields => ConfigErrorView::MissingTestCaseFields,
            ConfigError::MissingStressFields => ConfigErrorView::MissingStressFields,
            ConfigError::InvalidMode { mode } => ConfigErrorView::InvalidMode { mode: mode@ },
        }
    }
}

impl ConfigErrorView {
    /// The error in words, for the entry called `name`.
    pub open spec fn message(self, name: Seq<char>) -> Seq<char> {
        match self {
            ConfigErrorView::MissingSolution => "Custom config '"@ + name
                + "' missing solution field"@,
            ConfigErrorView::MissingTestCaseFields => "Custom config '"@ + name
                + "' missing solution or testcases field"@,
            ConfigErrorView::MissingStressFields => "Custom config '"@ + name
                + "' missing required fields for stress mode"@,
            ConfigErrorView::InvalidMode { mode } => "Invalid mode '"@ + mode
                + "' in custom config '"@ + name + "'"@,
        }
    }
}

impl ConfigError {
    /// The error in words, for the entry called `name`.
    pub fn message(&self, name: &str) -> (s: String)
        ensures
            s@ == self@.message(name@),
    {
        match self {
            ConfigError::MissingSolution => {
                let mut s = "Custom config '".to_owned();
                s.append(name);
                s.append("' missing solution field");
                s
            },
            ConfigError::MissingTestCaseFields => {
                let mut s = "Custom config '".to_owned();
                s.append(name);
                s.append("' missing solution or testcases field");
                s
            },
            ConfigError::MissingStressFields => {
                let mut s = "Custom config '".to_owned();
                s.append(name);
                s.append("' missing required fields for stress mode");
                s
            },
            ConfigError::InvalidMode { mode } => {
                let mut s = "Invalid mode '".to_owned();
                s.append(mode.as_str());
                s.append("' in custom config '");
                s.append(name);
                s.append("'");
                s
            },
        }
    }
}

/// The mode that a named entry asks for: `watcher`, `testcase` or `stress`,
/// each with the files it needs; an entry that leaves one of them empty, or
/// names another mode, is refused.
pub open spec fn spec_custom_mode(c: CustomConfigView) -> Result<ModeView, ConfigErrorView> {
    if c.mode == "watcher"@ {
        if c.solution.len() == 0 {
            Err(ConfigErrorView::MissingSolution)
        } else {
            Ok(ModeView::Watcher { solution: c.solution })
        }
    } else if c.mode == "testcase"@ {
        if c.solution.len() == 0 || c.testcases.len() == 0 {
            Err(ConfigErrorView::MissingTestCaseFields)
        } else {
            Ok(ModeView::TestCase { solution: c.solution, testcases: c.testcases })
        }
    } else if c.mode == "stress"@ {
        if c.solution.len() == 0 || c.brute.len() == 0 || c.generator.len() == 0 {
            Err(ConfigErrorView::MissingStressFields)
        } else {
            Ok(ModeView::Stress { solution: c.solution, generator: c.generator, brute: c.brute })
        }
    } else {
        Err(ConfigErrorView::InvalidMode { mode: c.mode })
    }
}

/// The outcome of choosing a mode as plain text.
pub open spec fn mode_view(r: Result<Mode, ConfigError>) -> Result<ModeView, ConfigErrorView> {
    match r {
        Ok(m) => Ok(m@),
        Err(e) => Err(e@),
    }
}

/// The mode that a named entry of the configuration asks for.
pub fn custom_mode(config: &CustomConfig) -> (r: Result<Mode, ConfigError>)
    ensures
        mode_view(r) == spec_custom_mode(config@),
{
    let mode = config.mode.as_str();
    if same_text(mode, "watcher") {
        if config.solution.as_str().is_empty() {
            Err(ConfigError::MissingSolution)
        } else {
            Ok(Mode::Watcher { solution: config.solution.clone() })
        }
    } else if same_text(mode, "testcase") {
        if config.solution.as_str().is_empty() || config.testcases.as_str().is_empty() {
            Err(ConfigError::MissingTestCaseFields)
        } else {
            Ok(
                Mode::TestCase {
                    solution: config.solution.clone(),
                    testcases: config.testcases.clone(),
                },
            )
        }
    } else if same_text(mode, "stress") {
        if config.solution.as_str().is_empty() || config.brute.as_str().is_empty()
            || config.generator.as_str().is_empty() {
            Err(ConfigError::MissingStressFields)
        } else {
            Ok(
                Mode::Stress {
                    solution: config.solution.clone(),
                    generator: config.generator.clone(),
                    brute: config.brute.clone(),
                },
            )
        }
    } else {
        Err(ConfigError::InvalidMode { mode: config.mode.clone() })
    }
}

/// The name of a configuration entry on the command line: the first
/// argument behind the program's name, unless it starts with `-`.
pub open spec fn spec_custom_name(args: Seq<Seq<char>>) -> Option<Seq<char>> {
    if args.len() > 1 && !(args[1].len() > 0 && args[1][0] == '-') {
        Some(args[1])
    } else {
        None
    }
}

/// The name of a configuration entry on the command line, if the first
/// argument can be one.
pub fn custom_name(args: &Vec<String>) -> (r: Option<String>)
    ensures
        option_view(r) == spec_custom_name(crate::text::strings_view(args@)),
{
    if args.len() > 1 {
        let first = chars_of(args[1].as_str());
        if first.len() > 0 && first[0] == '-' {
            None
        } else {
            Some(args[1].clone())
        }
    } else {
        None
    }
}

/// What the command line asks for.
#[derive(Debug)]
pub struct CommandLine {
    /// `--input`
    pub input: Option<String>,
    /// `--test-cases`
    pub test_cases: Option<String>,
    /// `--generator` and `--brute`, which come together: the generator
    /// first.
    pub stress: Option<(String, String)>,
    /// `--auto-test` was given; `auto_test_pattern` holds its value.
    pub auto_test: bool,
    pub auto_test_pattern: Option<String>,
    /// `--auto-stress` was given; `auto_stress_pattern` holds its value.
    pub auto_stress: bool,
    pub auto_stress_pattern: Option<String>,
}

/// A command line as plain text.
pub struct CommandLineView {
    pub input: Option<Seq<char>>,
    pub test_cases: Option<Seq<char>>,
    pub stress: Option<(Seq<char>, Seq<char>)>,
    pub auto_test: bool,
    pub auto_test_pattern: Option<Seq<char>>,
    pub auto_stress: bool,
    pub auto_stress_pattern: Option<Seq<char>>,
}

impl View for CommandLine {
    type V = CommandLineView;

    open spec fn view(&self) -> CommandLineView {
        CommandLineView {
            input: option_view(self.input),
            test_cases: option_view(self.test_cases),
            stress: match self.stress {
                Some(pair) => Some((pair.0@, pair.1@)),
                None => None,
            },
            auto_test: self.auto_test,
            auto_test_pattern: option_view(self.auto_test_pattern),
            auto_stress: self.auto_stress,
            auto_stress_pattern: option_view(self.auto_stress_pattern),
        }
    }
}

/// What a command line selects.
#[derive(Debug)]
pub enum Selection {
    /// Find the files of a test session, with this pattern.
    AutoTest { pattern: Option<String> },
    /// Find the files of a stress session, with this pattern.
    AutoStress { pattern: Option<String> },
    /// Run in this mode.
    Run { mode: Mode },
}

/// A selection as plain text.
pub enum SelectionView {
    AutoTest { pattern: Option<Seq<char>> },
    AutoStress { pattern: Option<Seq<char>> },
    Run { mode: ModeView },
}

impl View for Selection {
    type V = SelectionView;

    open spec fn view(&self) -> SelectionView {
        match self {
            Selection::AutoTest { pattern } => SelectionView::AutoTest {
                pattern: option_view(*pattern),
            },
            Selection::AutoStress { pattern } => SelectionView::AutoStress {
                pattern: option_view(*pattern),
            },
            Selection::Run { mode } => SelectionView::Run { mode: mode@ },
        }
    }
}

/// Why a command line selects nothing.
#[derive(Clone, Copy, Debug, PartialEq, Eq, Structural)]
pub enum SelectionError {
    /// Neither an input file nor an automatic mode was given.
    NoInput,
}

impl SelectionError {
    /// The error in words.
    pub open spec fn spec_message(self) -> Seq<char> {
        "Error: No input file specified. Use -i option or one of the auto modes (-t or -s)."@
    }

    /// The error in words.
    pub fn message(self) -> (s: &'static str)
        ensures
            s@ == self.spec_message(),
    {
        "Error: No input file specified. Use -i option or one of the auto modes (-t or -s)."
    }
}

/// What a command line selects: an automatic mode where one is asked for,
/// the test mode first; else, for the input file, a stress session where a
/// generator is given, a test session where a table of test cases is given,
/// and the simple watch mode otherwise.
pub open spec fn spec_select(c: CommandLineView) -> Result<SelectionView, SelectionError> {
    if c.auto_test {
        Ok(SelectionView::AutoTest { pattern: c.auto_test_pattern })
    } else if c.auto_stress {
        Ok(SelectionView::AutoStress { pattern: c.auto_stress_pattern })
    } else {
        match c.input {
            None => Err(SelectionError::NoInput),
            Some(solution) => match c.stress {
                Some(pair) => Ok(
                    SelectionView::Run {
                        mode: ModeView::Stress { solution, generator: pair.0, brute: pair.1 },
                    },
                ),
                None => match c.test_cases {
                    Some(testcases) => Ok(
                        SelectionView::Run { mode: ModeView::TestCase { solution, testcases } },
                    ),
                    None => Ok(SelectionView::Run { mode: ModeView::Watcher { solution } }),
                },
            },
        }
    }
}

/// Decides what a command line selects.
pub fn select(line: CommandLine) -> (r: Result<Selection, SelectionError>)
    ensures
        match r {
            Ok(s) => Ok(s@),
            Err(e) => Err(e),
        } == spec_select(line@),
{
    if line.auto_test {
        return Ok(Selection::AutoTest { pattern: line.auto_test_pattern });
    }
    if line.auto_stress {
        return Ok(Selection::AutoStress { pattern: line.auto_stress_pattern });
    }
    let solution = match line.input {
        Some(solution) => solution,
        None => {
            return Err(SelectionError::NoInput);
        },
    };
    match line.stress {
        Some(pair) => Ok(
            Selection::Run { mode: Mode::Stress { solution, generator: pair.0, brute: pair.1 } },
        ),
        None => match line.test_cases {
            Some(testcases) => Ok(Selection::Run { mode: Mode::TestCase { solution, testcases } }),
            None => Ok(Selection::Run { mode: Mode::Watcher { solution } }),
        },
    }
}

/// What is wrong with a source file.
#[derive(Clone, Copy, Debug, PartialEq, Eq, Structural)]
pub enum SourceProblem {
    Missing,
    NotCpp,
}

/// What is wrong with a source file that exists or not and has this
/// extension: it must exist and be a `.cpp` file.
pub open spec fn spec_source_problem(exists: bool, extension: Option<Seq<char>>) -> Option<
    SourceProblem,
> {
    if !exists {
        Some(SourceProblem::Missing)
    } else if extension != Some("cpp"@) {
        Some(SourceProblem::NotCpp)
    } else {
        None
    }
}

/// Checks a source file by what the caller found out about it.
pub fn source_problem(exists: bool, extension: Option<&str>) -> (r: Option<SourceProblem>)
    ensures
        r == spec_source_problem(exists, crate::discover::pattern_view(extension)),
{
    if !exists {
        return Some(SourceProblem::Missing);
    }
    match extension {
        Some(e) => {
            if same_text(e, "cpp") {
                None
            } else {
                Some(SourceProblem::NotCpp)
            }
        },
        None => Some(SourceProblem::NotCpp),
    }
}

/// The message for a source file with a problem.
pub open spec fn spec_source_message(problem: SourceProblem, label: Seq<char>, path: Seq<char>) -> Seq<
    char,
> {
    match problem {
        SourceProblem::Missing => "Error: "@ + label + " file '"@ + path + "' does not exist."@,
        SourceProblem::NotCpp => "Error: "@ + label + " file '"@ + path
            + "' must be a .cpp file."@,
    }
}

/// The message for a source file with a problem; `label` says what the file
/// is to the session.
pub fn source_message(problem: SourceProblem, label: &str, path: &str) -> (s: String)
    ensures
        s@ == spec_source_message(problem, label@, path@),
{
    let mut s = "Error: ".to_owned();
    s.append(label);
    s.append(" file '");
    s.append(path);
    match problem {
        SourceProblem::Missing => s.append("' does not exist."),
        SourceProblem::NotCpp => s.append("' must be a .cpp file."),
    }
    s
}

/// An answer that is `y` or `yes`; `lowered` is the answer in lower case.
pub open spec fn is_yes(lowered: Seq<char>) -> bool {
    lowered == "y"@ || lowered == "yes"@
}

/// Tells whether an answer in lower case is `y` or `yes`.
pub fn lowered_is_yes(lowered: &str) -> (r: bool)
    ensures
        r == is_yes(lowered@),
{
    same_text(lowered, "y") || same_text(lowered, "yes")
}

/// Tells whether an answer to "Do you want to proceed?" means yes: trimmed
/// and in lower case it is `y` or `yes`.
pub fn is_affirmative(answer: &str) -> (r: bool)
    ensures
        r == is_yes(lowercase_of(trim(answer@))),
{
    let trimmed = trim_text(answer);
    let lowered = to_lowercase(trimmed.as_str());
    lowered_is_yes(lowered.as_str())
}

} // verus!
