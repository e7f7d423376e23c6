//! Choosing the files of a session from a listing, and what is reported
//! when nothing or too much fits.

use crate::discover::{
    entries_view, files_named, find_files, found_files, list_all_matching_files, named_files,
    pattern_view, take_only, target_files, text, Entry, EntryView,
};
use crate::process::option_view;
use crate::text::strings_view;
use vstd::prelude::*;

verus! {

/// The two kinds of file that the test mode looks for.
#[derive(Clone, Copy, Debug, PartialEq, Eq, Structural)]
pub enum FileKind {
    Solution,
    TestCases,
}

impl FileKind {
    /// The extension of files of the kind.
    pub open spec fn spec_extension(self) -> Seq<char> {
        match self {
            FileKind::Solution => "cpp"@,
            FileKind::TestCases => "cases"@,
        }
    }

    /// The kind as `list_all_matching_files` knows it.
    pub open spec fn spec_target(self) -> Seq<char> {
        match self {
            FileKind::Solution => "solution"@,
            FileKind::TestCases => "test"@,
        }
    }

    /// The extension of files of the kind.
    pub fn extension(self) -> (r: &'static str)
        ensures
            r@ == self.spec_extension(),
    {
        match self {
            FileKind::Solution => "cpp",
            FileKind::TestCases => "cases",
        }
    }

    /// The kind as `list_all_matching_files` knows it.
    pub fn target(self) -> (r: &'static str)
        ensures
            r@ == self.spec_target(),
    {
        match self {
            FileKind::Solution => "solution",
            FileKind::TestCases => "test",
        }
    }
}

/// Why no file was chosen.
#[derive(Debug)]
pub enum DiscoveryError {
    /// No file of the kind has the pattern in its name.
    NoneContaining { kind: FileKind, pattern: String },
    /// Several files of the kind have the pattern in their name.
    SeveralContaining { kind: FileKind, pattern: String, files: Vec<String> },
    /// No file is known by the words of `file_type`.
    NotFound { file_type: String, containing: Option<String> },
    /// Several files are known by the words of `file_type`.
    Ambiguous { file_type: String, files: Vec<String> },
    /// The directory holds no file of the kind.
    NoFiles { kind: FileKind },
    /// The directory holds several files of the kind, none known by name.
    NoneNamed { kind: FileKind, files: Vec<String> },
    /// Several files of the kind are known by name.
    SeveralNamed { kind: FileKind, files: Vec<String> },
    /// Several sources are known as the solution.
    SeveralSolutions { files: Vec<String> },
}

/// A discovery error as plain text.
pub enum DiscoveryErrorView {
    NoneContaining { kind: FileKind, pattern: Seq<char> },
    SeveralContaining { kind: FileKind, pattern: Seq<char>, files: Seq<Seq<char>> },
    NotFound { file_type: Seq<char>, containing: Option<Seq<char>> },
    Ambiguous { file_type: Seq<char>, files: Seq<Seq<char>> },
    NoFiles { kind: FileKind },
    NoneNamed { kind: FileKind, files: Seq<Seq<char>> },
    SeveralNamed { kind: FileKind, files: Seq<Seq<char>> },
    SeveralSolutions { files: Seq<Seq<char>> },
}

impl View for DiscoveryError {
    type V = DiscoveryErrorView;

    open spec fn view(&self) -> DiscoveryErrorView {
        match self {
            DiscoveryError::NoneContaining { kind, pattern } => DiscoveryErrorView::NoneContaining {
                kind: *kind,
                pattern: pattern@,
            },
            DiscoveryError::SeveralContaining {
                kind,
                pattern,
                files,
            } => DiscoveryErrorView::SeveralContaining {
                kind: *kind,
                pattern: pattern@,
                files: strings_view(files@),
            },
            DiscoveryError::NotFound { file_type, containing } => DiscoveryErrorView::NotFound {
                file_type: file_type@,
                containing: option_view(*containing),
            },
            DiscoveryError::Ambiguous { file_type, files } => DiscoveryErrorView::Ambiguous {
                file_type: file_type@,
                files: strings_view(files@),
            },
            DiscoveryError::NoFiles { kind } => DiscoveryErrorView::NoFiles { kind: *kind },
            DiscoveryError::NoneNamed { kind, files } => DiscoveryErrorView::NoneNamed {
                kind: *kind,
                files: strings_view(files@),
            },
            DiscoveryError::SeveralNamed { kind, files } => DiscoveryErrorView::SeveralNamed {
                kind: *kind,
                files: strings_view(files@),
            },
            DiscoveryError::SeveralSolutions { files } => DiscoveryErrorView::SeveralSolutions {
                files: strings_view(files@),
            },
        }
    }
}

/// The files as a list, one line for each.
pub open spec fn file_list(files: Seq<Seq<char>>) -> Seq<char>
    decreases files.len(),
{
    if files.len() == 0 {
        Seq::empty()
    } else {
        file_list(files.drop_last()) + "  - "@ + files.last() + "\n"@
    }
}

impl DiscoveryErrorView {
    /// The error in words.
    pub open spec fn message(self) -> Seq<char> {
        match self {
            DiscoveryErrorView::NoneContaining { kind, pattern } => "No ."@ + kind.spec_extension()
                + " files containing '"@ + pattern + "' found."@,
            DiscoveryErrorView::SeveralContaining { kind, pattern, files } => "Multiple ."@
                + kind.spec_extension() + " files matching '"@ + pattern
                + "' found. Please be more specific:\n"@ + file_list(files),
            DiscoveryErrorView::NotFound { file_type, containing } => "Could not find a "@
                + file_type + " file"@ + match containing {
                Some(p) => " containing '"@ + p + "'"@,
                None => Seq::empty(),
            },
            DiscoveryErrorView::Ambiguous { file_type, files } => "Found multiple "@ + file_type
                + " files, which is ambiguous:\n"@ + file_list(files),
            DiscoveryErrorView::NoFiles { kind } => "No ."@ + kind.spec_extension()
                + " files found in the current directory."@,
            DiscoveryErrorView::NoneNamed { kind, files } => match kind {
                FileKind::Solution => "Multiple .cpp files found, but none match 'solution' or 'sol' pattern. Use -i or a pattern:\n"@
                    + file_list(files),
                FileKind::TestCases => "Multiple .cases files found, but none match 'test' pattern. Use -c or a pattern:\n"@
                    + file_list(files),
            },
            DiscoveryErrorView::SeveralNamed { kind, files } => match kind {
                FileKind::Solution => "Multiple files matching 'solution'/'sol' found. Please specify a pattern or use -i:\n"@
                    + file_list(files),
                FileKind::TestCases => "Multiple files matching 'test' found. Please specify a pattern or use -c:\n"@
                    + file_list(files),
            },
            DiscoveryErrorView::SeveralSolutions { files } => "Multiple solution files found. This is ambiguous:\n"@
                + file_list(files),
        }
    }
}

fn append_file_list(s: &mut String, files: &Vec<String>)
    ensures
        final(s)@ == old(s)@ + file_list(strings_view(files@)),
{
    let ghost start = s@;
    let ghost all = strings_view(files@);
    let mut i: usize = 0;
    proof {
        assert(start + file_list(all.take(0)) =~= start);
    }
    while i < files.len()
        invariant
            i <= files.len(),
            all == strings_view(files@),
            s@ == start + file_list(all.take(i as int)),
        decreases files.len() - i,
    {
        let ghost before = s@;
        s.append("  - ");
        s.append(files[i].as_str());
        s.append("\n");
        proof {
            assert(all.take(i + 1).drop_last() =~= all.take(i as int));
            assert(all.take(i + 1).last() == files@[i as int]@);
            assert(s@ =~= start + file_list(all.take(i + 1)));
        }
        i += 1;
    }
    proof {
        assert(all.take(files.len() as int) =~= all);
    }
}

impl DiscoveryError {
    /// The error in words.
    pub fn message(&self) -> (s: String)
        ensures
            s@ == self@.message(),
    {
        match self {
            DiscoveryError::NoneContaining { kind, pattern } => {
                let mut s = text("No .");
                s.append(kind.extension());
                s.append(" files containing '");
                s.append(pattern.as_str());
                s.append("' found.");
                s
            },
            DiscoveryError::SeveralContaining { kind, pattern, files } => {
                let mut s = text("Multiple .");
                s.append(kind.extension());
                s.append(" files matching '");
                s.append(pattern.as_str());
                s.append("' found. Please be more specific:\n");
                append_file_list(&mut s, files);
                s
            },
            DiscoveryError::NotFound { file_type, containing } => {
                let mut s = text("Could not find a ");
                s.append(file_type.as_str());
                s.append(" file");
                match containing {
                    Some(p) => {
                        let ghost before = s@;
                        s.append(" containing '");
                        s.append(p.as_str());
                        s.append("'");
                        proof {
                            assert(s@ =~= before + (" containing '"@ + p@ + "'"@));
                        }
                    },
                    None => {
                        proof {
                            assert(s@ =~= s@ + Seq::<char>::empty());
                        }
                    },
                }
                s
            },
            DiscoveryError::Ambiguous { file_type, files } => {
                let mut s = text("Found multiple ");
                s.append(file_type.as_str());
                s.append(" files, which is ambiguous:\n");
                append_file_list(&mut s, files);
                s
            },
            DiscoveryError::NoFiles { kind } => {
                let mut s = text("No .");
                s.append(kind.extension());
                s.append(" files found in the current directory.");
                s
            },
            DiscoveryError::NoneNamed { kind, files } => {
                let mut s = match kind {
                    FileKind::Solution => text(
                        "Multiple .cpp files found, but none match 'solution' or 'sol' pattern. Use -i or a pattern:\n",
                    ),
                    FileKind::TestCases => text(
                        "Multiple .cases files found, but none match 'test' pattern. Use -c or a pattern:\n",
                    ),
                };
                append_file_list(&mut s, files);
                s
            },
            DiscoveryError::SeveralNamed { kind, files } => {
                let mut s = match kind {
                    FileKind::Solution => text(
                        "Multiple files matching 'solution'/'sol' found. Please specify a pattern or use -i:\n",
                    ),
                    FileKind::TestCases => text(
                        "Multiple files matching 'test' found. Please specify a pattern or use -c:\n",
                    ),
                };
                append_file_list(&mut s, files);
                s
            },
            DiscoveryError::SeveralSolutions { files } => {
                let mut s = text("Multiple solution files found. This is ambiguous:\n");
                append_file_list(&mut s, files);
                s
            },
        }
    }
}

/// The outcome of a choice as plain text.
pub open spec fn choice_view(r: Result<String, DiscoveryError>) -> Result<
    Seq<char>,
    DiscoveryErrorView,
> {
    match r {
        Ok(path) => Ok(path@),
        Err(e) => Err(e@),
    }
}

/// The one file among those that hold the pattern, or why there is none.
pub open spec fn spec_pick_containing(files: Seq<Seq<char>>, kind: FileKind, pattern: Seq<char>) -> Result<
    Seq<char>,
    DiscoveryErrorView,
> {
    if files.len() == 0 {
        Err(DiscoveryErrorView::NoneContaining { kind, pattern })
    } else if files.len() > 1 {
        Err(DiscoveryErrorView::SeveralContaining { kind, pattern, files })
    } else {
        Ok(files[0])
    }
}

/// The one file among those known by the words of `file_type`, or why there
/// is none.
pub open spec fn spec_pick_unique(
    file_type: Seq<char>,
    pattern: Option<Seq<char>>,
    files: Seq<Seq<char>>,
) -> Result<Seq<char>, DiscoveryErrorView> {
    if files.len() == 0 {
        Err(DiscoveryErrorView::NotFound { file_type, containing: pattern })
    } else if files.len() > 1 {
        Err(DiscoveryErrorView::Ambiguous { file_type, files })
    } else {
        Ok(files[0])
    }
}

/// The file of a kind where no pattern is given: the one file known by
/// name; without such a file, the one file of the kind that there is.
pub open spec fn spec_pick_named(named: Seq<Seq<char>>, all: Seq<Seq<char>>, kind: FileKind) -> Result<
    Seq<char>,
    DiscoveryErrorView,
> {
    if named.len() == 0 {
        if all.len() == 0 {
            Err(DiscoveryErrorView::NoFiles { kind })
        } else if all.len() == 1 {
            Ok(all[0])
        } else {
            Err(DiscoveryErrorView::NoneNamed { kind, files: all })
        }
    } else if named.len() > 1 {
        Err(DiscoveryErrorView::SeveralNamed { kind, files: named })
    } else {
        Ok(named[0])
    }
}

/// The one file among `files`, which hold the pattern, or why there is none.
pub fn pick_containing(files: Vec<String>, kind: FileKind, pattern: &str) -> (r: Result<
    String,
    DiscoveryError,
>)
    ensures
        choice_view(r) == spec_pick_containing(strings_view(files@), kind, pattern@),
{
    if files.len() == 0 {
        Err(DiscoveryError::NoneContaining { kind, pattern: text(pattern) })
    } else if files.len() > 1 {
        Err(DiscoveryError::SeveralContaining { kind, pattern: text(pattern), files })
    } else {
        Ok(take_only(files))
    }
}

fn owned(pattern: Option<&str>) -> (r: Option<String>)
    ensures
        option_view(r) == pattern_view(pattern),
{
    match pattern {
        Some(p) => Some(text(p)),
        None => None,
    }
}

/// The one file among `ambiguous_files`, or why there is none: no file was
/// found, or more than one.
pub fn handle_ambiguous_files(file_type: &str, pattern: Option<&str>, ambiguous_files: Vec<String>) -> (r:
    Result<String, DiscoveryError>)
    ensures
        choice_view(r) == spec_pick_unique(
            file_type@,
            pattern_view(pattern),
            strings_view(ambiguous_files@),
        ),
{
    if ambiguous_files.len() == 0 {
        Err(DiscoveryError::NotFound { file_type: text(file_type), containing: owned(pattern) })
    } else if ambiguous_files.len() > 1 {
        Err(DiscoveryError::Ambiguous { file_type: text(file_type), files: ambiguous_files })
    } else {
        Ok(take_only(ambiguous_files))
    }
}

/// The file of a kind where no pattern is given.
pub fn pick_named(named: Vec<String>, all: Vec<String>, kind: FileKind) -> (r: Result<
    String,
    DiscoveryError,
>)
    ensures
        choice_view(r) == spec_pick_named(strings_view(named@), strings_view(all@), kind),
{
    if named.len() == 0 {
        if all.len() == 0 {
            Err(DiscoveryError::NoFiles { kind })
        } else if all.len() == 1 {
            Ok(take_only(all))
        } else {
            Err(DiscoveryError::NoneNamed { kind, files: all })
        }
    } else if named.len() > 1 {
        Err(DiscoveryError::SeveralNamed { kind, files: named })
    } else {
        Ok(take_only(named))
    }
}

/// The file of a kind in a listing: with a pattern, the one file of the
/// kind's extension that holds it; without, the file that `spec_pick_named`
/// chooses.
pub open spec fn spec_find_kind(entries: Seq<EntryView>, kind: FileKind, pattern: Option<Seq<char>>) -> Result<
    Seq<char>,
    DiscoveryErrorView,
> {
    match pattern {
        Some(p) => spec_pick_containing(
            found_files(entries, kind.spec_extension(), Some(p)),
            kind,
            p,
        ),
        None => spec_pick_named(
            target_files(entries, kind.spec_target(), None),
            found_files(entries, kind.spec_extension(), None),
            kind,
        ),
    }
}

fn find_kind(entries: &Vec<Entry>, kind: FileKind, pattern: Option<&str>) -> (r: Result<
    String,
    DiscoveryError,
>)
    ensures
        choice_view(r) == spec_find_kind(entries_view(entries@), kind, pattern_view(pattern)),
{
    match pattern {
        Some(p) => pick_containing(find_files(entries, kind.extension(), Some(p)), kind, p),
        None => {
            let named = list_all_matching_files(entries, kind.target(), None);
            if named.len() == 0 {
                pick_named(named, find_files(entries, kind.extension(), None), kind)
            } else {
                pick_named(named, Vec::new(), kind)
            }
        },
    }
}

/// The one `.cpp` file whose name holds the pattern.
pub fn find_cpp_file_with_pattern(entries: &Vec<Entry>, pattern: &str) -> (r: Result<
    String,
    DiscoveryError,
>)
    ensures
        choice_view(r) == spec_pick_containing(
            found_files(entries_view(entries@), "cpp"@, Some(pattern@)),
            FileKind::Solution,
            pattern@,
        ),
{
    pick_containing(find_files(entries, "cpp", Some(pattern)), FileKind::Solution, pattern)
}

/// The one `.cases` file whose name holds the pattern.
pub fn find_cases_file_with_pattern(entries: &Vec<Entry>, pattern: &str) -> (r: Result<
    String,
    DiscoveryError,
>)
    ensures
        choice_view(r) == spec_pick_containing(
            found_files(entries_view(entries@), "cases"@, Some(pattern@)),
            FileKind::TestCases,
            pattern@,
        ),
{
    pick_containing(find_files(entries, "cases", Some(pattern)), FileKind::TestCases, pattern)
}

/// The solution file of a listing.
pub fn find_solution_file(entries: &Vec<Entry>, pattern: Option<&str>) -> (r: Result<
    String,
    DiscoveryError,
>)
    ensures
        choice_view(r) == spec_find_kind(
            entries_view(entries@),
            FileKind::Solution,
            pattern_view(pattern),
        ),
{
    find_kind(entries, FileKind::Solution, pattern)
}

/// The table of test cases of a listing. Without a pattern, a file
/// `test.cases` is taken where the caller found one.
pub fn find_test_case_file(entries: &Vec<Entry>, pattern: Option<&str>, test_cases_present: bool) -> (r:
    Result<String, DiscoveryError>)
    ensures
        choice_view(r) == (if pattern is None && test_cases_present {
            Ok("test.cases"@)
        } else {
            spec_find_kind(entries_view(entries@), FileKind::TestCases, pattern_view(pattern))
        }),
{
    if pattern.is_none() && test_cases_present {
        Ok(text("test.cases"))
    } else {
        find_kind(entries, FileKind::TestCases, pattern)
    }
}

/// The two files of a test session.
#[derive(Debug)]
pub struct TestFiles {
    pub solution: String,
    pub testcases: String,
}

/// The three files of a stress session.
#[derive(Debug)]
pub struct StressFiles {
    pub solution: String,
    pub generator: String,
    pub brute: String,
}

/// The files of a test session as plain text.
pub struct TestFilesView {
    pub solution: Seq<char>,
    pub testcases: Seq<char>,
}

/// The files of a stress session as plain text.
pub struct StressFilesView {
    pub solution: Seq<char>,
    pub generator: Seq<char>,
    pub brute: Seq<char>,
}

impl View for TestFiles {
    type V = TestFilesView;

    open spec fn view(&self) -> TestFilesView {
        TestFilesView { solution: self.solution@, testcases: self.testcases@ }
    }
}

impl View for StressFiles {
    type V = StressFilesView;

    open spec fn view(&self) -> StressFilesView {
        StressFilesView { solution: self.solution@, generator: self.generator@, brute: self.brute@ }
    }
}

/// The files of a test session: without a pattern, those that the
/// configuration names, else `solution.cpp` and `test.cases` where both
/// exist; in every other case what the listing gives, the solution first.
pub open spec fn spec_auto_test_files(
    entries: Seq<EntryView>,
    pattern: Option<Seq<char>>,
    configured: Option<TestFilesView>,
    solution_present: bool,
    test_cases_present: bool,
) -> Result<TestFilesView, DiscoveryErrorView> {
    if pattern is None && configured is Some {
        Ok(configured->0)
    } else if pattern is None && solution_present && test_cases_present {
        Ok(TestFilesView { solution: "solution.cpp"@, testcases: "test.cases"@ })
    } else {
        match spec_find_kind(entries, FileKind::Solution, pattern) {
            Err(e) => Err(e),
            Ok(solution) => {
                let cases = if pattern is None && test_cases_present {
                    Ok("test.cases"@)
                } else {
                    spec_find_kind(entries, FileKind::TestCases, pattern)
                };
                match cases {
                    Err(e) => Err(e),
                    Ok(testcases) => Ok(TestFilesView { solution, testcases }),
                }
            },
        }
    }
}

/// Chooses the files of a test session. `configured` holds what the
/// configuration names, where its files exist; the two flags say whether
/// `solution.cpp` and `test.cases` exist.
pub fn auto_test_files(
    entries: &Vec<Entry>,
    pattern: Option<&str>,
    configured: Option<TestFiles>,
    solution_present: bool,
    test_cases_present: bool,
) -> (r: Result<TestFiles, DiscoveryError>)
    ensures
        match r {
            Ok(files) => Ok(files@),
            Err(e) => Err(e@),
        } == spec_auto_test_files(
            entries_view(entries@),
            pattern_view(pattern),
            match configured {
                Some(c) => Some(c@),
                None => None,
            },
            solution_present,
            test_cases_present,
        ),
{
    if pattern.is_none() {
        match configured {
            Some(files) => {
                return Ok(files);
            },
            None => {},
        }
        if solution_present && test_cases_present {
            return Ok(TestFiles { solution: text("solution.cpp"), testcases: text("test.cases") });
        }
    }
    let solution = match find_solution_file(entries, pattern) {
        Ok(path) => path,
        Err(e) => {
            return Err(e);
        },
    };
    let testcases = match find_test_case_file(entries, pattern, test_cases_present) {
        Ok(path) => path,
        Err(e) => {
            return Err(e);
        },
    };
    Ok(TestFiles { solution, testcases })
}

/// The files of a stress session: without a pattern, those that the
/// configuration names; else the one generator, the one brute-force
/// solution and the one solution of the listing, looked for in this order.
pub open spec fn spec_auto_stress_files(
    entries: Seq<EntryView>,
    pattern: Option<Seq<char>>,
    configured: Option<StressFilesView>,
) -> Result<StressFilesView, DiscoveryErrorView> {
    if pattern is None && configured is Some {
        Ok(configured->0)
    } else {
        match spec_pick_unique(
            "generator"@,
            pattern,
            target_files(entries, "generator"@, pattern),
        ) {
            Err(e) => Err(e),
            Ok(generator) => match spec_pick_unique(
                "brute force"@,
                pattern,
                target_files(entries, "brute"@, pattern),
            ) {
                Err(e) => Err(e),
                Ok(brute) => match spec_pick_unique(
                    "solution"@,
                    pattern,
                    target_files(entries, "solution"@, pattern),
                ) {
                    Err(e) => Err(e),
                    Ok(solution) => Ok(StressFilesView { solution, generator, brute }),
                },
            },
        }
    }
}

/// Chooses the files of a stress session. `configured` holds what the
/// configuration names, where its files exist.
pub fn auto_stress_files(entries: &Vec<Entry>, pattern: Option<&str>, configured: Option<StressFiles>) -> (r:
    Result<StressFiles, DiscoveryError>)
    ensures
        match r {
            Ok(files) => Ok(files@),
            Err(e) => Err(e@),
        } == spec_auto_stress_files(
            entries_view(entries@),
            pattern_view(pattern),
            match configured {
                Some(c) => Some(c@),
                None => None,
            },
        ),
{
    if pattern.is_none() {
        match configured {
            Some(files) => {
                return Ok(files);
            },
            None => {},
        }
    }
    let generator = match handle_ambiguous_files(
        "generator",
        pattern,
        list_all_matching_files(entries, "generator", pattern),
    ) {
        Ok(path) => path,
        Err(e) => {
            return Err(e);
        },
    };
    let brute = match handle_ambiguous_files(
        "brute force",
        pattern,
        list_all_matching_files(entries, "brute", pattern),
    ) {
        Ok(path) => path,
        Err(e) => {
            return Err(e);
        },
    };
    let solution = match handle_ambiguous_files(
        "solution",
        pattern,
        list_all_matching_files(entries, "solution", pattern),
    ) {
        Ok(path) => path,
        Err(e) => {
            return Err(e);
        },
    };
    Ok(StressFiles { solution, generator, brute })
}

/// The source that the simple watch mode takes where none is named: the one
/// that the configuration names; else the one source known as the solution,
/// or the one source that there is. Several solutions are an error; several
/// other sources give nothing.
pub open spec fn spec_autodetect(entries: Seq<EntryView>, configured: Option<Seq<char>>) -> Result<
    Option<Seq<char>>,
    DiscoveryErrorView,
> {
    let sources = found_files(entries, "cpp"@, None);
    let solutions = named_files(entries, "cpp"@, seq!["solution"@, "sol"@], None);
    if configured is Some {
        Ok(configured)
    } else if sources.len() == 0 {
        Ok(None)
    } else if solutions.len() == 0 {
        if sources.len() == 1 {
            Ok(Some(sources[0]))
        } else {
            Ok(None)
        }
    } else if solutions.len() > 1 {
        Err(DiscoveryErrorView::SeveralSolutions { files: solutions })
    } else {
        Ok(Some(solutions[0]))
    }
}

/// Chooses the source for the simple watch mode where none is named.
/// `configured` holds the source that the configuration names, where it
/// exists.
pub fn autodetect_solution_file(entries: &Vec<Entry>, configured: Option<String>) -> (r: Result<
    Option<String>,
    DiscoveryError,
>)
    ensures
        match r {
            Ok(found) => Ok(option_view(found)),
            Err(e) => Err(e@),
        } == spec_autodetect(entries_view(entries@), option_view(configured)),
{
    if configured.is_some() {
        return Ok(configured);
    }
    let sources = find_files(entries, "cpp", None);
    if sources.len() == 0 {
        return Ok(None);
    }
    let mut words: Vec<String> = Vec::new();
    words.push(text("solution"));
    words.push(text("sol"));
    proof {
        assert(strings_view(words@) =~= seq!["solution"@, "sol"@]);
    }
    let solutions = files_named(entries, "cpp", &words, None);
    if solutions.len() == 0 {
        if sources.len() == 1 {
            Ok(Some(take_only(sources)))
        } else {
            Ok(None)
        }
    } else if solutions.len() > 1 {
        Err(DiscoveryError::SeveralSolutions { files: solutions })
    } else {
        Ok(Some(take_only(solutions)))
    }
}

} // verus!
