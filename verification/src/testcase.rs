//! The table of test cases and the format it is written in.
//!
//! A test file is a sequence of blocks. A block starts with a header line
//! `@{name}`; the lines up to a separator line `@` are its input, the lines
//! from there to the next header or the end of the file its expected output.

use crate::text::{
    chars_of, decimal, decimal_string, join_lines, join_range, lemma_trim_idempotent, lines_of,
    lines_view, split_lines, string_of, trim, trim_bounds, trim_range,
};
use vstd::prelude::*;

verus! {

/// One named pair of input and expected output.
#[derive(Debug)]
pub struct TestCase {
    pub name: String,
    pub input: String,
    pub expected_output: String,
}

/// A test case as plain text.
pub struct TestCaseView {
    pub name: Seq<char>,
    pub input: Seq<char>,
    pub expected_output: Seq<char>,
}

impl View for TestCase {
    type V = TestCaseView;

    open spec fn view(&self) -> TestCaseView {
        TestCaseView { name: self.name@, input: self.input@, expected_output: self.expected_output@ }
    }
}

/// Why a test file was rejected. Line numbers count from 1.
#[derive(Debug)]
pub enum ParseError {
    /// The header on `line` names nothing.
    MissingName { line: usize },
    /// `line` is a second separator in the block of `name`, which started on
    /// line `started`.
    SecondSeparator { line: usize, name: String, started: usize },
    /// The block of `name`, which started on line `started`, has no
    /// separator.
    MissingSeparator { name: String, started: usize },
    /// `line` stands outside every block and is not blank.
    UnexpectedContent { line: usize, content: String },
}

/// A parse error as plain values.
pub enum ParseErrorView {
    MissingName { line: nat },
    SecondSeparator { line: nat, name: Seq<char>, started: nat },
    MissingSeparator { name: Seq<char>, started: nat },
    UnexpectedContent { line: nat, content: Seq<char> },
}

impl ParseErrorView {
    /// The line that the error points at.
    pub open spec fn line(self) -> nat {
        match self {
            ParseErrorView::MissingName { line } => line,
            ParseErrorView::SecondSeparator { line, .. } => line,
            ParseErrorView::MissingSeparator { started, .. } => started,
            ParseErrorView::UnexpectedContent { line, .. } => line,
        }
    }

    /// The error in words.
    pub open spec fn message(self) -> Seq<char> {
        match self {
            ParseErrorView::MissingName { line } => "Missing test case name line "@ + decimal(line),
            ParseErrorView::SecondSeparator { line, name, started } => "Unexpected second '@' line "@
                + decimal(line) + " for test '"@ + name + "' (started "@ + decimal(started) + ")"@,
            ParseErrorView::MissingSeparator { name, started } => "Missing '@' separator for test '"@
                + name + "' (started "@ + decimal(started) + ")"@,
            ParseErrorView::UnexpectedContent { line, content } => "Unexpected content line "@
                + decimal(line) + ": '"@ + content + "'"@,
        }
    }
}

impl View for ParseError {
    type V = ParseErrorView;

    open spec fn view(&self) -> ParseErrorView {
        match self {
            ParseError::MissingName { line } => ParseErrorView::MissingName { line: *line as nat },
            ParseError::SecondSeparator { line, name, started } => ParseErrorView::SecondSeparator {
                line: *line as nat,
                name: name@,
                started: *started as nat,
            },
            ParseError::MissingSeparator { name, started } => ParseErrorView::MissingSeparator {
                name: name@,
                started: *started as nat,
            },
            ParseError::UnexpectedContent { line, content } => ParseErrorView::UnexpectedContent {
                line: *line as nat,
                content: content@,
            },
        }
    }
}

impl ParseError {
    /// The line that the error points at.
    pub fn line(&self) -> (n: usize)
        ensures
            n == self@.line(),
    {
        match self {
            ParseError::MissingName { line } => *line,
            ParseError::SecondSeparator { line, .. } => *line,
            ParseError::MissingSeparator { started, .. } => *started,
            ParseError::UnexpectedContent { line, .. } => *line,
        }
    }

    /// The error in words.
    pub fn message(&self) -> (s: String)
        ensures
            s@ == self@.message(),
    {
        match self {
            ParseError::MissingName { line } => {
                let mut s = "Missing test case name line ".to_owned();
                s.append(decimal_string(*line as u64).as_str());
                s
            },
            ParseError::SecondSeparator { line, name, started } => {
                let mut s = "Unexpected second '@' line ".to_owned();
                s.append(decimal_string(*line as u64).as_str());
                s.append(" for test '");
                s.append(name.as_str());
                s.append("' (started ");
                s.append(decimal_string(*started as u64).as_str());
                s.append(")");
                s
            },
            ParseError::MissingSeparator { name, started } => {
                let mut s = "Missing '@' separator for test '".to_owned();
                s.append(name.as_str());
                s.append("' (started ");
                s.append(decimal_string(*started as u64).as_str());
                s.append(")");
                s
            },
            ParseError::UnexpectedContent { line, content } => {
                let mut s = "Unexpected content line ".to_owned();
                s.append(decimal_string(*line as u64).as_str());
                s.append(": '");
                s.append(content.as_str());
                s.append("'");
                s
            },
        }
    }
}

/// A trimmed line that starts with `@{`: it ends the block before it.
pub open spec fn opens_block(t: Seq<char>) -> bool {
    t.len() >= 2 && t[0] == '@' && t[1] == '{'
}

/// A trimmed line of the form `@{...}`.
pub open spec fn is_header(t: Seq<char>) -> bool {
    opens_block(t) && t.last() == '}'
}

/// The name in a header: what stands between `@{` and the final `}`,
/// trimmed.
pub open spec fn header_name(t: Seq<char>) -> Seq<char> {
    trim(t.subrange(2, t.len() - 1))
}

/// A trimmed line that is exactly `@`.
pub open spec fn is_separator(t: Seq<char>) -> bool {
    t.len() == 1 && t[0] == '@'
}

/// The first line from `from` on that opens a block, or the number of lines.
pub open spec fn block_end(lines: Seq<Seq<char>>, from: int) -> int
    decreases lines.len() - from,
{
    if from >= lines.len() {
        lines.len() as int
    } else if opens_block(trim(lines[from])) {
        from
    } else {
        block_end(lines, from + 1)
    }
}

/// The first separator line in `[from, to)`, or `to`.
pub open spec fn first_separator(lines: Seq<Seq<char>>, from: int, to: int) -> int
    decreases to - from,
{
    if from >= to {
        to
    } else if is_separator(trim(lines[from])) {
        from
    } else {
        first_separator(lines, from + 1, to)
    }
}

/// A block ends at or after the line it is searched from.
pub proof fn lemma_block_end_bounds(lines: Seq<Seq<char>>, from: int)
    requires
        from <= lines.len(),
    ensures
        from <= block_end(lines, from) <= lines.len(),
    decreases lines.len() - from,
{
    if from < lines.len() && !opens_block(trim(lines[from])) {
        lemma_block_end_bounds(lines, from + 1);
    }
}

/// What was parsed so far, followed by what the rest gives.
pub open spec fn prepend(
    done: Seq<TestCaseView>,
    rest: Result<Seq<TestCaseView>, ParseErrorView>,
) -> Result<Seq<TestCaseView>, ParseErrorView> {
    match rest {
        Ok(cases) => Ok(done + cases),
        Err(e) => Err(e),
    }
}

/// The test cases in `lines[i..]`, or the first error there.
///
/// Outside a block only blank lines and headers are accepted. A header with
/// a name opens a block that reaches to the next line that starts with `@{`
/// or to the end; the block must hold exactly one separator.
pub open spec fn parse_from(lines: Seq<Seq<char>>, i: int) -> Result<
    Seq<TestCaseView>,
    ParseErrorView,
>
    decreases lines.len() - i,
{
    if i < 0 || i >= lines.len() {
        Ok(Seq::empty())
    } else {
        let t = trim(lines[i]);
        if is_header(t) {
            let name = header_name(t);
            let end = block_end(lines, i + 1);
            let sep = first_separator(lines, i + 1, end);
            let sep2 = first_separator(lines, sep + 1, end);
            if name.len() == 0 {
                Err(ParseErrorView::MissingName { line: (i + 1) as nat })
            } else if sep >= end {
                Err(ParseErrorView::MissingSeparator { name, started: (i + 1) as nat })
            } else if sep2 < end {
                Err(
                    ParseErrorView::SecondSeparator {
                        line: (sep2 + 1) as nat,
                        name,
                        started: (i + 1) as nat,
                    },
                )
            } else {
                proof {
                    lemma_block_end_bounds(lines, i + 1);
                }
                prepend(
                    seq![
                        TestCaseView {
                            name,
                            input: join_lines(lines.subrange(i + 1, sep)),
                            expected_output: join_lines(lines.subrange(sep + 1, end)),
                        },
                    ],
                    parse_from(lines, end),
                )
            }
        } else if t.len() == 0 {
            parse_from(lines, i + 1)
        } else {
            Err(ParseErrorView::UnexpectedContent { line: (i + 1) as nat, content: lines[i] })
        }
    }
}

/// Every test case that is read has a name: one that is not empty and has
/// no white space at either end.
pub proof fn lemma_parsed_names(lines: Seq<Seq<char>>, i: int, k: int)
    requires
        parse_from(lines, i) is Ok,
        0 <= k < parse_from(lines, i)->Ok_0.len(),
    ensures
        parse_from(lines, i)->Ok_0[k].name.len() > 0,
        trim(parse_from(lines, i)->Ok_0[k].name) == parse_from(lines, i)->Ok_0[k].name,
    decreases lines.len() - i,
{
    if 0 <= i < lines.len() {
        let t = trim(lines[i]);
        if is_header(t) {
            let end = block_end(lines, i + 1);
            lemma_block_end_bounds(lines, i + 1);
            if k == 0 {
                lemma_trim_idempotent(t.subrange(2, t.len() - 1));
            } else {
                lemma_parsed_names(lines, end, k - 1);
            }
        } else {
            lemma_parsed_names(lines, i + 1, k);
        }
    }
}

/// What a test file with the text `s` holds.
pub open spec fn parse_text(s: Seq<char>) -> Result<Seq<TestCaseView>, ParseErrorView> {
    parse_from(lines_of(s), 0)
}

/// The views of the test cases held in `v`.
pub open spec fn cases_view(v: Seq<TestCase>) -> Seq<TestCaseView> {
    Seq::new(v.len(), |i: int| v[i]@)
}

/// The outcome of parsing as plain values.
pub open spec fn parsed_view(r: Result<Vec<TestCase>, ParseError>) -> Result<
    Seq<TestCaseView>,
    ParseErrorView,
> {
    match r {
        Ok(cases) => Ok(cases_view(cases@)),
        Err(e) => Err(e@),
    }
}

fn opens_block_at(v: &Vec<char>, a: usize, b: usize) -> (r: bool)
    requires
        a <= b <= v.len(),
    ensures
        r == opens_block(v@.subrange(a as int, b as int)),
{
    b - a >= 2 && v[a] == '@' && v[a + 1] == '{'
}

fn is_header_at(v: &Vec<char>, a: usize, b: usize) -> (r: bool)
    requires
        a <= b <= v.len(),
    ensures
        r == is_header(v@.subrange(a as int, b as int)),
{
    opens_block_at(v, a, b) && v[b - 1] == '}'
}

fn is_separator_at(v: &Vec<char>, a: usize, b: usize) -> (r: bool)
    requires
        a <= b <= v.len(),
    ensures
        r == is_separator(v@.subrange(a as int, b as int)),
{
    b - a == 1 && v[a] == '@'
}

fn find_block_end(lines: &Vec<Vec<char>>, from: usize) -> (end: usize)
    requires
        from <= lines.len(),
    ensures
        from <= end <= lines.len(),
        end == block_end(lines_view(lines@), from as int),
{
    let n = lines.len();
    let mut j: usize = from;
    while j < n
        invariant
            from <= j <= n == lines.len(),
            block_end(lines_view(lines@), from as int) == block_end(lines_view(lines@), j as int),
        decreases n - j,
    {
        let line = &lines[j];
        let (a, b) = trim_bounds(line);
        assert(lines_view(lines@)[j as int] == line@);
        if opens_block_at(line, a, b) {
            return j;
        }
        j += 1;
    }
    j
}

fn find_separator(lines: &Vec<Vec<char>>, from: usize, to: usize) -> (sep: usize)
    requires
        from <= to <= lines.len(),
    ensures
        from <= sep <= to,
        sep == first_separator(lines_view(lines@), from as int, to as int),
{
    let mut j: usize = from;
    while j < to
        invariant
            from <= j <= to <= lines.len(),
            first_separator(lines_view(lines@), from as int, to as int) == first_separator(
                lines_view(lines@),
                j as int,
                to as int,
            ),
        decreases to - j,
    {
        let line = &lines[j];
        let (a, b) = trim_bounds(line);
        assert(lines_view(lines@)[j as int] == line@);
        if is_separator_at(line, a, b) {
            return j;
        }
        j += 1;
    }
    j
}

/// Reads the test cases from the lines of a test file.
pub fn parse_lines(lines: &Vec<Vec<char>>) -> (r: Result<Vec<TestCase>, ParseError>)
    ensures
        parsed_view(r) == parse_from(lines_view(lines@), 0),
{
    let ghost all = lines_view(lines@);
    let n = lines.len();
    let mut cases: Vec<TestCase> = Vec::new();
    let mut i: usize = 0;
    proof {
        assert(cases_view(cases@) + parse_from(all, 0)->Ok_0 =~= parse_from(all, 0)->Ok_0);
    }
    while i < n
        invariant
            i <= n == lines.len(),
            all == lines_view(lines@),
            parse_from(all, 0) == prepend(cases_view(cases@), parse_from(all, i as int)),
        decreases n - i,
    {
        let line = &lines[i];
        let (a, b) = trim_bounds(line);
        let ghost t = trim(all[i as int]);
        assert(all[i as int] == line@);
        if is_header_at(line, a, b) {
            let (na, nb) = trim_range(line, a + 2, b - 1);
            proof {
                assert(t.subrange(2, t.len() - 1) =~= line@.subrange(a + 2, b - 1));
            }
            if na == nb {
                return Err(ParseError::MissingName { line: i + 1 });
            }
            let end = find_block_end(lines, i + 1);
            let sep = find_separator(lines, i + 1, end);
            let name = string_of(line, na, nb);
            if sep >= end {
                return Err(ParseError::MissingSeparator { name, started: i + 1 });
            }
            let sep2 = find_separator(lines, sep + 1, end);
            if sep2 < end {
                return Err(ParseError::SecondSeparator { line: sep2 + 1, name, started: i + 1 });
            }
            let input = join_range(lines, i + 1, sep);
            let expected_output = join_range(lines, sep + 1, end);
            let case = TestCase { name, input, expected_output };
            let ghost before = cases_view(cases@);
            cases.push(case);
            proof {
                assert(cases_view(cases@) =~= before + seq![case@]);
                match parse_from(all, end as int) {
                    Ok(rest) => {
                        assert(before + (seq![case@] + rest) =~= (before + seq![case@]) + rest);
                    },
                    Err(_) => {},
                }
            }
            i = end;
        } else if a == b {
            i += 1;
        } else {
            let content = string_of(line, 0, line.len());
            proof {
                assert(line@.subrange(0, line.len() as int) =~= line@);
            }
            return Err(ParseError::UnexpectedContent { line: i + 1, content });
        }
    }
    proof {
        assert(cases_view(cases@) + Seq::<TestCaseView>::empty() =~= cases_view(cases@));
    }
    Ok(cases)
}

/// Reads the test cases from the text of a test file.
///
/// The result holds the cases in the order of the file, or the first error
/// in it; nothing after that error is looked at.
pub fn parse_test_cases(content: &str) -> (r: Result<Vec<TestCase>, ParseError>)
    ensures
        parsed_view(r) == parse_text(content@),
{
    let chars = chars_of(content);
    let lines = split_lines(&chars);
    parse_lines(&lines)
}

} // verus!
