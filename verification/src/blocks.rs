//! The shape of a well-formed test file, and what reading one gives.

use crate::testcase::{
    block_end, first_separator, header_name, is_header, is_separator, opens_block, parse_from,
    parse_text, prepend, ParseErrorView, TestCaseView,
};
use crate::text::{is_line, join_lines, lemma_lines_of_unlines, trim, unlines};
use vstd::prelude::*;

verus! {

/// The lines of one block of a test file.
pub struct Block {
    pub header: Seq<char>,
    pub input: Seq<Seq<char>>,
    pub separator: Seq<char>,
    pub expected: Seq<Seq<char>>,
}

/// A line that is empty once trimmed.
pub open spec fn is_blank(line: Seq<char>) -> bool {
    trim(line).len() == 0
}

/// A line that is neither a separator nor the start of a block.
pub open spec fn is_plain(line: Seq<char>) -> bool {
    !is_separator(trim(line)) && !opens_block(trim(line))
}

/// Every line of `lines` is blank.
pub open spec fn all_blank(lines: Seq<Seq<char>>) -> bool {
    forall|i: int| 0 <= i < lines.len() ==> is_blank(#[trigger] lines[i])
}

/// Every line of `lines` is plain.
pub open spec fn all_plain(lines: Seq<Seq<char>>) -> bool {
    forall|i: int| 0 <= i < lines.len() ==> is_plain(#[trigger] lines[i])
}

/// `line` is a header that names something.
pub open spec fn is_named_header(line: Seq<char>) -> bool {
    is_header(trim(line)) && header_name(trim(line)).len() > 0
}

impl Block {
    /// The block has a named header, one separator, and plain lines around
    /// it.
    pub open spec fn well_formed(self) -> bool {
        &&& is_named_header(self.header)
        &&& all_plain(self.input)
        &&& is_separator(trim(self.separator))
        &&& all_plain(self.expected)
    }

    /// The lines of the block in the order of the file.
    pub open spec fn lines(self) -> Seq<Seq<char>> {
        seq![self.header] + self.input + seq![self.separator] + self.expected
    }

    /// The test case that the block describes.
    pub open spec fn case(self) -> TestCaseView {
        TestCaseView {
            name: header_name(trim(self.header)),
            input: join_lines(self.input),
            expected_output: join_lines(self.expected),
        }
    }
}

/// Every block of `blocks` is well formed.
pub open spec fn all_well_formed(blocks: Seq<Block>) -> bool {
    forall|k: int| 0 <= k < blocks.len() ==> (#[trigger] blocks[k]).well_formed()
}

/// The lines of the blocks, one block after the other.
pub open spec fn file_lines(blocks: Seq<Block>) -> Seq<Seq<char>>
    decreases blocks.len(),
{
    if blocks.len() == 0 {
        Seq::empty()
    } else {
        blocks[0].lines() + file_lines(blocks.drop_first())
    }
}

/// The test cases of the blocks, in their order.
pub open spec fn block_cases(blocks: Seq<Block>) -> Seq<TestCaseView> {
    Seq::new(blocks.len(), |k: int| blocks[k].case())
}

/// `block_end` is the one index that no line before it, from `from` on,
/// opens a block, and at which the lines end or a block opens.
pub proof fn lemma_block_end_is(lines: Seq<Seq<char>>, from: int, end: int)
    requires
        0 <= from <= end <= lines.len(),
        forall|j: int| from <= j < end ==> !opens_block(trim(#[trigger] lines[j])),
        end == lines.len() || opens_block(trim(lines[end])),
    ensures
        block_end(lines, from) == end,
    decreases end - from,
{
    if from < end {
        lemma_block_end_is(lines, from + 1, end);
    }
}

/// `first_separator` is the one index in `[from, to]` before which no
/// separator stands and which is `to` or holds one.
pub proof fn lemma_first_separator_is(lines: Seq<Seq<char>>, from: int, to: int, k: int)
    requires
        0 <= from <= k <= to <= lines.len(),
        forall|j: int| from <= j < k ==> !is_separator(trim(#[trigger] lines[j])),
        k == to || is_separator(trim(lines[k])),
    ensures
        first_separator(lines, from, to) == k,
    decreases k - from,
{
    if from < k {
        lemma_first_separator_is(lines, from + 1, to, k);
    }
}

/// Blank lines before a block change nothing.
pub proof fn lemma_parse_skips_blanks(lines: Seq<Seq<char>>, i: int, j: int)
    requires
        0 <= i <= j <= lines.len(),
        forall|k: int| i <= k < j ==> is_blank(#[trigger] lines[k]),
    ensures
        parse_from(lines, i) == parse_from(lines, j),
    decreases j - i,
{
    if i < j {
        assert(is_blank(lines[i]));
        lemma_parse_skips_blanks(lines, i + 1, j);
    }
}

/// A well-formed block at line `i`, followed by the end of the file or by a
/// line that opens a block, gives its test case, and parsing goes on behind
/// it.
pub proof fn lemma_parse_block(lines: Seq<Seq<char>>, i: int, b: Block)
    requires
        b.well_formed(),
        0 <= i,
        i + b.lines().len() <= lines.len(),
        lines.subrange(i, i + b.lines().len()) == b.lines(),
        i + b.lines().len() == lines.len() || opens_block(trim(lines[i + b.lines().len()])),
    ensures
        parse_from(lines, i) == prepend(
            seq![b.case()],
            parse_from(lines, i + b.lines().len()),
        ),
{
    let m = b.lines().len() as int;
    let part = lines.subrange(i, i + m);
    let sep = i + 1 + b.input.len();
    let end = i + m;
    assert forall|j: int| i <= j < end implies lines[j] == b.lines()[j - i] by {
        assert(part[j - i] == lines[j]);
    }
    assert(lines[i] == b.header);
    assert(lines[sep] == b.separator);
    assert forall|j: int| i + 1 <= j < sep implies is_plain(#[trigger] lines[j]) by {
        assert(lines[j] == b.input[j - i - 1]);
    }
    assert forall|j: int| sep + 1 <= j < end implies is_plain(#[trigger] lines[j]) by {
        assert(lines[j] == b.expected[j - sep - 1]);
    }
    assert forall|j: int| i + 1 <= j < end implies !opens_block(trim(#[trigger] lines[j])) by {
        if j != sep {
            assert(is_plain(lines[j]));
        }
    }
    lemma_block_end_is(lines, i + 1, end);
    assert forall|j: int| i + 1 <= j < sep implies !is_separator(trim(#[trigger] lines[j])) by {
        assert(is_plain(lines[j]));
    }
    lemma_first_separator_is(lines, i + 1, end, sep);
    assert forall|j: int| sep + 1 <= j < end implies !is_separator(trim(#[trigger] lines[j])) by {
        assert(is_plain(lines[j]));
    }
    lemma_first_separator_is(lines, sep + 1, end, end);
    assert(lines.subrange(i + 1, sep) =~= b.input);
    assert(lines.subrange(sep + 1, end) =~= b.expected);
}

/// Well-formed blocks from line `i` up to line `j`, where the file ends or
/// another block opens, give their test cases in order, and parsing goes on
/// at `j`.
pub proof fn lemma_parse_blocks(lines: Seq<Seq<char>>, i: int, j: int, blocks: Seq<Block>)
    requires
        all_well_formed(blocks),
        0 <= i <= j <= lines.len(),
        lines.subrange(i, j) == file_lines(blocks),
        j == lines.len() || opens_block(trim(lines[j])),
    ensures
        parse_from(lines, i) == prepend(block_cases(blocks), parse_from(lines, j)),
    decreases blocks.len(),
{
    if blocks.len() == 0 {
        assert(i == j);
        match parse_from(lines, j) {
            Ok(rest) => {
                assert(block_cases(blocks) + rest =~= rest);
            },
            Err(_) => {},
        }
    } else {
        let b = blocks[0];
        let rest = blocks.drop_first();
        let m = b.lines().len() as int;
        let part = lines.subrange(i, j);
        assert(b.well_formed());
        assert(part.len() == m + file_lines(rest).len());
        assert(lines.subrange(i, i + m) =~= b.lines()) by {
            assert forall|k: int| 0 <= k < m implies lines.subrange(i, i + m)[k] == b.lines()[k] by {
                assert(part[k] == lines[i + k]);
            }
        }
        assert(lines.subrange(i + m, j) =~= file_lines(rest)) by {
            assert forall|k: int| 0 <= k < j - i - m implies lines.subrange(i + m, j)[k]
                == file_lines(rest)[k] by {
                assert(part[m + k] == lines[i + m + k]);
            }
        }
        assert forall|k: int| 0 <= k < rest.len() implies (#[trigger] rest[k]).well_formed() by {
            assert(rest[k] == blocks[k + 1]);
        }
        if i + m < j {
            // then another block follows, and it begins with its header
            assert(rest.len() > 0);
            assert(rest[0].well_formed());
            assert(file_lines(rest)[0] == rest[0].header);
            assert(lines.subrange(i + m, j)[0] == lines[i + m]);
        } else if rest.len() > 0 {
            assert(file_lines(rest).len() >= rest[0].lines().len());
        }
        lemma_parse_block(lines, i, b);
        lemma_parse_blocks(lines, i + m, j, rest);
        match parse_from(lines, j) {
            Ok(tail) => {
                assert(seq![b.case()] + (block_cases(rest) + tail) =~= block_cases(blocks) + tail);
            },
            Err(_) => {},
        }
    }
}

/// A file of blank lines followed by well-formed blocks gives one test case
/// for each block, in the order of the file, each with the name of its
/// header, the lines before its separator as input and the lines behind it
/// as expected output, joined by line feeds.
pub proof fn lemma_parse_well_formed(blanks: Seq<Seq<char>>, blocks: Seq<Block>)
    requires
        all_blank(blanks),
        all_well_formed(blocks),
    ensures
        parse_from(blanks + file_lines(blocks), 0) == Ok::<Seq<TestCaseView>, ParseErrorView>(
            block_cases(blocks),
        ),
        block_cases(blocks).len() == blocks.len(),
{
    let lines = blanks + file_lines(blocks);
    let n = blanks.len() as int;
    assert forall|k: int| 0 <= k < n implies is_blank(#[trigger] lines[k]) by {
        assert(lines[k] == blanks[k]);
    }
    lemma_parse_skips_blanks(lines, 0, n);
    assert(lines.subrange(n, lines.len() as int) =~= file_lines(blocks));
    lemma_parse_blocks(lines, n, lines.len() as int, blocks);
    assert(block_cases(blocks) + Seq::<TestCaseView>::empty() =~= block_cases(blocks));
}

/// The same for the text of the file: where each line of such a file is
/// written out with a line feed behind it, reading the text gives the test
/// cases of the blocks.
pub proof fn lemma_parse_well_formed_text(blanks: Seq<Seq<char>>, blocks: Seq<Block>)
    requires
        all_blank(blanks),
        all_well_formed(blocks),
        forall|k: int|
            0 <= k < (blanks + file_lines(blocks)).len() ==> is_line(
                #[trigger] (blanks + file_lines(blocks))[k],
            ),
    ensures
        parse_text(unlines(blanks + file_lines(blocks))) == Ok::<
            Seq<TestCaseView>,
            ParseErrorView,
        >(block_cases(blocks)),
{
    lemma_lines_of_unlines(blanks + file_lines(blocks));
    lemma_parse_well_formed(blanks, blocks);
}

/// A block without a separator is rejected with an error that names the
/// line of its header, whatever the well-formed blocks before it hold and
/// whatever follows it.
///
/// `body` is what stands between the header and the next line that opens a
/// block; `rest` starts with that line, or is empty.
pub proof fn lemma_missing_separator(
    blanks: Seq<Seq<char>>,
    blocks: Seq<Block>,
    header: Seq<char>,
    body: Seq<Seq<char>>,
    rest: Seq<Seq<char>>,
)
    requires
        all_blank(blanks),
        all_well_formed(blocks),
        is_named_header(header),
        all_plain(body),
        rest.len() > 0 ==> opens_block(trim(rest[0])),
    ensures
        parse_from(blanks + file_lines(blocks) + seq![header] + body + rest, 0) == Err::<
            Seq<TestCaseView>,
            ParseErrorView,
        >(
            ParseErrorView::MissingSeparator {
                name: header_name(trim(header)),
                started: blanks.len() + file_lines(blocks).len() + 1,
            },
        ),
{
    let lines = blanks + file_lines(blocks) + seq![header] + body + rest;
    let n = blanks.len() as int;
    let h = n + file_lines(blocks).len();
    let end = h + 1 + body.len();
    assert forall|k: int| 0 <= k < n implies is_blank(#[trigger] lines[k]) by {
        assert(lines[k] == blanks[k]);
    }
    lemma_parse_skips_blanks(lines, 0, n);
    assert(lines.subrange(n, h) =~= file_lines(blocks));
    assert(lines[h] == header);
    lemma_parse_blocks(lines, n, h, blocks);
    assert forall|j: int| h + 1 <= j < end implies is_plain(#[trigger] lines[j]) by {
        assert(lines[j] == body[j - h - 1]);
    }
    assert forall|j: int| h + 1 <= j < end implies !opens_block(trim(#[trigger] lines[j])) by {
        assert(is_plain(lines[j]));
    }
    if rest.len() > 0 {
        assert(lines[end] == rest[0]);
    }
    lemma_block_end_is(lines, h + 1, end);
    assert forall|j: int| h + 1 <= j < end implies !is_separator(trim(#[trigger] lines[j])) by {
        assert(is_plain(lines[j]));
    }
    lemma_first_separator_is(lines, h + 1, end, end);
}

} // verus!
