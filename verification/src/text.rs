//! Text as a sequence of characters: white space, trimming, lines.

use vstd::prelude::*;

verus! {

/// `String::push` appends one character to the end of the string.
pub assume_specification[ String::push ](s: &mut String, ch: char)
    ensures
        final(s)@ == old(s)@.push(ch),
;

/// The characters of `s`, in order.
pub fn chars_of(s: &str) -> (v: Vec<char>)
    ensures
        v@ == s@,
{
    let mut v: Vec<char> = Vec::new();
    for c in it: s.chars()
        invariant
            it.seq() == s@,
            v@ == s@.take(it.index() as int),
    {
        v.push(c);
    }
    v
}

/// The string made of `v[from..to]`.
pub(crate) fn string_of(v: &Vec<char>, from: usize, to: usize) -> (s: String)
    requires
        from <= to <= v.len(),
    ensures
        s@ == v@.subrange(from as int, to as int),
{
    let mut s = String::new();
    let mut i: usize = from;
    while i < to
        invariant
            from <= i <= to <= v.len(),
            s@ == v@.subrange(from as int, i as int),
        decreases to - i,
    {
        s.push(v[i]);
        i += 1;
    }
    s
}

/// Tells whether two texts are the same.
pub fn same_text(a: &str, b: &str) -> (r: bool)
    ensures
        r == (a@ == b@),
{
    let x = chars_of(a);
    let y = chars_of(b);
    if x.len() != y.len() {
        return false;
    }
    let mut i: usize = 0;
    while i < x.len()
        invariant
            i <= x.len() == y.len(),
            x@ == a@,
            y@ == b@,
            forall|j: int| 0 <= j < i ==> x@[j] == y@[j],
        decreases x.len() - i,
    {
        if x[i] != y[i] {
            proof {
                assert(a@[i as int] != b@[i as int]);
            }
            return false;
        }
        i += 1;
    }
    proof {
        assert(x@ =~= y@);
    }
    true
}

/// The characters that count as white space: the code points with the Unicode
/// property `White_Space`.
pub open spec fn is_space(c: char) -> bool {
    let n = c as u32;
    ||| 0x09 <= n <= 0x0D
    ||| n == 0x20
    ||| n == 0x85
    ||| n == 0xA0
    ||| n == 0x1680
    ||| 0x2000 <= n <= 0x200A
    ||| n == 0x2028
    ||| n == 0x2029
    ||| n == 0x202F
    ||| n == 0x205F
    ||| n == 0x3000
}

/// Tells whether `c` is white space.
pub fn is_whitespace(c: char) -> (r: bool)
    ensures
        r == is_space(c),
{
    let n: u32 = c as u32;
    (0x09 <= n && n <= 0x0D) || n == 0x20 || n == 0x85 || n == 0xA0 || n == 0x1680 || (0x2000 <= n
        && n <= 0x200A) || n == 0x2028 || n == 0x2029 || n == 0x202F || n == 0x205F || n == 0x3000
}

/// Every character of `s` is white space.
pub open spec fn all_space(s: Seq<char>) -> bool {
    forall|i: int| 0 <= i < s.len() ==> is_space(#[trigger] s[i])
}

/// How many white-space characters `s` begins with.
pub open spec fn leading_spaces(s: Seq<char>) -> nat
    decreases s.len(),
{
    if s.len() > 0 && is_space(s[0]) {
        1 + leading_spaces(s.drop_first())
    } else {
        0
    }
}

/// How many white-space characters `s` ends with.
pub open spec fn trailing_spaces(s: Seq<char>) -> nat
    decreases s.len(),
{
    if s.len() > 0 && is_space(s.last()) {
        1 + trailing_spaces(s.drop_last())
    } else {
        0
    }
}

/// `s` without the white space at its start.
pub open spec fn trim_start(s: Seq<char>) -> Seq<char> {
    s.skip(leading_spaces(s) as int)
}

/// `s` without the white space at its end.
pub open spec fn trim_end(s: Seq<char>) -> Seq<char> {
    s.take(s.len() - trailing_spaces(s))
}

/// `s` without the white space at its start and at its end.
pub open spec fn trim(s: Seq<char>) -> Seq<char> {
    trim_end(trim_start(s))
}

/// `leading_spaces(s)` is the one index before which all is white space and
/// at which `s` ends or holds something else.
pub proof fn lemma_leading_spaces(s: Seq<char>, k: int)
    requires
        0 <= k <= s.len(),
        all_space(s.take(k)),
        k == s.len() || !is_space(s[k]),
    ensures
        leading_spaces(s) == k,
    decreases k,
{
    if k > 0 {
        assert(s.take(k)[0] == s[0]);
        let r = s.drop_first();
        assert forall|i: int| 0 <= i < k - 1 implies is_space(#[trigger] r.take(k - 1)[i]) by {
            assert(r.take(k - 1)[i] == s.take(k)[i + 1]);
        }
        lemma_leading_spaces(r, k - 1);
    }
}

/// `trailing_spaces(s)` is the one count of final characters that are all
/// white space and before which `s` starts or holds something else.
pub proof fn lemma_trailing_spaces(s: Seq<char>, k: int)
    requires
        0 <= k <= s.len(),
        all_space(s.skip(s.len() - k)),
        k == s.len() || !is_space(s[s.len() - k - 1]),
    ensures
        trailing_spaces(s) == k,
    decreases k,
{
    if k > 0 {
        assert(s.skip(s.len() - k)[k - 1] == s.last());
        let r = s.drop_last();
        assert forall|i: int| 0 <= i < k - 1 implies is_space(
            #[trigger] r.skip(r.len() - (k - 1))[i],
        ) by {
            assert(r.skip(r.len() - (k - 1))[i] == s.skip(s.len() - k)[i]);
        }
        lemma_trailing_spaces(r, k - 1);
    }
}

/// The bounds of a trimmed text: `leading_spaces` stays within the text,
/// everything before it is white space, and what stands at it is not.
pub proof fn lemma_leading_spaces_bounds(s: Seq<char>)
    ensures
        leading_spaces(s) <= s.len(),
        all_space(s.take(leading_spaces(s) as int)),
        leading_spaces(s) == s.len() || !is_space(s[leading_spaces(s) as int]),
    decreases s.len(),
{
    if s.len() > 0 && is_space(s[0]) {
        let r = s.drop_first();
        lemma_leading_spaces_bounds(r);
        let k = leading_spaces(s) as int;
        assert forall|i: int| 0 <= i < k implies is_space(#[trigger] s.take(k)[i]) by {
            if i > 0 {
                assert(s.take(k)[i] == r.take(k - 1)[i - 1]);
            }
        }
    }
}

/// The counterpart of `lemma_leading_spaces_bounds` for the end of a text.
pub proof fn lemma_trailing_spaces_bounds(s: Seq<char>)
    ensures
        trailing_spaces(s) <= s.len(),
        all_space(s.skip(s.len() - trailing_spaces(s))),
        trailing_spaces(s) == s.len() || !is_space(s[s.len() - trailing_spaces(s) - 1]),
    decreases s.len(),
{
    if s.len() > 0 && is_space(s.last()) {
        let r = s.drop_last();
        lemma_trailing_spaces_bounds(r);
        let k = trailing_spaces(s) as int;
        assert forall|i: int| 0 <= i < k implies is_space(#[trigger] s.skip(s.len() - k)[i]) by {
            if i < k - 1 {
                assert(s.skip(s.len() - k)[i] == r.skip(r.len() - (k - 1))[i]);
            }
        }
    }
}

/// A range `[a, b)` of `s` is its trimmed form when all before `a` and all
/// from `b` on is white space and the range is empty or has no white space at
/// either end.
pub proof fn lemma_trim_is_range(s: Seq<char>, a: int, b: int)
    requires
        0 <= a <= b <= s.len(),
        all_space(s.take(a)),
        all_space(s.skip(b)),
        a == b ==> a == s.len(),
        a < b ==> !is_space(s[a]) && !is_space(s[b - 1]),
    ensures
        trim(s) == s.subrange(a, b),
{
    lemma_leading_spaces(s, a);
    let t = s.skip(a);
    assert forall|i: int| 0 <= i < s.len() - b implies is_space(
        #[trigger] t.skip(t.len() - (s.len() - b))[i],
    ) by {
        assert(t.skip(t.len() - (s.len() - b))[i] == s.skip(b)[i]);
    }
    lemma_trailing_spaces(t, s.len() - b);
    assert(t.take(t.len() - (s.len() - b)) =~= s.subrange(a, b));
}

/// A trimmed text is empty, or neither starts nor ends with white space.
pub proof fn lemma_trim_ends(s: Seq<char>)
    ensures
        trim(s).len() <= s.len(),
        trim(s).len() > 0 ==> !is_space(trim(s)[0]) && !is_space(trim(s).last()),
{
    lemma_leading_spaces_bounds(s);
    let t = trim_start(s);
    lemma_trailing_spaces_bounds(t);
    if trim(s).len() > 0 {
        assert(trim(s)[0] == t[0]);
        assert(t[0] == s[leading_spaces(s) as int]);
    }
}

/// Trimming twice is trimming once.
pub proof fn lemma_trim_idempotent(s: Seq<char>)
    ensures
        trim(trim(s)) == trim(s),
{
    let t = trim(s);
    lemma_trim_ends(s);
    assert(all_space(t.take(0)));
    assert(all_space(t.skip(t.len() as int)));
    lemma_trim_is_range(t, 0, t.len() as int);
    assert(t.subrange(0, t.len() as int) =~= t);
}

/// The bounds `(a, b)` of the trimmed form of `v[from..to]`, as indices
/// into `v`.
pub(crate) fn trim_range(v: &Vec<char>, from: usize, to: usize) -> (r: (usize, usize))
    requires
        from <= to <= v.len(),
    ensures
        from <= r.0 <= r.1 <= to,
        v@.subrange(r.0 as int, r.1 as int) == trim(v@.subrange(from as int, to as int)),
{
    let ghost s = v@.subrange(from as int, to as int);
    let mut a: usize = from;
    while a < to && is_whitespace(v[a])
        invariant
            from <= a <= to <= v.len(),
            s == v@.subrange(from as int, to as int),
            all_space(s.take(a - from)),
        decreases to - a,
    {
        a += 1;
        proof {
            assert forall|i: int| 0 <= i < a - from implies is_space(#[trigger] s.take(a - from)[i]) by {
                if i < a - from - 1 {
                    assert(s.take(a - from)[i] == s.take(a - from - 1)[i]);
                }
            }
        }
    }
    let mut b: usize = to;
    while b > a && is_whitespace(v[b - 1])
        invariant
            from <= a <= b <= to <= v.len(),
            s == v@.subrange(from as int, to as int),
            a == to || !is_space(v@[a as int]),
            all_space(s.skip(b - from)),
        decreases b,
    {
        b -= 1;
        proof {
            assert forall|i: int| 0 <= i < to - b implies is_space(#[trigger] s.skip(b - from)[i]) by {
                if i > 0 {
                    assert(s.skip(b - from)[i] == s.skip(b - from + 1)[i - 1]);
                }
            }
        }
    }
    proof {
        if a == b && a < to {
            assert(s.skip(b - from)[0] == v@[a as int]);
        }
        lemma_trim_is_range(s, a - from, b - from);
        assert(s.subrange(a - from, b - from) =~= v@.subrange(a as int, b as int));
    }
    (a, b)
}

/// The bounds `(a, b)` of the trimmed form of `v` within `v`.
pub fn trim_bounds(v: &Vec<char>) -> (r: (usize, usize))
    ensures
        r.0 <= r.1 <= v.len(),
        v@.subrange(r.0 as int, r.1 as int) == trim(v@),
{
    proof {
        assert(v@.subrange(0, v.len() as int) =~= v@);
    }
    trim_range(v, 0, v.len())
}

/// `s` with leading and trailing white space removed.
pub fn trim_text(s: &str) -> (r: String)
    ensures
        r@ == trim(s@),
{
    let v = chars_of(s);
    let (a, b) = trim_bounds(&v);
    string_of(&v, a, b)
}

/// `s` with every carriage return that stands directly before a line feed
/// taken out, so that each `"\r\n"` becomes `"\n"`.
pub open spec fn crlf_to_lf(s: Seq<char>) -> Seq<char>
    decreases s.len(),
{
    if s.len() == 0 {
        s
    } else if s.len() >= 2 && s[0] == '\r' && s[1] == '\n' {
        seq!['\n'] + crlf_to_lf(s.skip(2))
    } else {
        seq![s[0]] + crlf_to_lf(s.skip(1))
    }
}

/// `s` holds a carriage return directly followed by a line feed.
pub open spec fn has_crlf(s: Seq<char>) -> bool {
    exists|i: int| 0 <= i && i + 1 < s.len() && #[trigger] s[i] == '\r' && s[i + 1] == '\n'
}

/// Without such a pair there is nothing to replace.
pub proof fn lemma_crlf_to_lf_unchanged(s: Seq<char>)
    requires
        !has_crlf(s),
    ensures
        crlf_to_lf(s) == s,
    decreases s.len(),
{
    if s.len() > 0 {
        if s.len() >= 2 && s[0] == '\r' && s[1] == '\n' {
            let z: int = 0;
            assert(s[z] == '\r' && s[z + 1] == '\n');
        }
        let r = s.skip(1);
        if has_crlf(r) {
            let i = choose|i: int| 0 <= i && i + 1 < r.len() && #[trigger] r[i] == '\r' && r[i + 1] == '\n';
            assert(s[i + 1] == '\r' && s[i + 1 + 1] == '\n');
        }
        lemma_crlf_to_lf_unchanged(r);
        assert(seq![s[0]] + r =~= s);
    }
}

/// Each replacement makes the text shorter: with such a pair the result is
/// shorter than the text, and it is never longer.
pub proof fn lemma_crlf_to_lf_len(s: Seq<char>)
    ensures
        crlf_to_lf(s).len() <= s.len(),
        has_crlf(s) ==> crlf_to_lf(s).len() < s.len(),
    decreases s.len(),
{
    if s.len() > 0 {
        if s.len() >= 2 && s[0] == '\r' && s[1] == '\n' {
            lemma_crlf_to_lf_len(s.skip(2));
        } else {
            let r = s.skip(1);
            lemma_crlf_to_lf_len(r);
            if has_crlf(s) {
                let i = choose|i: int| 0 <= i && i + 1 < s.len() && #[trigger] s[i] == '\r' && s[i + 1] == '\n';
                assert(i > 0);
                assert(r[i - 1] == '\r' && r[i - 1 + 1] == '\n');
            }
        }
    }
}

/// The characters of `v` with each `"\r\n"` replaced by `"\n"`.
pub fn replace_crlf(v: &Vec<char>) -> (out: Vec<char>)
    ensures
        out@ == crlf_to_lf(v@),
{
    let n = v.len();
    let mut out: Vec<char> = Vec::new();
    let mut i: usize = 0;
    proof {
        assert(v@.skip(0) =~= v@);
        assert(out@ + crlf_to_lf(v@) =~= crlf_to_lf(v@));
    }
    while i < n
        invariant
            i <= n == v.len(),
            out@ + crlf_to_lf(v@.skip(i as int)) == crlf_to_lf(v@),
        decreases n - i,
    {
        let ghost rest = v@.skip(i as int);
        let ghost before = out@;
        if v[i] == '\r' && i + 1 < n && v[i + 1] == '\n' {
            out.push('\n');
            proof {
                assert(rest.skip(2) =~= v@.skip(i + 2));
                assert(out@ + crlf_to_lf(v@.skip(i + 2)) =~= before + crlf_to_lf(rest));
            }
            i += 2;
        } else {
            out.push(v[i]);
            proof {
                assert(rest.skip(1) =~= v@.skip(i + 1));
                assert(out@ + crlf_to_lf(v@.skip(i + 1)) =~= before + crlf_to_lf(rest));
            }
            i += 1;
        }
    }
    proof {
        assert(out@ + crlf_to_lf(v@.skip(n as int)) =~= out@);
    }
    out
}

/// The index of the first line feed of `s`, or its length if it has none.
pub open spec fn first_newline(s: Seq<char>) -> nat
    decreases s.len(),
{
    if s.len() == 0 || s[0] == '\n' {
        0
    } else {
        1 + first_newline(s.drop_first())
    }
}

/// `line` without one final carriage return.
pub open spec fn strip_cr(line: Seq<char>) -> Seq<char> {
    if line.len() > 0 && line.last() == '\r' {
        line.drop_last()
    } else {
        line
    }
}

/// The lines of `s`. A line ends at a line feed; the line feed, and a
/// carriage return directly before it, are not part of the line. What follows
/// the last line feed is a line of its own unless it is empty.
pub open spec fn lines_of(s: Seq<char>) -> Seq<Seq<char>>
    decreases s.len(),
{
    if s.len() == 0 {
        Seq::empty()
    } else {
        let k = first_newline(s) as int;
        if k >= s.len() {
            seq![s]
        } else {
            seq![strip_cr(s.take(k))] + lines_of(s.skip(k + 1))
        }
    }
}

/// `first_newline(s)` is the one index before which no line feed stands and
/// at which `s` ends or holds one.
pub proof fn lemma_first_newline(s: Seq<char>, k: int)
    requires
        0 <= k <= s.len(),
        forall|j: int| 0 <= j < k ==> s[j] != '\n',
        k == s.len() || s[k] == '\n',
    ensures
        first_newline(s) == k,
    decreases k,
{
    if k > 0 {
        lemma_first_newline(s.drop_first(), k - 1);
    }
}

/// The views of the strings held in `v`.
pub open spec fn strings_view(v: Seq<String>) -> Seq<Seq<char>> {
    Seq::new(v.len(), |i: int| v[i]@)
}

/// The views of the lines held in `v`.
pub open spec fn lines_view(v: Seq<Vec<char>>) -> Seq<Seq<char>> {
    Seq::new(v.len(), |i: int| v[i]@)
}

/// A copy of `v[from..to]`.
pub(crate) fn copy_range(v: &Vec<char>, from: usize, to: usize) -> (out: Vec<char>)
    requires
        from <= to <= v.len(),
    ensures
        out@ == v@.subrange(from as int, to as int),
{
    let mut out: Vec<char> = Vec::new();
    let mut i: usize = from;
    while i < to
        invariant
            from <= i <= to <= v.len(),
            out@ == v@.subrange(from as int, i as int),
        decreases to - i,
    {
        out.push(v[i]);
        i += 1;
    }
    out
}

/// The lines of `v`, each as a vector of its own.
pub fn split_lines(v: &Vec<char>) -> (lines: Vec<Vec<char>>)
    ensures
        lines_view(lines@) == lines_of(v@),
{
    let n = v.len();
    let mut lines: Vec<Vec<char>> = Vec::new();
    let mut start: usize = 0;
    let mut i: usize = 0;
    proof {
        assert(v@.skip(0) =~= v@);
        assert(lines_view(lines@) + lines_of(v@) =~= lines_of(v@));
    }
    while i < n
        invariant
            start <= i <= n == v.len(),
            forall|j: int| start <= j < i ==> v@[j] != '\n',
            lines_view(lines@) + lines_of(v@.skip(start as int)) == lines_of(v@),
        decreases n - i,
    {
        if v[i] == '\n' {
            let ghost rest = v@.skip(start as int);
            let ghost before = lines_view(lines@);
            let end = if i > start && v[i - 1] == '\r' {
                i - 1
            } else {
                i
            };
            let line = copy_range(v, start, end);
            proof {
                lemma_first_newline(rest, i - start);
                assert(rest.take(i - start) =~= v@.subrange(start as int, i as int));
                assert(line@ =~= strip_cr(rest.take(i - start)));
                assert(rest.skip(i - start + 1) =~= v@.skip(i + 1));
            }
            lines.push(line);
            proof {
                assert(lines_view(lines@) =~= before.push(line@));
                assert(lines_view(lines@) + lines_of(v@.skip(i + 1)) =~= before + lines_of(rest));
            }
            start = i + 1;
        }
        i += 1;
    }
    let ghost rest = v@.skip(start as int);
    let ghost before = lines_view(lines@);
    if start < n {
        let line = copy_range(v, start, n);
        proof {
            lemma_first_newline(rest, n - start);
            assert(line@ =~= rest);
        }
        lines.push(line);
        proof {
            assert(lines_view(lines@) =~= before.push(line@));
            assert(lines_view(lines@) =~= before + lines_of(rest));
        }
    } else {
        proof {
            assert(before + lines_of(rest) =~= before);
        }
    }
    lines
}

/// The lines joined again, with one line feed between each two.
pub open spec fn join_lines(lines: Seq<Seq<char>>) -> Seq<char>
    decreases lines.len(),
{
    if lines.len() == 0 {
        Seq::empty()
    } else if lines.len() == 1 {
        lines[0]
    } else {
        join_lines(lines.drop_last()) + seq!['\n'] + lines.last()
    }
}

/// The lines `lines[from..to]` joined with line feeds, as a string.
pub(crate) fn join_range(lines: &Vec<Vec<char>>, from: usize, to: usize) -> (s: String)
    requires
        from <= to <= lines.len(),
    ensures
        s@ == join_lines(lines_view(lines@).subrange(from as int, to as int)),
{
    let mut s = String::new();
    let mut i: usize = from;
    while i < to
        invariant
            from <= i <= to <= lines.len(),
            s@ == join_lines(lines_view(lines@).subrange(from as int, i as int)),
        decreases to - i,
    {
        let ghost done = lines_view(lines@).subrange(from as int, i as int);
        let ghost next = lines_view(lines@).subrange(from as int, i + 1);
        if i > from {
            s.push('\n');
        }
        let line = &lines[i];
        let m = line.len();
        let ghost base = s@;
        let mut j: usize = 0;
        while j < m
            invariant
                j <= m == line.len(),
                s@ == base + line@.take(j as int),
            decreases m - j,
        {
            s.push(line[j]);
            proof {
                assert(line@.take(j + 1) =~= line@.take(j as int).push(line@[j as int]));
            }
            j += 1;
        }
        proof {
            assert(line@.take(m as int) =~= line@);
            assert(next.drop_last() =~= done);
            assert(next.last() == line@);
            if i == from {
                assert(base =~= Seq::<char>::empty());
                assert(s@ =~= line@);
            }
        }
        i += 1;
    }
    s
}

/// The character of the decimal digit `d`.
pub open spec fn digit_char(d: nat) -> char {
    ((48 + d) as u8) as char
}

/// The decimal digits of `n`, most significant first, without leading zeros.
pub open spec fn decimal(n: nat) -> Seq<char>
    decreases n,
{
    if n < 10 {
        seq![digit_char(n)]
    } else {
        decimal(n / 10).push(digit_char(n % 10))
    }
}

/// The number that a sequence of decimal digits stands for.
pub open spec fn decimal_value(s: Seq<char>) -> nat
    decreases s.len(),
{
    if s.len() == 0 {
        0
    } else {
        (10 * decimal_value(s.drop_last()) + (s.last() as u32 - 48)) as nat
    }
}

/// Reading the digits of a number gives the number back.
pub proof fn lemma_decimal_value(n: nat)
    ensures
        decimal_value(decimal(n)) == n,
    decreases n,
{
    if n < 10 {
        assert(decimal(n).drop_last() =~= Seq::<char>::empty());
        assert(decimal_value(decimal(n).drop_last()) == 0);
    } else {
        lemma_decimal_value(n / 10);
        assert(decimal(n).drop_last() =~= decimal(n / 10));
    }
}

/// Two numbers with the same digits are the same number.
pub proof fn lemma_decimal_injective(a: nat, b: nat)
    requires
        decimal(a) == decimal(b),
    ensures
        a == b,
{
    lemma_decimal_value(a);
    lemma_decimal_value(b);
}

/// Ten to the power of `e`.
pub open spec fn pow10(e: nat) -> nat
    decreases e,
{
    if e == 0 {
        1
    } else {
        10 * pow10((e - 1) as nat)
    }
}

/// Dropping a digit from `m` and adding a zero to the scale does not make
/// the product larger.
proof fn lemma_pow10_step(m: nat, e: nat)
    ensures
        (m / 10) * pow10(e + 1) <= m * pow10(e),
{
    assert(pow10(e + 1) == 10 * pow10(e));
    assert((m / 10) * 10 <= m);
    assert((m / 10) * (10 * pow10(e)) == ((m / 10) * 10) * pow10(e)) by (nonlinear_arith);
    assert(((m / 10) * 10) * pow10(e) <= m * pow10(e)) by (nonlinear_arith)
        requires
            (m / 10) * 10 <= m,
    ;
}

/// The powers of ten grow.
proof fn lemma_pow10_monotonic(a: nat, b: nat)
    requires
        a <= b,
    ensures
        pow10(a) <= pow10(b),
    decreases b,
{
    if a < b {
        lemma_pow10_monotonic(a, (b - 1) as nat);
    }
}

/// A number of 64 bits has at most twenty digits: what is left of it after
/// `e` digits were taken is zero where `e` is twenty or more.
proof fn lemma_pow10_bound(m: nat, e: nat, n: nat)
    requires
        m > 0,
        m * pow10(e) <= n,
        n <= u64::MAX,
    ensures
        e <= 19,
{
    if e >= 20 {
        lemma_pow10_monotonic(20, e);
        assert(pow10(20) == 100000000000000000000) by {
            reveal_with_fuel(pow10, 21);
        }
        assert(m * pow10(e) >= pow10(e)) by (nonlinear_arith)
            requires
                m >= 1,
        ;
    }
}

/// The decimal digits of `n` as a string.
pub fn decimal_string(n: u64) -> (s: String)
    ensures
        s@ == decimal(n as nat),
{
    // the digits are written from the last to the first into a buffer that
    // holds the longest number there is
    let mut buf: Vec<char> = Vec::new();
    let mut k: usize = 0;
    while k < 20
        invariant
            k <= 20,
            buf.len() == k,
        decreases 20 - k,
    {
        buf.push('0');
        k += 1;
    }
    let mut pos: usize = 19;
    buf.set(pos, ((48 + (n % 10)) as u8) as char);
    let mut m: u64 = n / 10;
    proof {
        assert(buf@.subrange(19, 20) =~= seq![digit_char((n % 10) as nat)]);
        assert(pow10(1) == 10) by {
            reveal_with_fuel(pow10, 2);
        }
    }
    while m > 0
        invariant
            pos <= 19,
            buf.len() == 20,
            m > 0 ==> decimal(n as nat) == decimal(m as nat) + buf@.subrange(pos as int, 20),
            m == 0 ==> decimal(n as nat) == buf@.subrange(pos as int, 20),
            (m as nat) * pow10((20 - pos) as nat) <= n,
        decreases m,
    {
        let ghost before = buf@.subrange(pos as int, 20);
        let ghost m0 = m;
        proof {
            lemma_pow10_bound(m as nat, (20 - pos) as nat, n as nat);
        }
        pos -= 1;
        buf.set(pos, ((48 + (m % 10)) as u8) as char);
        m = m / 10;
        proof {
            assert(buf@.subrange(pos as int, 20) =~= seq![digit_char((m0 % 10) as nat)] + before);
            if m > 0 {
                assert(decimal(m0 as nat) + before =~= decimal(m as nat) + buf@.subrange(
                    pos as int,
                    20,
                ));
            } else {
                assert(decimal(m0 as nat) + before =~= buf@.subrange(pos as int, 20));
            }
            lemma_pow10_step(m0 as nat, (19 - pos) as nat);
        }
    }
    string_of(&buf, pos, 20)
}

/// The text in which each of `lines` is followed by a line feed.
pub open spec fn unlines(lines: Seq<Seq<char>>) -> Seq<char>
    decreases lines.len(),
{
    if lines.len() == 0 {
        Seq::empty()
    } else {
        lines[0] + seq!['\n'] + unlines(lines.drop_first())
    }
}

/// `l` can stand as one line of a text: it holds no line feed and does not
/// end with a carriage return.
pub open spec fn is_line(l: Seq<char>) -> bool {
    &&& forall|i: int| 0 <= i < l.len() ==> l[i] != '\n'
    &&& l.len() > 0 ==> l.last() != '\r'
}

/// Writing lines out and splitting the text again gives the lines back.
pub proof fn lemma_lines_of_unlines(lines: Seq<Seq<char>>)
    requires
        forall|k: int| 0 <= k < lines.len() ==> is_line(#[trigger] lines[k]),
    ensures
        lines_of(unlines(lines)) == lines,
    decreases lines.len(),
{
    if lines.len() > 0 {
        let first = lines[0];
        let rest = lines.drop_first();
        let s = unlines(lines);
        let k = first.len() as int;
        assert(is_line(first));
        assert forall|j: int| 0 <= j < rest.len() implies is_line(#[trigger] rest[j]) by {
            assert(rest[j] == lines[j + 1]);
        }
        lemma_lines_of_unlines(rest);
        assert forall|j: int| 0 <= j < k implies s[j] != '\n' by {
            assert(s[j] == first[j]);
        }
        assert(s[k] == '\n');
        lemma_first_newline(s, k);
        assert(s.take(k) =~= first);
        assert(s.skip(k + 1) =~= unlines(rest));
        assert(seq![first] + rest =~= lines);
    }
}

} // verus!
