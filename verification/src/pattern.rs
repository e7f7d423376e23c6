//! Telling by its name what a source file is for: a name matches a target
//! word such as `sol` or `gen` where the word stands in it at a word
//! boundary.
//!
//! Names are looked at in lower case; a capital letter in the name as
//! written counts as the start of a word, and so does what follows an
//! underscore.

use crate::text::{chars_of, string_of, strings_view};
use vstd::prelude::*;
use vstd::utf8::encode_utf8;

verus! {

/// What `str::to_lowercase` makes of a text.
pub uninterp spec fn lowercase_of(s: Seq<char>) -> Seq<char>;

/// Whether `char::is_uppercase` holds of a character.
pub uninterp spec fn is_uppercase_char(c: char) -> bool;

/// `str::to_lowercase` gives the lower-case form of a text; the result
/// depends on the text alone.
#[verifier::external_body]
pub(crate) fn to_lowercase(s: &str) -> (r: String)
    ensures
        r@ == lowercase_of(s@),
{
    s.to_lowercase()
}

/// `char::is_uppercase` tells whether a character has the Unicode property
/// `Uppercase`; the result depends on the character alone.
#[verifier::external_body]
pub(crate) fn char_is_uppercase(c: char) -> (r: bool)
    ensures
        r == is_uppercase_char(c),
{
    c.is_uppercase()
}

/// For each character of `s`, whether it is an upper-case letter.
pub open spec fn uppercase_flags(s: Seq<char>) -> Seq<bool> {
    Seq::new(s.len(), |i: int| is_uppercase_char(s[i]))
}

/// The length of a text in bytes, as `str::len` gives it.
pub open spec fn byte_len(s: Seq<char>) -> usize {
    encode_utf8(s).len() as usize
}

/// The character at index `k`, if there is one.
pub open spec fn char_at(s: Seq<char>, k: int) -> Option<char> {
    if 0 <= k < s.len() {
        Some(s[k])
    } else {
        None
    }
}

/// The flag at index `k`; false where there is none.
pub open spec fn flag_at(flags: Seq<bool>, k: int) -> bool {
    0 <= k < flags.len() && flags[k]
}

/// `p` stands in `s` at index `i`.
pub open spec fn occurs_at(s: Seq<char>, p: Seq<char>, i: int) -> bool {
    0 <= i && i + p.len() <= s.len() && s.subrange(i, i + p.len()) == p
}

/// The first index from `from` on at which `p` stands in `s`.
pub open spec fn occurrence_from(s: Seq<char>, p: Seq<char>, from: int) -> Option<int>
    decreases s.len() - from + 1,
{
    if from < 0 || from + p.len() > s.len() {
        None
    } else if occurs_at(s, p, from) {
        Some(from)
    } else {
        occurrence_from(s, p, from + 1)
    }
}

/// The first index at which `p` stands in `s`.
pub open spec fn first_occurrence(s: Seq<char>, p: Seq<char>) -> Option<int> {
    occurrence_from(s, p, 0)
}

/// `p` stands somewhere in `s`.
pub open spec fn contains(s: Seq<char>, p: Seq<char>) -> bool {
    first_occurrence(s, p) is Some
}

/// `s` begins with `p`.
pub open spec fn starts_with(s: Seq<char>, p: Seq<char>) -> bool {
    occurs_at(s, p, 0)
}

/// `s` ends with `p`.
pub open spec fn ends_with(s: Seq<char>, p: Seq<char>) -> bool {
    occurs_at(s, p, s.len() - p.len())
}

/// An index found by `occurrence_from` is the first one from `from` on at
/// which `p` stands in `s`; where none is found, `p` stands nowhere from
/// `from` on.
pub proof fn lemma_occurrence_from(s: Seq<char>, p: Seq<char>, from: int)
    requires
        0 <= from,
    ensures
        match occurrence_from(s, p, from) {
            Some(i) => from <= i && occurs_at(s, p, i) && forall|j: int|
                from <= j < i ==> !occurs_at(s, p, j),
            None => forall|j: int| from <= j ==> !occurs_at(s, p, j),
        },
    decreases s.len() - from + 1,
{
    if from + p.len() <= s.len() && !occurs_at(s, p, from) {
        lemma_occurrence_from(s, p, from + 1);
    }
}

/// The word `p` stands in a name at the start, with a word boundary behind
/// it: the name ends there, or an underscore or a capital letter follows.
///
/// `lowered` is the name in lower case; `upper` tells for each character of
/// the name as written whether it is a capital letter. Where the name is
/// looked into, it is at the length of the word in bytes.
pub open spec fn matches_at_start(lowered: Seq<char>, upper: Seq<bool>, p: Seq<char>) -> bool {
    let after = byte_len(p) as int;
    starts_with(lowered, p) && (byte_len(lowered) == byte_len(p) || char_at(lowered, after) == Some(
        '_',
    ) || flag_at(upper, after))
}

/// The word `p` stands in a name at the end, with a word boundary before
/// it: the name starts there, an underscore stands before it, or it begins
/// with a capital letter.
pub open spec fn matches_at_end(lowered: Seq<char>, upper: Seq<bool>, p: Seq<char>) -> bool {
    let start = byte_len(lowered) - byte_len(p);
    ends_with(lowered, p) && start >= 0 && (start == 0 || char_at(lowered, start - 1) == Some('_')
        || (p.len() > 0 && flag_at(upper, start)))
}

/// The word `p` stands in a name with word boundaries on both sides, at the
/// first place where it stands in it at all.
pub open spec fn matches_inside(lowered: Seq<char>, upper: Seq<bool>, p: Seq<char>) -> bool {
    match first_occurrence(lowered, p) {
        Some(i) => {
            let pos = byte_len(lowered.take(i)) as int;
            let after = pos + byte_len(p);
            &&& pos == 0 || char_at(lowered, pos - 1) == Some('_')
            &&& after == byte_len(lowered) || char_at(lowered, after) == Some('_') || flag_at(
                upper,
                after,
            )
        },
        None => false,
    }
}

/// A name matches the word `p`.
pub open spec fn matches_word(lowered: Seq<char>, upper: Seq<bool>, p: Seq<char>) -> bool {
    ||| lowered == p
    ||| matches_at_start(lowered, upper, p)
    ||| matches_at_end(lowered, upper, p)
    ||| matches_inside(lowered, upper, p)
}

/// A name matches one of the words.
pub open spec fn matches_any_word(lowered: Seq<char>, upper: Seq<bool>, words: Seq<Seq<char>>) -> bool {
    exists|k: int| 0 <= k < words.len() && matches_word(lowered, upper, #[trigger] words[k])
}

/// A file name as written matches one of the target words.
pub open spec fn name_matches(name: Seq<char>, words: Seq<Seq<char>>) -> bool {
    matches_any_word(lowercase_of(name), uppercase_flags(name), words)
}

fn occurs(s: &Vec<char>, p: &Vec<char>, i: usize) -> (r: bool)
    ensures
        r == occurs_at(s@, p@, i as int),
{
    if i > s.len() || p.len() > s.len() - i {
        return false;
    }
    let mut k: usize = 0;
    while k < p.len()
        invariant
            k <= p.len(),
            i + p.len() <= s.len(),
            forall|j: int| 0 <= j < k ==> s@[i + j] == p@[j],
        decreases p.len() - k,
    {
        if s[i + k] != p[k] {
            proof {
                assert(s@.subrange(i as int, i + p.len())[k as int] == s@[i + k]);
            }
            return false;
        }
        k += 1;
    }
    proof {
        assert(s@.subrange(i as int, i + p.len()) =~= p@);
    }
    true
}

/// The first index at which `p` stands in `s`.
pub fn find_first(s: &Vec<char>, p: &Vec<char>) -> (r: Option<usize>)
    ensures
        match r {
            Some(i) => first_occurrence(s@, p@) == Some(i as int),
            None => first_occurrence(s@, p@) is None,
        },
{
    if p.len() > s.len() {
        return None;
    }
    let last = s.len() - p.len();
    let mut i: usize = 0;
    while i < last
        invariant
            last == s.len() - p.len(),
            i <= last,
            occurrence_from(s@, p@, 0) == occurrence_from(s@, p@, i as int),
        decreases last - i,
    {
        if occurs(s, p, i) {
            return Some(i);
        }
        i += 1;
    }
    if occurs(s, p, last) {
        Some(last)
    } else {
        proof {
            assert(occurrence_from(s@, p@, last + 1) is None);
        }
        None
    }
}

/// Tells whether `pattern` stands somewhere in `text`.
pub fn text_contains(text: &str, pattern: &str) -> (r: bool)
    ensures
        r == contains(text@, pattern@),
{
    let s = chars_of(text);
    let p = chars_of(pattern);
    find_first(&s, &p).is_some()
}

fn is_underscore_at(s: &Vec<char>, k: usize) -> (r: bool)
    ensures
        r == (char_at(s@, k as int) == Some('_')),
{
    k < s.len() && s[k] == '_'
}

fn is_flagged(upper: &Vec<bool>, k: usize) -> (r: bool)
    ensures
        r == flag_at(upper@, k as int),
{
    k < upper.len() && upper[k]
}

/// Tells whether a name matches a word. `lowered` is the name in lower
/// case; `upper` tells for each character of the name as written whether it
/// is a capital letter.
pub fn word_matches(lowered: &str, upper: &Vec<bool>, word: &str) -> (r: bool)
    ensures
        r == matches_word(lowered@, upper@, word@),
{
    let s = chars_of(lowered);
    let p = chars_of(word);
    let total: usize = lowered.len();
    let plen: usize = word.len();
    // the word itself
    proof {
        if s@.len() == p@.len() {
            assert(s@.subrange(0, p.len() as int) =~= s@);
        }
    }
    if s.len() == p.len() && occurs(&s, &p, 0) {
        return true;
    }
    // at the start
    if occurs(&s, &p, 0) {
        if total == plen || is_underscore_at(&s, plen) || is_flagged(upper, plen) {
            return true;
        }
    }
    // at the end
    if p.len() <= s.len() && occurs(&s, &p, s.len() - p.len()) && total >= plen {
        let start = total - plen;
        if start == 0 {
            return true;
        }
        if is_underscore_at(&s, start - 1) {
            return true;
        }
        if p.len() > 0 && is_flagged(upper, start) {
            return true;
        }
    }
    // inside
    match find_first(&s, &p) {
        Some(i) => {
            proof {
                lemma_occurrence_from(s@, p@, 0);
                assert(s@.subrange(0, i as int) =~= s@.take(i as int));
            }
            let pos: usize = string_of(&s, 0, i).as_str().len();
            let before = pos == 0 || is_underscore_at(&s, pos - 1);
            let after = if pos <= usize::MAX - plen {
                let end = pos + plen;
                end == total || is_underscore_at(&s, end) || is_flagged(upper, end)
            } else {
                proof {
                    assert(s@.len() == s.len());
                    assert(upper@.len() == upper.len());
                }
                false
            };
            before && after
        },
        None => false,
    }
}

/// Tells whether a name matches one of the words.
pub fn any_word_matches(lowered: &str, upper: &Vec<bool>, words: &Vec<String>) -> (r: bool)
    ensures
        r == matches_any_word(lowered@, upper@, strings_view(words@)),
{
    let mut k: usize = 0;
    while k < words.len()
        invariant
            k <= words.len(),
            forall|j: int|
                0 <= j < k ==> !matches_word(lowered@, upper@, #[trigger] strings_view(words@)[j]),
        decreases words.len() - k,
    {
        if word_matches(lowered, upper, words[k].as_str()) {
            proof {
                assert(strings_view(words@)[k as int] == words@[k as int]@);
            }
            return true;
        }
        proof {
            assert(strings_view(words@)[k as int] == words@[k as int]@);
        }
        k += 1;
    }
    false
}

/// For each character of `name`, whether it is a capital letter.
pub fn capital_flags(name: &str) -> (flags: Vec<bool>)
    ensures
        flags@ == uppercase_flags(name@),
{
    let v = chars_of(name);
    let mut flags: Vec<bool> = Vec::new();
    let mut i: usize = 0;
    while i < v.len()
        invariant
            i <= v.len(),
            v@ == name@,
            flags@ == uppercase_flags(name@).take(i as int),
        decreases v.len() - i,
    {
        let flag = char_is_uppercase(v[i]);
        flags.push(flag);
        proof {
            assert(uppercase_flags(name@).take(i + 1) =~= uppercase_flags(name@).take(
                i as int,
            ).push(flag));
        }
        i += 1;
    }
    proof {
        assert(uppercase_flags(name@).take(v.len() as int) =~= uppercase_flags(name@));
    }
    flags
}

/// Tells whether a file name, as written and without its extension, matches
/// one of the target words.
pub fn matches_target_pattern(filename: &str, target_patterns: &Vec<String>) -> (r: bool)
    ensures
        r == name_matches(filename@, strings_view(target_patterns@)),
{
    let lowered = to_lowercase(filename);
    let upper = capital_flags(filename);
    any_word_matches(lowered.as_str(), &upper, target_patterns)
}

} // verus!
