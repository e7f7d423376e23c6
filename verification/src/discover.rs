//! The entries of a directory, and which of them are files of a kind.
//!
//! The caller lists the directory; this module tells by extension and name
//! which entries are sources, solutions, generators or tables of test cases.

use crate::pattern::{
    byte_len, contains, lowercase_of, matches_target_pattern, name_matches, text_contains,
    to_lowercase,
};
use crate::process::option_view;
use crate::text::{chars_of, same_text, string_of, strings_view};
use vstd::prelude::*;

verus! {

/// One entry of a directory, as far as its name goes.
#[derive(Debug)]
pub struct Entry {
    pub path: String,
    /// The file name, or the empty string if it is not valid text.
    pub file_name: String,
    /// The file name without its extension, if it has one and is valid text.
    pub stem: Option<String>,
    /// The extension without its dot, if there is one.
    pub extension: Option<String>,
}

/// An entry as plain text.
pub struct EntryView {
    pub path: Seq<char>,
    pub file_name: Seq<char>,
    pub stem: Option<Seq<char>>,
    pub extension: Option<Seq<char>>,
}

impl View for Entry {
    type V = EntryView;

    open spec fn view(&self) -> EntryView {
        EntryView {
            path: self.path@,
            file_name: self.file_name@,
            stem: option_view(self.stem),
            extension: option_view(self.extension),
        }
    }
}

/// The views of the entries held in `v`.
pub open spec fn entries_view(v: Seq<Entry>) -> Seq<EntryView> {
    Seq::new(v.len(), |i: int| v[i]@)
}

/// An optional pattern as plain text.
pub open spec fn pattern_view(p: Option<&str>) -> Option<Seq<char>> {
    match p {
        Some(s) => Some(s@),
        None => None,
    }
}

/// An extension without the dot it may be written with.
pub open spec fn without_dot(extension: Seq<char>) -> Seq<char> {
    if extension.len() > 0 && extension[0] == '.' {
        extension.skip(1)
    } else {
        extension
    }
}

/// An entry has the extension and, where a pattern is given, the pattern in
/// its file name.
pub open spec fn is_found(e: EntryView, extension: Seq<char>, pattern: Option<Seq<char>>) -> bool {
    &&& e.extension == Some(without_dot(extension))
    &&& match pattern {
        Some(p) => contains(e.file_name, p),
        None => true,
    }
}

/// The paths of the entries with the extension and the pattern, in the
/// order of the listing.
pub open spec fn found_files(
    entries: Seq<EntryView>,
    extension: Seq<char>,
    pattern: Option<Seq<char>>,
) -> Seq<Seq<char>>
    decreases entries.len(),
{
    if entries.len() == 0 {
        Seq::empty()
    } else {
        let before = found_files(entries.drop_last(), extension, pattern);
        if is_found(entries.last(), extension, pattern) {
            before.push(entries.last().path)
        } else {
            before
        }
    }
}

/// The words by which a file of the kind `target` is known.
pub open spec fn spec_target_words(target: Seq<char>) -> Seq<Seq<char>> {
    if target == "solution"@ {
        seq!["solution"@, "sol"@]
    } else if target == "brute"@ {
        seq!["brute"@, "bru"@]
    } else if target == "generator"@ {
        seq!["generator"@, "gen"@]
    } else if target == "test"@ {
        seq!["test"@, "t"@]
    } else {
        seq![target]
    }
}

/// The extension of a file of the kind `target`: test tables are `.cases`
/// files, everything else is a `.cpp` file.
pub open spec fn spec_target_extension(target: Seq<char>) -> Seq<char> {
    if target == "test"@ {
        "cases"@
    } else {
        "cpp"@
    }
}

/// An entry has the extension, a name that matches one of the words and,
/// where a pattern is given, holds the pattern, letter case aside.
pub open spec fn is_named(
    e: EntryView,
    extension: Seq<char>,
    words: Seq<Seq<char>>,
    pattern: Option<Seq<char>>,
) -> bool {
    &&& e.extension == Some(extension)
    &&& match e.stem {
        Some(name) => name_matches(name, words) && match pattern {
            Some(p) => contains(lowercase_of(name), lowercase_of(p)),
            None => true,
        },
        None => false,
    }
}

/// The paths of the entries that `is_named` holds of, in the order of the
/// listing.
pub open spec fn named_files(
    entries: Seq<EntryView>,
    extension: Seq<char>,
    words: Seq<Seq<char>>,
    pattern: Option<Seq<char>>,
) -> Seq<Seq<char>>
    decreases entries.len(),
{
    if entries.len() == 0 {
        Seq::empty()
    } else {
        let before = named_files(entries.drop_last(), extension, words, pattern);
        if is_named(entries.last(), extension, words, pattern) {
            before.push(entries.last().path)
        } else {
            before
        }
    }
}

/// The paths of the entries of the kind `target`, in the order of the
/// listing: those with the extension of the kind whose name matches one of
/// the words of the kind.
pub open spec fn target_files(
    entries: Seq<EntryView>,
    target: Seq<char>,
    pattern: Option<Seq<char>>,
) -> Seq<Seq<char>> {
    named_files(entries, spec_target_extension(target), spec_target_words(target), pattern)
}

fn strip_dot(extension: &str) -> (r: String)
    ensures
        r@ == without_dot(extension@),
{
    let v = chars_of(extension);
    if v.len() > 0 && v[0] == '.' {
        proof {
            assert(v@.subrange(1, v.len() as int) =~= v@.skip(1));
        }
        string_of(&v, 1, v.len())
    } else {
        proof {
            assert(v@.subrange(0, v.len() as int) =~= v@);
        }
        string_of(&v, 0, v.len())
    }
}

fn has_extension(entry: &Entry, extension: &str) -> (r: bool)
    ensures
        r == (entry@.extension == Some(extension@)),
{
    match &entry.extension {
        Some(e) => same_text(e.as_str(), extension),
        None => false,
    }
}

/// The paths of the entries with the extension, which may be written with
/// its dot, and, where a pattern is given, with the pattern in their file
/// name.
pub fn find_files(entries: &Vec<Entry>, extension: &str, pattern: Option<&str>) -> (files: Vec<
    String,
>)
    ensures
        strings_view(files@) == found_files(
            entries_view(entries@),
            extension@,
            pattern_view(pattern),
        ),
{
    let ext = strip_dot(extension);
    let ghost all = entries_view(entries@);
    let mut files: Vec<String> = Vec::new();
    let mut i: usize = 0;
    while i < entries.len()
        invariant
            i <= entries.len(),
            all == entries_view(entries@),
            ext@ == without_dot(extension@),
            strings_view(files@) == found_files(all.take(i as int), extension@, pattern_view(pattern)),
        decreases entries.len() - i,
    {
        let entry = &entries[i];
        let ghost before = strings_view(files@);
        proof {
            assert(all.take(i + 1).drop_last() =~= all.take(i as int));
            assert(all.take(i + 1).last() == entry@);
        }
        let fits = has_extension(entry, ext.as_str()) && match pattern {
            Some(p) => text_contains(entry.file_name.as_str(), p),
            None => true,
        };
        if fits {
            let path = entry.path.clone();
            files.push(path);
            proof {
                assert(strings_view(files@) =~= before.push(entry@.path));
            }
        }
        i += 1;
    }
    proof {
        assert(all.take(entries.len() as int) =~= all);
    }
    files
}

pub(crate) fn take_only(files: Vec<String>) -> (r: String)
    requires
        files.len() == 1,
    ensures
        r@ == strings_view(files@)[0],
{
    files[0].clone()
}

pub(crate) fn text(s: &str) -> (r: String)
    ensures
        r@ == s@,
{
    s.to_owned()
}

/// The words by which a file of the kind `target_type` is known.
pub fn target_words(target_type: &str) -> (words: Vec<String>)
    ensures
        strings_view(words@) == spec_target_words(target_type@),
{
    let mut words: Vec<String> = Vec::new();
    if same_text(target_type, "solution") {
        words.push(text("solution"));
        words.push(text("sol"));
    } else if same_text(target_type, "brute") {
        words.push(text("brute"));
        words.push(text("bru"));
    } else if same_text(target_type, "generator") {
        words.push(text("generator"));
        words.push(text("gen"));
    } else if same_text(target_type, "test") {
        words.push(text("test"));
        words.push(text("t"));
    } else {
        words.push(text(target_type));
    }
    proof {
        assert(strings_view(words@) =~= spec_target_words(target_type@));
    }
    words
}

/// The extension of a file of the kind `target_type`.
pub fn target_extension(target_type: &str) -> (r: String)
    ensures
        r@ == spec_target_extension(target_type@),
{
    if same_text(target_type, "test") {
        text("cases")
    } else {
        text("cpp")
    }
}

pub(crate) fn files_named(entries: &Vec<Entry>, extension: &str, words: &Vec<String>, pattern: Option<&str>) -> (files:
    Vec<String>)
    ensures
        strings_view(files@) == named_files(
            entries_view(entries@),
            extension@,
            strings_view(words@),
            pattern_view(pattern),
        ),
{
    let ghost all = entries_view(entries@);
    let mut files: Vec<String> = Vec::new();
    let mut i: usize = 0;
    while i < entries.len()
        invariant
            i <= entries.len(),
            all == entries_view(entries@),
            strings_view(files@) == named_files(
                all.take(i as int),
                extension@,
                strings_view(words@),
                pattern_view(pattern),
            ),
        decreases entries.len() - i,
    {
        let entry = &entries[i];
        let ghost before = strings_view(files@);
        proof {
            assert(all.take(i + 1).drop_last() =~= all.take(i as int));
            assert(all.take(i + 1).last() == entry@);
        }
        let fits = has_extension(entry, extension) && match &entry.stem {
            Some(name) => matches_target_pattern(name.as_str(), words) && match pattern {
                Some(p) => {
                    let low_name = to_lowercase(name.as_str());
                    let low_pattern = to_lowercase(p);
                    text_contains(low_name.as_str(), low_pattern.as_str())
                },
                None => true,
            },
            None => false,
        };
        if fits {
            let path = entry.path.clone();
            files.push(path);
            proof {
                assert(strings_view(files@) =~= before.push(entry@.path));
            }
        }
        i += 1;
    }
    proof {
        assert(all.take(entries.len() as int) =~= all);
    }
    files
}

/// The paths of the entries of the kind `target_type` whose name, where a
/// pattern is given, holds the pattern, letter case aside.
pub fn list_all_matching_files(entries: &Vec<Entry>, target_type: &str, pattern: Option<&str>) -> (files:
    Vec<String>)
    ensures
        strings_view(files@) == target_files(
            entries_view(entries@),
            target_type@,
            pattern_view(pattern),
        ),
{
    let words = target_words(target_type);
    let ext = target_extension(target_type);
    files_named(entries, ext.as_str(), &words, pattern)
}

/// The words by which `find_specific_cpp_file` knows a source of the kind
/// `target`.
pub open spec fn spec_source_words(target: Seq<char>) -> Seq<Seq<char>> {
    if target == "solution"@ {
        seq!["solution"@, "sol"@]
    } else if target == "brute"@ {
        seq!["brute"@, "bru"@]
    } else if target == "generator"@ {
        seq!["generator"@, "gen"@]
    } else {
        seq![target]
    }
}

/// The first of the words that is shorter than three bytes.
pub open spec fn first_short_word(words: Seq<Seq<char>>) -> Option<Seq<char>>
    decreases words.len(),
{
    if words.len() == 0 {
        None
    } else {
        match first_short_word(words.drop_last()) {
            Some(w) => Some(w),
            None => if byte_len(words.last()) < 3 {
                Some(words.last())
            } else {
                None
            },
        }
    }
}

/// The one source of the kind `target`: none where a word of the kind is
/// too short to go by; else the one `.cpp` file that is known by a word of
/// the kind, and nothing where there is no such file or more than one.
pub open spec fn spec_specific_source(
    entries: Seq<EntryView>,
    target: Seq<char>,
    pattern: Option<Seq<char>>,
) -> Result<Option<Seq<char>>, Seq<char>> {
    match first_short_word(spec_source_words(target)) {
        Some(word) => Err(word),
        None => {
            let files = named_files(entries, "cpp"@, spec_source_words(target), pattern);
            if files.len() == 1 {
                Ok(Some(files[0]))
            } else {
                Ok(None)
            }
        },
    }
}

/// A word of a kind that is too short to tell files by.
#[derive(Debug)]
pub struct ShortWord {
    pub word: String,
}

impl ShortWord {
    /// The finding in words.
    pub fn message(&self) -> (s: String)
        ensures
            s@ == "Target pattern '"@ + self.word@ + "' must be at least 3 characters"@,
    {
        let mut s = text("Target pattern '");
        s.append(self.word.as_str());
        s.append("' must be at least 3 characters");
        s
    }
}

fn source_words(target_type: &str) -> (words: Vec<String>)
    ensures
        strings_view(words@) == spec_source_words(target_type@),
{
    let mut words: Vec<String> = Vec::new();
    if same_text(target_type, "solution") {
        words.push(text("solution"));
        words.push(text("sol"));
    } else if same_text(target_type, "brute") {
        words.push(text("brute"));
        words.push(text("bru"));
    } else if same_text(target_type, "generator") {
        words.push(text("generator"));
        words.push(text("gen"));
    } else {
        words.push(text(target_type));
    }
    proof {
        assert(strings_view(words@) =~= spec_source_words(target_type@));
    }
    words
}

/// The one `.cpp` file of the kind `target_type`, if exactly one is known
/// by a word of the kind.
pub fn find_specific_cpp_file(entries: &Vec<Entry>, target_type: &str, pattern: Option<&str>) -> (r:
    Result<Option<String>, ShortWord>)
    ensures
        match r {
            Ok(found) => Ok(option_view(found)),
            Err(e) => Err(e.word@),
        } == spec_specific_source(entries_view(entries@), target_type@, pattern_view(pattern)),
{
    let words = source_words(target_type);
    let ghost all = strings_view(words@);
    let mut k: usize = 0;
    while k < words.len()
        invariant
            k <= words.len(),
            all == strings_view(words@),
            all == spec_source_words(target_type@),
            first_short_word(all.take(k as int)) is None,
        decreases words.len() - k,
    {
        proof {
            assert(all.take(k + 1).drop_last() =~= all.take(k as int));
            assert(all.take(k + 1).last() == words@[k as int]@);
        }
        if words[k].as_str().len() < 3 {
            proof {
                assert(first_short_word(all.take(k + 1)) == Some(words@[k as int]@));
                lemma_first_short_word_stays(all, k + 1);
            }
            return Err(ShortWord { word: words[k].clone() });
        }
        k += 1;
    }
    proof {
        assert(all.take(words.len() as int) =~= all);
    }
    let files = files_named(entries, "cpp", &words, pattern);
    if files.len() == 1 {
        Ok(Some(take_only(files)))
    } else {
        Ok(None)
    }
}

/// A short word found among the first `n` words is the first short word of
/// all.
pub proof fn lemma_first_short_word_stays(words: Seq<Seq<char>>, n: int)
    requires
        0 <= n <= words.len(),
        first_short_word(words.take(n)) is Some,
    ensures
        first_short_word(words) == first_short_word(words.take(n)),
    decreases words.len() - n,
{
    if n < words.len() {
        assert(words.take(n + 1).drop_last() =~= words.take(n));
        lemma_first_short_word_stays(words, n + 1);
    } else {
        assert(words.take(n) =~= words);
    }
}

} // verus!
