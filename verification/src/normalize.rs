//! Turns a raw entry name such as `my-cool_Project` into a label such as
//! `My Cool Project`.

use vstd::prelude::*;
use vstd::string::*;

verus! {

/// Pattern that finds a lower-case letter directly followed by an
/// upper-case letter, in any script.
pub const CAMEL_BOUNDARY: &'static str = "(\\p{Ll})(\\p{Lu})";

/// Replacement that puts one space between the two letters of a boundary.
pub const CAMEL_REPLACEMENT: &'static str = "$1 $2";

/// The text that the regex engine produces when every non-overlapping match
/// of `pattern` in `text` is replaced by the expansion of `replacement`;
/// `None` when the engine rejects `pattern`.
pub uninterp spec fn regex_replace_all_result(
    pattern: Seq<char>,
    text: Seq<char>,
    replacement: Seq<char>,
) -> Option<Seq<char>>;

/// Whether `c` has the Unicode `White_Space` property.
pub uninterp spec fn char_is_whitespace(c: char) -> bool;

/// The upper-case mapping of `c` in Unicode, which may be several characters.
pub uninterp spec fn char_uppercase(c: char) -> Seq<char>;

/// The lower-case mapping of a whole string in Unicode.
pub uninterp spec fn str_lowercase(s: Seq<char>) -> Seq<char>;

/// Whether `c` is one of the ASCII characters with the `White_Space`
/// property: the space, and the controls from tab to carriage return.
pub open spec fn is_ascii_whitespace(c: char) -> bool {
    c == ' ' || ('\u{9}' <= c && c <= '\u{d}')
}

/// Trusted: `char::is_whitespace` decides the Unicode `White_Space` property,
/// which is a function of the character alone. Among the ASCII characters
/// those are the space and the controls from tab to carriage return.
pub assume_specification[ char::is_whitespace ](c: char) -> (b: bool)
    ensures
        b == char_is_whitespace(c),
        c <= '\u{7f}' ==> b == is_ascii_whitespace(c),
;

/// Trusted: `str::to_lowercase` returns the Unicode lower-case mapping of the
/// string, which is a function of its characters alone.
pub assume_specification[ str::to_lowercase ](s: &str) -> (r: String)
    ensures
        r@ == str_lowercase(s@),
;

/// Trusted: `String::push` appends the character at the end.
pub assume_specification[ String::push ](s: &mut String, c: char)
    ensures
        final(s)@ == old(s)@.push(c),
;

/// Trusted: `char::to_uppercase` yields the characters of the Unicode
/// upper-case mapping of `c`, collected here in their order.
#[verifier::external_body]
fn uppercase_of(c: char) -> (r: String)
    ensures
        r@ == char_uppercase(c),
{
    c.to_uppercase().collect()
}

/// Trusted: compiles `pattern` with `regex::Regex::new` and, where that
/// succeeds, returns what `Regex::replace_all` makes of `text`. The result
/// depends on the three strings alone; nothing is claimed of what it holds.
#[verifier::external_body]
fn regex_replace_all(pattern: &str, text: &str, replacement: &str) -> (r: Option<String>)
    ensures
        match r {
            Some(s) => regex_replace_all_result(pattern@, text@, replacement@) == Some(s@),
            None => regex_replace_all_result(pattern@, text@, replacement@) is None,
        },
{
    match regex::Regex::new(pattern) {
        Ok(re) => Some(re.replace_all(text, replacement).into_owned()),
        Err(_) => None,
    }
}

/// A separator (`-` or `_`) becomes a space; any other character stays.
pub open spec fn separator_to_space(c: char) -> char {
    if c == '-' || c == '_' {
        ' '
    } else {
        c
    }
}

/// `raw` with every separator replaced by a space.
pub open spec fn spaced(raw: Seq<char>) -> Seq<char> {
    raw.map_values(|c: char| separator_to_space(c))
}

/// `text` with a space inserted at every camel-case boundary, as the regex
/// engine does it. Text passes through unchanged should the engine reject
/// the boundary pattern.
pub open spec fn camel_separated(text: Seq<char>) -> Seq<char> {
    match regex_replace_all_result(CAMEL_BOUNDARY@, text, CAMEL_REPLACEMENT@) {
        Some(s) => s,
        None => text,
    }
}

/// The first position at or after `i` that holds whitespace, or the length
/// of `s` when there is none.
pub open spec fn word_end(s: Seq<char>, i: int) -> int
    decreases s.len() - i,
{
    if i < 0 || i >= s.len() || char_is_whitespace(s[i]) {
        i
    } else {
        word_end(s, i + 1)
    }
}

/// The maximal runs of non-whitespace characters of `s` that start at or
/// after `i`, in order.
pub open spec fn words_from(s: Seq<char>, i: int) -> Seq<Seq<char>>
    decreases s.len() - i,
    via words_from_decreases
{
    if i < 0 || i >= s.len() {
        Seq::empty()
    } else if char_is_whitespace(s[i]) {
        words_from(s, i + 1)
    } else {
        seq![s.subrange(i, word_end(s, i + 1))] + words_from(s, word_end(s, i + 1))
    }
}

#[via_fn]
proof fn words_from_decreases(s: Seq<char>, i: int) {
    if 0 <= i < s.len() {
        lemma_word_end_bounds(s, i + 1);
    }
}

/// A word's end lies between its start and the end of the text.
pub proof fn lemma_word_end_bounds(s: Seq<char>, i: int)
    requires
        0 <= i <= s.len(),
    ensures
        i <= word_end(s, i) <= s.len(),
    decreases s.len() - i,
{
    if i < s.len() && !char_is_whitespace(s[i]) {
        lemma_word_end_bounds(s, i + 1);
    }
}

/// A word in title case: the upper-case mapping of its first character,
/// then the lower-case mapping of the rest. The empty word stays empty.
pub open spec fn title_word(w: Seq<char>) -> Seq<char> {
    if w.len() == 0 {
        Seq::empty()
    } else {
        char_uppercase(w[0]) + str_lowercase(w.skip(1))
    }
}

/// The words in title case, joined by single spaces.
pub open spec fn join_titled(ws: Seq<Seq<char>>) -> Seq<char>
    decreases ws.len(),
{
    if ws.len() == 0 {
        Seq::empty()
    } else if ws.len() == 1 {
        title_word(ws[0])
    } else {
        join_titled(ws.drop_last()) + seq![' '] + title_word(ws.last())
    }
}

/// The words of `text` in title case, joined by single spaces.
pub open spec fn title_cased(text: Seq<char>) -> Seq<char> {
    join_titled(words_from(text, 0))
}

/// The label of an entry named `raw`.
pub open spec fn normalized(raw: Seq<char>) -> Seq<char> {
    title_cased(camel_separated(spaced(raw)))
}

/// The label depends on the name alone: equal names have equal labels.
pub proof fn lemma_equal_names_equal_labels(a: Seq<char>, b: Seq<char>)
    requires
        a == b,
    ensures
        normalized(a) == normalized(b),
{
}

/// Replaces every `-` and `_` by a space.
pub fn separators_to_spaces(raw: &str) -> (out: String)
    ensures
        out@ == spaced(raw@),
{
    let n: usize = raw.unicode_len();
    let mut out = String::new();
    let mut i: usize = 0;
    while i < n
        invariant
            n == raw@.len(),
            i <= n,
            out@ == spaced(raw@).take(i as int),
        decreases n - i,
    {
        let c = raw.get_char(i);
        if c == '-' || c == '_' {
            out.push(' ');
        } else {
            out.push(c);
        }
        i = i + 1;
        assert(out@ =~= spaced(raw@).take(i as int));
    }
    assert(spaced(raw@).take(n as int) =~= spaced(raw@));
    out
}

/// Puts a word in title case.
pub fn title_case_word(word: &str) -> (out: String)
    ensures
        out@ == title_word(word@),
{
    let n: usize = word.unicode_len();
    if n == 0 {
        return String::new();
    }
    let first = word.get_char(0);
    let rest = word.substring_char(1, n);
    let lowered = rest.to_lowercase();
    let mut out = uppercase_of(first);
    out.append(lowered.as_str());
    assert(word@.skip(1) =~= word@.subrange(1, n as int));
    out
}

/// Splits `text` on whitespace, puts each word in title case and joins the
/// words with single spaces.
pub fn title_case_words(text: &str) -> (out: String)
    ensures
        out@ == title_cased(text@),
{
    let n: usize = text.unicode_len();
    let mut out = String::new();
    let ghost mut done: Seq<Seq<char>> = Seq::empty();
    let mut any: bool = false;
    let mut i: usize = 0;
    while i < n
        invariant
            n == text@.len(),
            i <= n,
            any == (done.len() > 0),
            out@ == join_titled(done),
            words_from(text@, 0) == done + words_from(text@, i as int),
        decreases n - i,
    {
        let c = text.get_char(i);
        if c.is_whitespace() {
            i = i + 1;
        } else {
            let mut j: usize = i + 1;
            while j < n && !text.get_char(j).is_whitespace()
                invariant
                    n == text@.len(),
                    i < j <= n,
                    word_end(text@, i + 1) == word_end(text@, j as int),
                decreases n - j,
            {
                j = j + 1;
            }
            let word = text.substring_char(i, j);
            let titled = title_case_word(word);
            if any {
                out.push(' ');
            }
            out.append(titled.as_str());
            proof {
                let before = done;
                done = done.push(word@);
                assert(done.drop_last() =~= before);
                assert(word_end(text@, i + 1) == j);
                assert(before + (seq![word@] + words_from(text@, j as int)) =~= done + words_from(
                    text@,
                    j as int,
                ));
                assert(out@ =~= join_titled(done));
            }
            any = true;
            i = j;
        }
    }
    proof {
        assert(done + words_from(text@, n as int) =~= done);
    }
    out
}

/// Computes the label of an entry: separators become spaces, camel-case
/// boundaries are split, and the words are put in title case and joined by
/// single spaces. One pass only: the label of a label may differ from it.
pub fn normalize(raw: &str) -> (label: String)
    ensures
        label@ == normalized(raw@),
{
    let with_spaces = separators_to_spaces(raw);
    match regex_replace_all(CAMEL_BOUNDARY, with_spaces.as_str(), CAMEL_REPLACEMENT) {
        Some(separated) => title_case_words(separated.as_str()),
        None => title_case_words(with_spaces.as_str()),
    }
}

} // verus!
