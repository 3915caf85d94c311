//! Measures and pieces of text.

use unicode_width::UnicodeWidthStr;
use vstd::prelude::*;
use vstd::utf8::encode_utf8;

verus! {

/// The number of bytes that a text takes up.
pub open spec fn byte_len(s: Seq<char>) -> nat {
    encode_utf8(s).len()
}

/// The number of columns that a text takes up on a terminal. Control characters count too,
/// so the measure is meant for the text of one line.
pub uninterp spec fn display_width(s: Seq<char>) -> nat;

/// The characters of the Unicode property `White_Space`.
pub open spec fn is_white_space(c: char) -> bool {
    ||| '\u{9}' <= c <= '\u{d}'
    ||| c == ' '
    ||| c == '\u{85}'
    ||| c == '\u{a0}'
    ||| c == '\u{1680}'
    ||| '\u{2000}' <= c <= '\u{200a}'
    ||| c == '\u{2028}'
    ||| c == '\u{2029}'
    ||| c == '\u{202f}'
    ||| c == '\u{205f}'
    ||| c == '\u{3000}'
}

/// A text without the white space that it starts with.
pub open spec fn trimmed_start(s: Seq<char>) -> Seq<char>
    decreases s.len(),
{
    if s.len() > 0 && is_white_space(s.first()) {
        trimmed_start(s.drop_first())
    } else {
        s
    }
}

/// A text without the white space that it ends with.
pub open spec fn trimmed_end(s: Seq<char>) -> Seq<char>
    decreases s.len(),
{
    if s.len() > 0 && is_white_space(s.last()) {
        trimmed_end(s.drop_last())
    } else {
        s
    }
}

/// A text without the white space around it.
pub open spec fn trimmed(s: Seq<char>) -> Seq<char> {
    trimmed_end(trimmed_start(s))
}

/// Whether a text has more than one line.
pub open spec fn is_multiline(s: Seq<char>) -> bool {
    s.contains('\n')
}

/// The text up to the first line break.
pub open spec fn first_line(s: Seq<char>) -> Seq<char> {
    match s.index_of_first('\n') {
        Some(i) => s.take(i),
        None => s,
    }
}

/// The text after the last line break.
pub open spec fn last_line(s: Seq<char>) -> Seq<char> {
    match s.index_of_last('\n') {
        Some(i) => s.skip(i + 1),
        None => s,
    }
}

/// A character that may end a line which the next bound still joins.
pub open spec fn is_closing(c: char) -> bool {
    ||| c == '('
    ||| c == ')'
    ||| c == ']'
    ||| c == '}'
    ||| c == '?'
    ||| c == '>'
    ||| is_white_space(c)
}

/// Whether more can be put on the last line of a text: the line holds nothing but closing
/// brackets and white space, or ends a raw string.
pub open spec fn is_extendable(s: Seq<char>) -> bool {
    ||| "\"#"@.is_suffix_of(s)
    ||| forall|i: int| 0 <= i < last_line(s).len() ==> is_closing(#[trigger] last_line(s)[i])
}

/// The texts, one after the other, with a separator between any two.
pub open spec fn joined(parts: Seq<Seq<char>>, separator: Seq<char>) -> Seq<char>
    decreases parts.len(),
{
    if parts.len() == 0 {
        Seq::empty()
    } else if parts.len() == 1 {
        parts[0]
    } else {
        joined(parts.drop_last(), separator) + separator + parts.last()
    }
}

/// `n` times the same character.
pub open spec fn repeated(c: char, n: nat) -> Seq<char> {
    Seq::new(n, |i: int| c)
}

/// Texts take up as many bytes together as on their own.
pub proof fn lemma_byte_len_add(a: Seq<char>, b: Seq<char>)
    ensures
        byte_len(a + b) == byte_len(a) + byte_len(b),
    decreases a.len(),
{
    if a.len() == 0 {
        assert(a + b =~= b);
    } else {
        assert((a + b).drop_first() =~= a.drop_first() + b);
        lemma_byte_len_add(a.drop_first(), b);
    }
}

/// The display width of a text, as `UnicodeWidthStr::width` of the `unicode-width` crate
/// computes it from its tables. The contract claims only that the width depends on nothing
/// but the characters of the text.
#[verifier::external_body]
pub(crate) fn unicode_str_width(s: &str) -> (width: usize)
    ensures
        width == display_width(s@),
{
    s.width()
}

/// The number of bytes that a text takes up.
pub fn byte_length(s: &str) -> (n: usize)
    ensures
        n == byte_len(s@),
{
    s.as_bytes().len()
}

/// Whether a character has the Unicode property `White_Space`.
pub fn is_whitespace(c: char) -> (b: bool)
    ensures
        b == is_white_space(c),
{
    ('\u{9}' <= c && c <= '\u{d}') || c == ' ' || c == '\u{85}' || c == '\u{a0}' || c == '\u{1680}'
        || ('\u{2000}' <= c && c <= '\u{200a}') || c == '\u{2028}' || c == '\u{2029}' || c
        == '\u{202f}' || c == '\u{205f}' || c == '\u{3000}'
}

/// Whether a text has more than one line.
pub fn contains_newline(s: &str) -> (b: bool)
    ensures
        b == is_multiline(s@),
{
    for c in it: s.chars()
        invariant
            it.seq() == s@,
            forall|k: int| 0 <= k < it.index() ==> s@[k] != '\n',
    {
        if c == '\n' {
            return true;
        }
    }
    false
}

/// How many characters of white space a text starts with decides what is left of it.
proof fn lemma_trimmed_start(s: Seq<char>, k: int)
    requires
        0 <= k <= s.len(),
        forall|i: int| 0 <= i < k ==> is_white_space(#[trigger] s[i]),
        k < s.len() ==> !is_white_space(s[k]),
    ensures
        trimmed_start(s) == s.skip(k),
    decreases k,
{
    if k > 0 {
        assert(is_white_space(s[0]));
        assert forall|i: int| 0 <= i < k - 1 implies is_white_space(
            #[trigger] s.drop_first()[i],
        ) by {
            assert(is_white_space(s[i + 1]));
        }
        lemma_trimmed_start(s.drop_first(), k - 1);
        assert(s.drop_first().skip(k - 1) =~= s.skip(k));
    } else {
        assert(s.skip(0) =~= s);
    }
}

/// How many characters are left before the white space at the end decides what is left.
proof fn lemma_trimmed_end(s: Seq<char>, k: int)
    requires
        0 <= k <= s.len(),
        forall|i: int| k <= i < s.len() ==> is_white_space(#[trigger] s[i]),
        k > 0 ==> !is_white_space(s[k - 1]),
    ensures
        trimmed_end(s) == s.take(k),
    decreases s.len() - k,
{
    if k < s.len() {
        assert(is_white_space(s[s.len() - 1]));
        lemma_trimmed_end(s.drop_last(), k);
        assert(s.drop_last().take(k) =~= s.take(k));
    } else {
        assert(s.take(k) =~= s);
    }
}

/// Leaves out the white space that a text starts with.
pub fn trim_start(s: &str) -> (t: &str)
    ensures
        t@ == trimmed_start(s@),
{
    let mut k: usize = 0;
    let n: usize = s.unicode_len();
    for c in it: s.chars()
        invariant
            it.seq() == s@,
            k == it.index(),
            n == s@.len(),
            forall|i: int| 0 <= i < k ==> is_white_space(#[trigger] s@[i]),
    {
        if !is_whitespace(c) {
            proof {
                lemma_trimmed_start(s@, k as int);
                assert(s@.subrange(k as int, n as int) =~= s@.skip(k as int));
            }
            return s.substring_char(k, n);
        }
        k = k + 1;
    }
    proof {
        lemma_trimmed_start(s@, k as int);
        assert(s@.subrange(k as int, n as int) =~= s@.skip(k as int));
    }
    s.substring_char(k, n)
}

/// Leaves out the white space that a text ends with.
pub fn trim_end(s: &str) -> (t: &str)
    ensures
        t@ == trimmed_end(s@),
{
    let mut kept: usize = 0;
    let mut k: usize = 0;
    let len: usize = s.unicode_len();
    for c in it: s.chars()
        invariant
            it.seq() == s@,
            k == it.index(),
            len == s@.len(),
            kept <= k,
            forall|i: int| kept <= i < k ==> is_white_space(#[trigger] s@[i]),
            kept > 0 ==> !is_white_space(s@[kept - 1]),
    {
        k = k + 1;
        if !is_whitespace(c) {
            kept = k;
        }
    }
    proof {
        lemma_trimmed_end(s@, kept as int);
        assert(s@.subrange(0, kept as int) =~= s@.take(kept as int));
    }
    s.substring_char(0, kept)
}

/// Leaves out the white space around a text.
pub fn trim(s: &str) -> (t: &str)
    ensures
        t@ == trimmed(s@),
{
    trim_end(trim_start(s))
}

/// Whether a text starts with another.
pub fn starts_with(s: &str, prefix: &str) -> (b: bool)
    ensures
        b == prefix@.is_prefix_of(s@),
{
    let n: usize = prefix.unicode_len();
    let len: usize = s.unicode_len();
    if len < n {
        return false;
    }
    let mut i: usize = 0;
    while i < n
        invariant
            i <= n <= len,
            n == prefix@.len(),
            len == s@.len(),
            forall|j: int| 0 <= j < i ==> s@[j] == prefix@[j],
        decreases n - i,
    {
        if s.get_char(i) != prefix.get_char(i) {
            assert(s@.subrange(0, n as int)[i as int] != prefix@[i as int]);
            return false;
        }
        i = i + 1;
    }
    assert(s@.subrange(0, n as int) =~= prefix@);
    true
}

/// Whether a text ends with another.
pub fn ends_with(s: &str, suffix: &str) -> (b: bool)
    ensures
        b == suffix@.is_suffix_of(s@),
{
    let n: usize = suffix.unicode_len();
    let len: usize = s.unicode_len();
    if len < n {
        return false;
    }
    let mut i: usize = 0;
    while i < n
        invariant
            i <= n <= len,
            n == suffix@.len(),
            len == s@.len(),
            forall|j: int| 0 <= j < i ==> s@[len - n + j] == suffix@[j],
        decreases n - i,
    {
        if s.get_char(len - n + i) != suffix.get_char(i) {
            assert(s@.subrange(len - n, len as int)[i as int] != suffix@[i as int]);
            return false;
        }
        i = i + 1;
    }
    assert(s@.subrange(len - n, len as int) =~= suffix@);
    true
}

/// The line break that `index_of_first` finds is the one with none before it.
proof fn lemma_first_break(s: Seq<char>, i: int)
    requires
        0 <= i < s.len(),
        s[i] == '\n',
        forall|j: int| 0 <= j < i ==> s[j] != '\n',
    ensures
        s.index_of_first('\n') == Some(i),
{
    s.index_of_first_ensures('\n');
    assert(s.contains('\n'));
}

/// The line break that `index_of_last` finds is the one with none after it.
proof fn lemma_last_break(s: Seq<char>, i: int)
    requires
        0 <= i < s.len(),
        s[i] == '\n',
        forall|j: int| i < j < s.len() ==> s[j] != '\n',
    ensures
        s.index_of_last('\n') == Some(i),
{
    s.index_of_last_ensures('\n');
    assert(s.contains('\n'));
}

/// The text up to the first line break.
pub fn line_at_start(s: &str) -> (line: &str)
    ensures
        line@ == first_line(s@),
{
    let mut k: usize = 0;
    let n: usize = s.unicode_len();
    for c in it: s.chars()
        invariant
            it.seq() == s@,
            k == it.index(),
            n == s@.len(),
            forall|i: int| 0 <= i < k ==> s@[i] != '\n',
    {
        if c == '\n' {
            proof {
                lemma_first_break(s@, k as int);
                assert(s@.subrange(0, k as int) =~= s@.take(k as int));
            }
            return s.substring_char(0, k);
        }
        k = k + 1;
    }
    proof {
        s@.index_of_first_ensures('\n');
    }
    s
}

/// The text after the last line break.
pub fn line_at_end(s: &str) -> (line: &str)
    ensures
        line@ == last_line(s@),
{
    let mut start: usize = 0;
    let mut k: usize = 0;
    let n: usize = s.unicode_len();
    for c in it: s.chars()
        invariant
            it.seq() == s@,
            k == it.index(),
            n == s@.len(),
            start <= k,
            start > 0 ==> s@[start - 1] == '\n',
            forall|i: int| start <= i < k ==> s@[i] != '\n',
    {
        k = k + 1;
        if c == '\n' {
            start = k;
        }
    }
    proof {
        if start > 0 {
            lemma_last_break(s@, start - 1);
        } else {
            s@.index_of_last_ensures('\n');
        }
        assert(s@.subrange(start as int, n as int) =~= s@.skip(start as int));
        assert(s@.skip(0) =~= s@);
    }
    s.substring_char(start, n)
}

/// The width of the first line of a text.
pub fn first_line_width(s: &str) -> (width: usize)
    ensures
        width == display_width(first_line(s@)),
{
    unicode_str_width(line_at_start(s))
}

/// The width of the last line of a text.
pub fn last_line_width(s: &str) -> (width: usize)
    ensures
        width == display_width(last_line(s@)),
{
    unicode_str_width(line_at_end(s))
}

/// Whether more can be put on the last line of a text.
pub fn last_line_extendable(s: &str) -> (b: bool)
    ensures
        b == is_extendable(s@),
{
    if ends_with(s, "\"#") {
        return true;
    }
    let line = line_at_end(s);
    for c in it: line.chars()
        invariant
            it.seq() == line@,
            line@ == last_line(s@),
            forall|i: int| 0 <= i < it.index() ==> is_closing(#[trigger] last_line(s@)[i]),
            !"\"#"@.is_suffix_of(s@),
    {
        if !(c == '(' || c == ')' || c == ']' || c == '}' || c == '?' || c == '>' || is_whitespace(
            c,
        )) {
            assert(!is_closing(last_line(s@)[it.index()]));
            return false;
        }
    }
    true
}

/// The texts, one after the other, with a separator between any two.
pub fn join(parts: &Vec<String>, separator: &str) -> (text: String)
    ensures
        text@ == joined(parts@.map_values(|p: String| p@), separator@),
{
    let ghost views = parts@.map_values(|p: String| p@);
    let mut text = String::new();
    let mut i: usize = 0;
    while i < parts.len()
        invariant
            i <= parts.len(),
            views == parts@.map_values(|p: String| p@),
            text@ == joined(views.take(i as int), separator@),
        decreases parts.len() - i,
    {
        assert(views.take(i + 1).drop_last() =~= views.take(i as int));
        if i > 0 {
            text.append(separator);
        }
        text.append(&parts[i]);
        i = i + 1;
    }
    assert(views.take(i as int) =~= views);
    text
}

/// Appends a character `n` times.
pub fn append_repeated(text: &mut String, c: &str, n: usize)
    requires
        c@.len() == 1,
    ensures
        final(text)@ == old(text)@ + repeated(c@[0], n as nat),
{
    let mut i: usize = 0;
    while i < n
        invariant
            i <= n,
            c@.len() == 1,
            text@ =~= old(text)@ + repeated(c@[0], i as nat),
        decreases n - i,
    {
        text.append(c);
        i = i + 1;
    }
}

} // verus!
