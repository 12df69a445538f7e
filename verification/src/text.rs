//! Character and string helpers shared by the lexer and the parser.

use vstd::prelude::*;

verus! {

/// The characters with the Unicode `White_Space` property.
pub open spec fn is_white_space(c: char) -> bool {
    ||| ('\u{9}' <= c && c <= '\u{d}')
    ||| c == ' '
    ||| c == '\u{85}'
    ||| c == '\u{a0}'
    ||| c == '\u{1680}'
    ||| ('\u{2000}' <= c && c <= '\u{200a}')
    ||| c == '\u{2028}'
    ||| c == '\u{2029}'
    ||| c == '\u{202f}'
    ||| c == '\u{205f}'
    ||| c == '\u{3000}'
}

/// The full Unicode upper-case mapping of a string, as `str::to_uppercase`
/// computes it from the Unicode character database.
pub uninterp spec fn uppercase(s: Seq<char>) -> Seq<char>;

/// Whether `c` is whitespace: has the Unicode `White_Space` property.
pub fn is_whitespace_char(c: char) -> (r: bool)
    ensures
        r == is_white_space(c),
{
    ('\u{9}' <= c && c <= '\u{d}') || c == ' ' || c == '\u{85}' || c == '\u{a0}' || c
        == '\u{1680}' || ('\u{2000}' <= c && c <= '\u{200a}') || c == '\u{2028}' || c
        == '\u{2029}' || c == '\u{202f}' || c == '\u{205f}' || c == '\u{3000}'
}

/// The upper-case form of a character of the ASCII range: `a`..`z` become
/// `A`..`Z`, every other character stays.
pub open spec fn ascii_upper_char(c: char) -> char {
    if 'a' <= c && c <= 'z' {
        ((c as int) - 32) as char
    } else {
        c
    }
}

/// The upper-case form of ASCII text.
pub open spec fn ascii_upper(s: Seq<char>) -> Seq<char> {
    s.map_values(|c: char| ascii_upper_char(c))
}

/// Whether every character of `s` is in the ASCII range.
pub open spec fn all_ascii(s: Seq<char>) -> bool {
    forall|i: int| 0 <= i < s.len() ==> (s[i] as int) < 128
}

/// Calls `str::to_uppercase`. Its result is named `uppercase`; two facts
/// stand beside the name: it is empty exactly when the argument is (every
/// character maps to one or more characters), and on ASCII text it turns
/// `a`..`z` into `A`..`Z` and keeps every other character. What it makes of
/// other characters (`ß` becomes `SS`, ...) is left to the name.
#[verifier::external_body]
pub(crate) fn to_upper(s: &str) -> (r: String)
    ensures
        r@ == uppercase(s@),
        r@.len() == 0 <==> s@.len() == 0,
        all_ascii(s@) ==> r@ == ascii_upper(s@),
{
    s.to_uppercase()
}

/// Calls `String::push`, which appends one character.
#[verifier::external_body]
pub(crate) fn push_char(s: &mut String, c: char)
    ensures
        final(s)@ == old(s)@.push(c),
{
    s.push(c)
}

/// Whether a string holds exactly the characters of `b`.
pub fn same_text(a: &String, b: &str) -> (r: bool)
    ensures
        r == (a@ == b@),
{
    let k: String = b.to_owned();
    *a == k
}

/// Whether two words are the same keyword: equal once upper-cased. On
/// ASCII words this ignores the case of the letters `a`..`z`.
pub fn same_keyword(word: &str, kw: &str) -> (r: bool)
    ensures
        r == (uppercase(word@) == uppercase(kw@)),
        all_ascii(word@) && all_ascii(kw@) ==> r == (ascii_upper(word@) == ascii_upper(kw@)),
{
    let u = to_upper(word);
    let k = to_upper(kw);
    u == k
}

/// The characters of a string, in order.
pub fn chars_of(s: &str) -> (r: Vec<char>)
    ensures
        r@ == s@,
{
    let mut out: Vec<char> = Vec::new();
    for c in it: s.chars()
        invariant
            out@ == it.seq().take(it.index() as int),
    {
        out.push(c);
    }
    out
}

} // verus!
