//! Character classes used by the pipeline, and small verified string helpers.

use vstd::prelude::*;

verus! {

/// Characters that the sanitizer removes outright wherever they occur: the
/// bracket/quote/operator set refused by reference-name syntax, plus the
/// backtick and the backslash.
pub open spec fn is_forbidden_char(c: char) -> bool {
    ||| c == '$'
    ||| c == '*'
    ||| c == '?'
    ||| c == '\''
    ||| c == '['
    ||| c == ']'
    ||| c == '('
    ||| c == ')'
    ||| c == '^'
    ||| c == '~'
    ||| c == '='
    ||| c == '<'
    ||| c == '>'
    ||| c == '@'
    ||| c == '`'
    ||| c == '\\'
}

/// Whitespace trimmed from both ends of an input line before splitting: the
/// Unicode White_Space code points (the control whitespace, next line,
/// no-break and Ogham spaces, the typographic spaces U+2000 through U+200A,
/// the line and paragraph separators, and the narrow, mathematical and
/// ideographic spaces).
pub open spec fn is_space(c: char) -> bool {
    ||| c == ' '
    ||| c == '\t'
    ||| c == '\n'
    ||| c == '\r'
    ||| c == '\u{b}'
    ||| c == '\u{c}'
    ||| c == '\u{85}'
    ||| c == '\u{a0}'
    ||| c == '\u{1680}'
    ||| (0x2000 <= c as u32 && c as u32 <= 0x200a)
    ||| c == '\u{2028}'
    ||| c == '\u{2029}'
    ||| c == '\u{202f}'
    ||| c == '\u{205f}'
    ||| c == '\u{3000}'
}

/// The lower-case form of a title, named after `str::to_lowercase`: it
/// depends on the characters alone, and nothing shorter than the Unicode
/// tables states it.
pub uninterp spec fn lower_of(s: Seq<char>) -> Seq<char>;

/// How one character of the lower-cased title appears in the slug: spaces
/// and slashes become hyphens, everything else is kept.
pub open spec fn dash_char(c: char) -> char {
    if c == ' ' || c == '/' {
        '-'
    } else {
        c
    }
}

/// The slug of a title: the title lower-cased, then every space and slash
/// replaced by a hyphen.
pub open spec fn slug_of(title: Seq<char>) -> Seq<char> {
    lower_of(title).map_values(|c: char| dash_char(c))
}

pub fn forbidden_char(c: char) -> (r: bool)
    ensures
        r == is_forbidden_char(c),
{
    c == '$' || c == '*' || c == '?' || c == '\'' || c == '[' || c == ']' || c == '(' || c == ')'
        || c == '^' || c == '~' || c == '=' || c == '<' || c == '>' || c == '@' || c == '`'
        || c == '\\'
}

pub fn space_char(c: char) -> (r: bool)
    ensures
        r == is_space(c),
{
    let u = c as u32;
    c == ' ' || c == '\t' || c == '\n' || c == '\r' || c == '\u{b}' || c == '\u{c}'
        || c == '\u{85}' || c == '\u{a0}' || c == '\u{1680}' || (0x2000 <= u && u <= 0x200a)
        || c == '\u{2028}' || c == '\u{2029}' || c == '\u{202f}' || c == '\u{205f}'
        || c == '\u{3000}'
}

/// Relies on `str::to_lowercase`: the lower-case equivalent of the string,
/// by the Unicode Lowercase property; the result depends on the characters
/// alone, and an empty string stays empty.
#[verifier::external_body]
pub(crate) fn lowercase(s: &str) -> (r: String)
    ensures
        r@ == lower_of(s@),
        s@.len() == 0 ==> r@.len() == 0,
{
    s.to_lowercase()
}

/// Relies on `String::push`: appends the given character to the end of the
/// string.
#[verifier::external_body]
pub(crate) fn push_char(s: &mut String, c: char)
    ensures
        final(s)@ == old(s)@.push(c),
{
    s.push(c)
}

/// Character-by-character string equality, stated over the views.
pub fn str_eq(a: &str, b: &str) -> (r: bool)
    ensures
        r == (a@ == b@),
{
    let alen = a.unicode_len();
    let blen = b.unicode_len();
    if alen != blen {
        return false;
    }
    let mut i: usize = 0;
    while i < alen
        invariant
            i <= alen,
            alen as nat == a@.len(),
            alen as nat == b@.len(),
            forall|j: int| 0 <= j < i ==> a@[j] == b@[j],
        decreases alen - i,
    {
        if a.get_char(i) != b.get_char(i) {
            return false;
        }
        i += 1;
    }
    proof {
        assert(a@ =~= b@);
    }
    true
}

} // verus!
