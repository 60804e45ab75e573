//! The properties the sanitizer guarantees, stated over the spec-level
//! rewrite passes and proved for every input.
//!
//! The passes run once each, never to a fixpoint, so a removal in an early
//! pass can expose a token that no later pass re-checks.  The laws that hold
//! of every input are stated unconditionally; the ones subject to that known
//! single-pass limitation carry a premise that rules exactly those exposures
//! out.

use vstd::prelude::*;

use crate::chars::is_forbidden_char;
use crate::sanitizer::collapse_hyphens;
use crate::sanitizer::collapse_slashes;
use crate::sanitizer::drop_leading_slash;
use crate::sanitizer::is_trailing_char;
use crate::sanitizer::sanitize;
use crate::sanitizer::strip_forbidden;
use crate::sanitizer::strip_pass;
use crate::sanitizer::strip_trailing_char;
use crate::sanitizer::truncate_to_limit;

verus! {

/// No character of the forbidden set occurs.
pub open spec fn no_forbidden_chars(s: Seq<char>) -> bool {
    forall|i: int| 0 <= i < s.len() ==> !is_forbidden_char(#[trigger] s[i])
}

/// No run of two or more consecutive hyphens occurs.
pub open spec fn no_double_hyphen(s: Seq<char>) -> bool {
    forall|i: int| 0 <= i && i + 1 < s.len() ==> !(#[trigger] s[i] == '-' && s[i + 1] == '-')
}

/// The substring `..` does not occur.
pub open spec fn no_dot_dot(s: Seq<char>) -> bool {
    forall|i: int| 0 <= i && i + 1 < s.len() ==> !(#[trigger] s[i] == '.' && s[i + 1] == '.')
}

/// Neither `//` nor `/.` occurs.
pub open spec fn no_slash_pair(s: Seq<char>) -> bool {
    forall|i: int|
        0 <= i && i + 1 < s.len() ==> !(#[trigger] s[i] == '/' && (s[i + 1] == '/' || s[i + 1]
            == '.'))
}

/// The substring `.lock` does not occur.
pub open spec fn no_lock_token(s: Seq<char>) -> bool {
    forall|i: int|
        0 <= i && i + 5 <= s.len() ==> !(#[trigger] s[i] == '.' && s[i + 1] == 'l' && s[i + 2]
            == 'o' && s[i + 3] == 'c' && s[i + 4] == 'k')
}

/// The name neither starts with a slash nor ends with a hyphen, dot or slash.
pub open spec fn good_edges(s: Seq<char>) -> bool {
    &&& s.len() > 0 ==> s[0] != '/'
    &&& s.len() > 0 ==> !is_trailing_char(s[s.len() - 1])
}

/// The branch-name invariant: what a fully legal name looks like.
pub open spec fn is_valid_name(s: Seq<char>) -> bool {
    &&& s.len() <= 40
    &&& no_forbidden_chars(s)
    &&& no_double_hyphen(s)
    &&& no_dot_dot(s)
    &&& no_slash_pair(s)
    &&& no_lock_token(s)
    &&& good_edges(s)
}

proof fn lemma_collapse_hyphens_len(s: Seq<char>)
    ensures
        collapse_hyphens(s).len() <= s.len(),
    decreases s.len(),
{
    if s.len() > 0 {
        lemma_collapse_hyphens_len(s.skip(1));
    }
}

proof fn lemma_collapse_hyphens_first(s: Seq<char>)
    ensures
        s.len() == 0 ==> collapse_hyphens(s).len() == 0,
        s.len() > 0 ==> collapse_hyphens(s).len() > 0 && collapse_hyphens(s)[0] == s[0],
    decreases s.len(),
{
    if s.len() > 0 {
        lemma_collapse_hyphens_first(s.skip(1));
    }
}

proof fn lemma_collapse_slashes_first(s: Seq<char>)
    ensures
        s.len() == 0 ==> collapse_slashes(s).len() == 0,
        s.len() > 0 ==> collapse_slashes(s).len() > 0 && collapse_slashes(s)[0] == s[0],
    decreases s.len(),
{
    if s.len() > 0 {
        lemma_collapse_slashes_first(s.skip(1));
    }
}

proof fn lemma_strip_forbidden_chars(s: Seq<char>)
    ensures
        no_forbidden_chars(strip_forbidden(s)),
    decreases s.len(),
{
    if s.len() == 0 {
    } else if s.len() >= 2 && s[0] == '.' && s[1] == '.' {
        lemma_strip_forbidden_chars(s.skip(2));
    } else if s.len() >= 5 && s[0] == '.' && s[1] == 'l' && s[2] == 'o' && s[3] == 'c' && s[4]
        == 'k' {
        lemma_strip_forbidden_chars(s.skip(5));
    } else if s.len() >= 2 && s[0] == '@' && s[1] == '{' {
        lemma_strip_forbidden_chars(s.skip(2));
    } else if is_forbidden_char(s[0]) {
        lemma_strip_forbidden_chars(s.skip(1));
    } else {
        lemma_strip_forbidden_chars(s.skip(1));
    }
}

proof fn lemma_collapse_slashes_chars(s: Seq<char>)
    requires
        no_forbidden_chars(s),
    ensures
        no_forbidden_chars(collapse_slashes(s)),
    decreases s.len(),
{
    if s.len() == 0 {
    } else if s.len() >= 2 && s[0] == '/' && (s[1] == '/' || s[1] == '.') {
        assert(no_forbidden_chars(s.skip(2))) by {
            assert(forall|i: int|
                0 <= i < s.skip(2).len() ==> #[trigger] s.skip(2)[i] == s[i + 2]);
        }
        lemma_collapse_slashes_chars(s.skip(2));
    } else {
        assert(no_forbidden_chars(s.skip(1))) by {
            assert(forall|i: int|
                0 <= i < s.skip(1).len() ==> #[trigger] s.skip(1)[i] == s[i + 1]);
        }
        lemma_collapse_slashes_chars(s.skip(1));
    }
}

proof fn lemma_collapse_hyphens_chars(s: Seq<char>)
    requires
        no_forbidden_chars(s),
    ensures
        no_forbidden_chars(collapse_hyphens(s)),
    decreases s.len(),
{
    if s.len() > 0 {
        assert(no_forbidden_chars(s.skip(1))) by {
            assert(forall|i: int|
                0 <= i < s.skip(1).len() ==> #[trigger] s.skip(1)[i] == s[i + 1]);
        }
        lemma_collapse_hyphens_chars(s.skip(1));
    }
}

proof fn lemma_collapse_hyphens_no_double(s: Seq<char>)
    ensures
        no_double_hyphen(collapse_hyphens(s)),
    decreases s.len(),
{
    if s.len() == 0 {
    } else if s.len() >= 2 && s[0] == '-' && s[1] == '-' {
        lemma_collapse_hyphens_no_double(s.skip(1));
    } else {
        lemma_collapse_hyphens_no_double(s.skip(1));
        lemma_collapse_hyphens_first(s.skip(1));
    }
}

/// Every input is cut to the 40-character cap.
///
/// Truncation runs before the hyphen collapse and the trailing strip, and
/// neither of those ever lengthens the string.
pub proof fn lemma_sanitized_length(s: Seq<char>)
    ensures
        sanitize(s).len() <= 40,
{
    let v = collapse_slashes(strip_pass(s));
    lemma_collapse_hyphens_len(truncate_to_limit(v));
}

/// For every input, the sanitized name contains no forbidden character (and
/// hence no backtick, backslash or `@{`), and no run of two or more hyphens.
pub proof fn lemma_sanitized_chars(s: Seq<char>)
    ensures
        no_forbidden_chars(sanitize(s)),
        no_double_hyphen(sanitize(s)),
{
    let u = strip_pass(s);
    let v = collapse_slashes(u);
    let t3 = truncate_to_limit(v);
    let t4 = collapse_hyphens(t3);
    lemma_strip_forbidden_chars(drop_leading_slash(s));
    lemma_collapse_slashes_chars(u);
    assert(no_forbidden_chars(t3)) by {
        assert(forall|i: int| 0 <= i < t3.len() ==> #[trigger] t3[i] == v[i]);
    }
    lemma_collapse_hyphens_chars(t3);
    lemma_collapse_hyphens_no_double(t3);
    assert(forall|i: int| 0 <= i < sanitize(s).len() ==> #[trigger] sanitize(s)[i] == t4[i]);
}

/// The window `w` stands in `s` at position `i`.
pub open spec fn occurs_at(s: Seq<char>, w: Seq<char>, i: int) -> bool {
    &&& 0 <= i
    &&& i + w.len() <= s.len()
    &&& forall|j: int| 0 <= j < w.len() ==> s[i + j] == #[trigger] w[j]
}

/// The window `w` stands somewhere in `s`.
pub open spec fn occurs(s: Seq<char>, w: Seq<char>) -> bool {
    exists|i: int| occurs_at(s, w, i)
}

proof fn lemma_collapse_hyphens_prefix(s: Seq<char>, k: int)
    requires
        0 <= k <= collapse_hyphens(s).len(),
        forall|j: int| 0 <= j < k ==> #[trigger] collapse_hyphens(s)[j] != '-',
    ensures
        k <= s.len(),
        forall|j: int| 0 <= j < k ==> #[trigger] collapse_hyphens(s)[j] == s[j],
    decreases s.len(),
{
    let out = collapse_hyphens(s);
    if k == 0 {
    } else if s.len() >= 2 && s[0] == '-' && s[1] == '-' {
        lemma_collapse_hyphens_first(s.skip(1));
        assert(out[0] == '-');
        assert(false);
    } else {
        let rest = collapse_hyphens(s.skip(1));
        assert(forall|j: int| 0 <= j < k - 1 ==> #[trigger] rest[j] == out[j + 1]);
        lemma_collapse_hyphens_prefix(s.skip(1), k - 1);
        assert forall|j: int| 0 <= j < k implies #[trigger] out[j] == s[j] by {
            if j > 0 {
                assert(rest[j - 1] == s.skip(1)[j - 1]);
                assert(s.skip(1)[j - 1] == s[j]);
            }
        }
    }
}

proof fn lemma_collapse_hyphens_window(s: Seq<char>, w: Seq<char>)
    requires
        forall|j: int| 0 <= j < w.len() ==> #[trigger] w[j] != '-',
    ensures
        occurs(collapse_hyphens(s), w) ==> occurs(s, w),
    decreases s.len(),
{
    let out = collapse_hyphens(s);
    if occurs(out, w) {
        let i = choose|i: int| occurs_at(out, w, i);
        if w.len() == 0 {
            assert(occurs_at(s, w, 0));
        } else if s.len() == 0 {
            assert(false);
        } else if s.len() >= 2 && s[0] == '-' && s[1] == '-' {
            lemma_collapse_hyphens_window(s.skip(1), w);
            assert(occurs(s.skip(1), w));
            let j = choose|j: int| occurs_at(s.skip(1), w, j);
            assert forall|m: int| 0 <= m < w.len() implies s[j + 1 + m] == w[m] by {
                assert(s.skip(1)[j + m] == w[m]);
            }
            assert(occurs_at(s, w, j + 1));
        } else if i == 0 {
            assert forall|j: int| 0 <= j < w.len() implies #[trigger] out[j] != '-' by {
                assert(out[0 + j] == w[j]);
            }
            lemma_collapse_hyphens_prefix(s, w.len() as int);
            assert(occurs_at(s, w, 0));
        } else {
            let rest = collapse_hyphens(s.skip(1));
            assert forall|m: int| 0 <= m < w.len() implies rest[i - 1 + m] == w[m] by {
                assert(out[i + m] == w[m]);
            }
            assert(occurs_at(rest, w, i - 1));
            lemma_collapse_hyphens_window(s.skip(1), w);
            assert(occurs(s.skip(1), w));
            let j = choose|j: int| occurs_at(s.skip(1), w, j);
            assert forall|m: int| 0 <= m < w.len() implies s[j + 1 + m] == w[m] by {
                assert(s.skip(1)[j + m] == w[m]);
            }
            assert(occurs_at(s, w, j + 1));
        }
    }
}

proof fn lemma_occurs_take(s: Seq<char>, n: int, w: Seq<char>)
    requires
        0 <= n <= s.len(),
    ensures
        occurs(s.take(n), w) ==> occurs(s, w),
{
    if occurs(s.take(n), w) {
        let i = choose|i: int| occurs_at(s.take(n), w, i);
        assert forall|m: int| 0 <= m < w.len() implies s[i + m] == w[m] by {
            assert(s.take(n)[i + m] == w[m]);
        }
        assert(occurs_at(s, w, i));
    }
}

proof fn lemma_occurs_strip_trailing(s: Seq<char>, w: Seq<char>)
    ensures
        occurs(strip_trailing_char(s), w) ==> occurs(s, w),
{
    if s.len() > 0 && is_trailing_char(s[s.len() - 1]) {
        assert(s.drop_last() =~= s.take(s.len() - 1));
        lemma_occurs_take(s, s.len() - 1, w);
    }
}

proof fn lemma_sanitize_window(s: Seq<char>, w: Seq<char>)
    requires
        forall|j: int| 0 <= j < w.len() ==> #[trigger] w[j] != '-',
    ensures
        occurs(sanitize(s), w) ==> occurs(collapse_slashes(strip_pass(s)), w),
{
    let v = collapse_slashes(strip_pass(s));
    let t3 = truncate_to_limit(v);
    let t4 = collapse_hyphens(t3);
    lemma_occurs_strip_trailing(t4, w);
    lemma_collapse_hyphens_window(t3, w);
    if v.len() > 40 {
        lemma_occurs_take(v, 40, w);
    }
}

/// The single-pass sanitizer never re-checks a token that an earlier removal
/// or collapse exposed.  Whenever the separator-collapse pass leaves a string
/// free of `..`, `.lock`, `//` and `/.`, the finished name is free of them
/// too: truncation, the hyphen collapse and the trailing strip cannot
/// re-introduce any of these windows.
pub proof fn lemma_sanitized_sequences(s: Seq<char>)
    requires
        no_dot_dot(collapse_slashes(strip_pass(s))),
        no_lock_token(collapse_slashes(strip_pass(s))),
        no_slash_pair(collapse_slashes(strip_pass(s))),
    ensures
        no_dot_dot(sanitize(s)),
        no_lock_token(sanitize(s)),
        no_slash_pair(sanitize(s)),
{
    let v = collapse_slashes(strip_pass(s));
    let out = sanitize(s);
    assert forall|i: int|
        0 <= i && i + 1 < out.len() implies !(#[trigger] out[i] == '.' && out[i + 1] == '.') by {
        if out[i] == '.' && out[i + 1] == '.' {
            let w = seq!['.', '.'];
            assert forall|j: int| 0 <= j < w.len() implies out[i + j] == w[j] by {
                if j == 0 {
                } else {
                    assert(j == 1);
                }
            }
            assert(occurs_at(out, w, i));
            assert(forall|j: int| 0 <= j < w.len() ==> #[trigger] w[j] != '-');
            lemma_sanitize_window(s, w);
            assert(occurs(v, w));
            let k = choose|k: int| occurs_at(v, w, k);
            assert(v[k + 0] == '.' && v[k + 1] == '.');
            assert(false);
        }
    }
    assert forall|i: int|
        0 <= i && i + 1 < out.len() implies !(#[trigger] out[i] == '/' && (out[i + 1] == '/'
        || out[i + 1] == '.')) by {
        if out[i] == '/' && (out[i + 1] == '/' || out[i + 1] == '.') {
            let w = if out[i + 1] == '/' {
                seq!['/', '/']
            } else {
                seq!['/', '.']
            };
            assert forall|j: int| 0 <= j < w.len() implies out[i + j] == w[j] by {
                if j == 0 {
                } else {
                    assert(j == 1);
                }
            }
            assert(occurs_at(out, w, i));
            assert(forall|j: int| 0 <= j < w.len() ==> #[trigger] w[j] != '-');
            lemma_sanitize_window(s, w);
            assert(occurs(v, w));
            let k = choose|k: int| occurs_at(v, w, k);
            assert(v[k + 0] == '/' && (v[k + 1] == '/' || v[k + 1] == '.'));
            assert(false);
        }
    }
    assert forall|i: int|
        0 <= i && i + 5 <= out.len() implies !(#[trigger] out[i] == '.' && out[i + 1] == 'l'
        && out[i + 2] == 'o' && out[i + 3] == 'c' && out[i + 4] == 'k') by {
        if out[i] == '.' && out[i + 1] == 'l' && out[i + 2] == 'o' && out[i + 3] == 'c' && out[i
            + 4] == 'k' {
            let w = seq!['.', 'l', 'o', 'c', 'k'];
            assert forall|j: int| 0 <= j < w.len() implies out[i + j] == w[j] by {
                if j == 0 {
                } else if j == 1 {
                } else if j == 2 {
                } else if j == 3 {
                } else {
                    assert(j == 4);
                }
            }
            assert(occurs_at(out, w, i));
            assert(forall|j: int| 0 <= j < w.len() ==> #[trigger] w[j] != '-');
            lemma_sanitize_window(s, w);
            assert(occurs(v, w));
            let k = choose|k: int| occurs_at(v, w, k);
            assert(v[k + 0] == '.' && v[k + 1] == 'l' && v[k + 2] == 'o' && v[k + 3] == 'c' && v[k
                + 4] == 'k');
            assert(false);
        }
    }
}

/// The sanitized name never starts with a slash and never ends with a
/// hyphen, dot or slash, provided the forbidden-token strip did not expose a
/// leading slash and the trailing strip faces at most one trailing separator
/// (the strip removes only the single outermost character).
pub proof fn lemma_sanitized_edges(s: Seq<char>)
    requires
        strip_pass(s).len() > 0 ==> strip_pass(s)[0] != '/',
        ({
            let t = collapse_hyphens(truncate_to_limit(collapse_slashes(strip_pass(s))));
            t.len() < 2 || !(is_trailing_char(t[t.len() - 1]) && is_trailing_char(t[t.len() - 2]))
        }),
    ensures
        good_edges(sanitize(s)),
{
    let u = strip_pass(s);
    let v = collapse_slashes(u);
    let t3 = truncate_to_limit(v);
    let t4 = collapse_hyphens(t3);
    let out = sanitize(s);
    lemma_collapse_slashes_first(u);
    lemma_collapse_hyphens_first(t3);
    if out.len() > 0 {
        assert(t4.len() > 0);
        assert(out[0] == t4[0]);
        assert(t3[0] == v[0]);
        assert(out[0] != '/');
        if is_trailing_char(t4[t4.len() - 1]) {
            assert(out =~= t4.drop_last());
            assert(out[out.len() - 1] == t4[t4.len() - 2]);
            assert(!is_trailing_char(out[out.len() - 1]));
        } else {
            assert(!is_trailing_char(out[out.len() - 1]));
        }
    }
}

proof fn lemma_strip_forbidden_identity(s: Seq<char>)
    requires
        no_forbidden_chars(s),
        no_dot_dot(s),
        no_lock_token(s),
    ensures
        strip_forbidden(s) == s,
    decreases s.len(),
{
    if s.len() == 0 {
        assert(strip_forbidden(s) =~= s);
    } else {
        assert(!is_forbidden_char(s[0]));
        assert(forall|i: int| 0 <= i < s.skip(1).len() ==> #[trigger] s.skip(1)[i] == s[i + 1]);
        assert forall|i: int|
            0 <= i && i + 1 < s.skip(1).len() implies !(#[trigger] s.skip(1)[i] == '.' && s.skip(
            1,
        )[i + 1] == '.') by {
            assert(s.skip(1)[i] == s[i + 1]);
            assert(s.skip(1)[i + 1] == s[i + 2]);
            assert(!(s[i + 1] == '.' && s[i + 2] == '.'));
        }
        assert forall|i: int|
            0 <= i && i + 5 <= s.skip(1).len() implies !(#[trigger] s.skip(1)[i] == '.' && s.skip(
            1,
        )[i + 1] == 'l' && s.skip(1)[i + 2] == 'o' && s.skip(1)[i + 3] == 'c' && s.skip(1)[i + 4]
            == 'k') by {
            assert(s.skip(1)[i] == s[i + 1]);
            assert(s.skip(1)[i + 1] == s[i + 2]);
            assert(s.skip(1)[i + 2] == s[i + 3]);
            assert(s.skip(1)[i + 3] == s[i + 4]);
            assert(s.skip(1)[i + 4] == s[i + 5]);
            assert(!(s[i + 1] == '.' && s[i + 2] == 'l' && s[i + 3] == 'o' && s[i + 4] == 'c' && s[i
                + 5] == 'k'));
        }
        lemma_strip_forbidden_identity(s.skip(1));
        assert(strip_forbidden(s) =~= s);
    }
}

proof fn lemma_collapse_slashes_identity(s: Seq<char>)
    requires
        no_slash_pair(s),
    ensures
        collapse_slashes(s) == s,
    decreases s.len(),
{
    if s.len() == 0 {
        assert(collapse_slashes(s) =~= s);
    } else {
        assert(!(s.len() >= 2 && s[0] == '/' && (s[1] == '/' || s[1] == '.')));
        assert forall|i: int|
            0 <= i && i + 1 < s.skip(1).len() implies !(#[trigger] s.skip(1)[i] == '/' && (s.skip(
            1,
        )[i + 1] == '/' || s.skip(1)[i + 1] == '.')) by {
            assert(s.skip(1)[i] == s[i + 1]);
            assert(s.skip(1)[i + 1] == s[i + 2]);
            assert(!(s[i + 1] == '/' && (s[i + 2] == '/' || s[i + 2] == '.')));
        }
        lemma_collapse_slashes_identity(s.skip(1));
        assert(collapse_slashes(s) =~= s);
    }
}

proof fn lemma_collapse_hyphens_identity(s: Seq<char>)
    requires
        no_double_hyphen(s),
    ensures
        collapse_hyphens(s) == s,
    decreases s.len(),
{
    if s.len() == 0 {
        assert(collapse_hyphens(s) =~= s);
    } else {
        assert(!(s.len() >= 2 && s[0] == '-' && s[1] == '-'));
        assert forall|i: int|
            0 <= i && i + 1 < s.skip(1).len() implies !(#[trigger] s.skip(1)[i] == '-' && s.skip(
            1,
        )[i + 1] == '-') by {
            assert(s.skip(1)[i] == s[i + 1]);
            assert(s.skip(1)[i + 1] == s[i + 2]);
            assert(!(s[i + 1] == '-' && s[i + 2] == '-'));
        }
        lemma_collapse_hyphens_identity(s.skip(1));
        assert(collapse_hyphens(s) =~= s);
    }
}

/// Sanitization is the identity on every already-valid name: a name that
/// satisfies the branch-name invariant passes through every rewrite pass
/// unchanged.
pub proof fn lemma_sanitize_of_valid(s: Seq<char>)
    requires
        is_valid_name(s),
    ensures
        sanitize(s) == s,
{
    assert(drop_leading_slash(s) == s);
    lemma_strip_forbidden_identity(s);
    lemma_collapse_slashes_identity(s);
    lemma_collapse_hyphens_identity(s);
}

/// Sanitization is a projection onto the valid-name set: whenever its
/// single-pass limitations do not bite (the premises of
/// [`lemma_sanitized_sequences`] and [`lemma_sanitized_edges`]), the output
/// satisfies the full invariant, and sanitizing it again changes nothing.
pub proof fn lemma_sanitize_projection(s: Seq<char>)
    requires
        no_dot_dot(collapse_slashes(strip_pass(s))),
        no_lock_token(collapse_slashes(strip_pass(s))),
        no_slash_pair(collapse_slashes(strip_pass(s))),
        strip_pass(s).len() > 0 ==> strip_pass(s)[0] != '/',
        ({
            let t = collapse_hyphens(truncate_to_limit(collapse_slashes(strip_pass(s))));
            t.len() < 2 || !(is_trailing_char(t[t.len() - 1]) && is_trailing_char(t[t.len() - 2]))
        }),
    ensures
        is_valid_name(sanitize(s)),
        sanitize(sanitize(s)) == sanitize(s),
{
    lemma_sanitized_length(s);
    lemma_sanitized_chars(s);
    lemma_sanitized_sequences(s);
    lemma_sanitized_edges(s);
    lemma_sanitize_of_valid(sanitize(s));
}

} // verus!
