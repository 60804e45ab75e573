//! The sanitizer: an ordered, single-pass (non-fixpoint) sequence of rewrite
//! passes that reduces an arbitrary candidate string to one obeying the
//! branch-name invariant.
//!
//! The passes run in a fixed order that is semantically load-bearing:
//! forbidden-token strip, separator collapse, truncation to 40 characters,
//! hyphen-run collapse, and a single trailing-character strip.  Each pass runs
//! exactly once; none iterates to a fixpoint.

use vstd::prelude::*;

use crate::chars::is_forbidden_char;
use crate::chars::forbidden_char;
use crate::chars::push_char;

verus! {

/// A single leading slash is removed; a slash anywhere else is kept.
pub open spec fn drop_leading_slash(s: Seq<char>) -> Seq<char> {
    if s.len() > 0 && s[0] == '/' {
        s.drop_first()
    } else {
        s
    }
}

/// One left-to-right scan that removes every occurrence of `..`, `.lock`,
/// `@{` and every forbidden character.  The scan resumes after each removed
/// token, so a removal is never re-examined.
pub open spec fn strip_forbidden(s: Seq<char>) -> Seq<char>
    decreases s.len(),
{
    if s.len() == 0 {
        Seq::empty()
    } else if s.len() >= 2 && s[0] == '.' && s[1] == '.' {
        strip_forbidden(s.skip(2))
    } else if s.len() >= 5 && s[0] == '.' && s[1] == 'l' && s[2] == 'o' && s[3] == 'c' && s[4]
        == 'k' {
        strip_forbidden(s.skip(5))
    } else if s.len() >= 2 && s[0] == '@' && s[1] == '{' {
        strip_forbidden(s.skip(2))
    } else if is_forbidden_char(s[0]) {
        strip_forbidden(s.skip(1))
    } else {
        seq![s[0]] + strip_forbidden(s.skip(1))
    }
}

/// The whole first pass: strip a single leading slash, then strip forbidden
/// tokens in one scan.
pub open spec fn strip_pass(s: Seq<char>) -> Seq<char> {
    strip_forbidden(drop_leading_slash(s))
}

/// One left-to-right scan that replaces every non-overlapping occurrence of
/// `//` or `/.` with a single `/`.
pub open spec fn collapse_slashes(s: Seq<char>) -> Seq<char>
    decreases s.len(),
{
    if s.len() == 0 {
        Seq::empty()
    } else if s.len() >= 2 && s[0] == '/' && (s[1] == '/' || s[1] == '.') {
        seq!['/'] + collapse_slashes(s.skip(2))
    } else {
        seq![s[0]] + collapse_slashes(s.skip(1))
    }
}

/// Cut to at most 40 characters, discarding everything beyond.
pub open spec fn truncate_to_limit(s: Seq<char>) -> Seq<char> {
    if s.len() <= 40 {
        s
    } else {
        s.take(40)
    }
}

/// Replace every run of two or more consecutive hyphens with a single hyphen.
pub open spec fn collapse_hyphens(s: Seq<char>) -> Seq<char>
    decreases s.len(),
{
    if s.len() == 0 {
        Seq::empty()
    } else if s.len() >= 2 && s[0] == '-' && s[1] == '-' {
        collapse_hyphens(s.skip(1))
    } else {
        seq![s[0]] + collapse_hyphens(s.skip(1))
    }
}

/// A character that may not stand at the end of a branch name.
pub open spec fn is_trailing_char(c: char) -> bool {
    c == '-' || c == '.' || c == '/'
}

/// Remove a single trailing hyphen, dot or slash; a longer trailing run loses
/// only its outermost character.
pub open spec fn strip_trailing_char(s: Seq<char>) -> Seq<char> {
    if s.len() > 0 && is_trailing_char(s[s.len() - 1]) {
        s.drop_last()
    } else {
        s
    }
}

/// The full sanitizer: the five passes in their fixed order.
pub open spec fn sanitize(s: Seq<char>) -> Seq<char> {
    strip_trailing_char(collapse_hyphens(truncate_to_limit(collapse_slashes(strip_pass(s)))))
}

fn pass_strip_forbidden(s: &str) -> (r: String)
    ensures
        r@ == strip_forbidden(s@),
{
    let len = s.unicode_len();
    let mut out = String::new();
    let mut i: usize = 0;
    proof {
        assert(s@.skip(0) =~= s@);
        assert(out@ + strip_forbidden(s@) =~= strip_forbidden(s@));
    }
    while i < len
        invariant
            i <= len,
            len as nat == s@.len(),
            strip_forbidden(s@) == out@ + strip_forbidden(s@.skip(i as int)),
        decreases len - i,
    {
        let c = s.get_char(i);
        if c == '.' && i + 1 < len && s.get_char(i + 1) == '.' {
            proof {
                assert(s@.skip(i as int).skip(2) =~= s@.skip(i + 2));
            }
            i += 2;
        } else if c == '.' && len - i >= 5 && s.get_char(i + 1) == 'l' && s.get_char(i + 2) == 'o'
            && s.get_char(i + 3) == 'c' && s.get_char(i + 4) == 'k' {
            proof {
                assert(s@.skip(i as int).skip(5) =~= s@.skip(i + 5));
            }
            i += 5;
        } else if c == '@' && i + 1 < len && s.get_char(i + 1) == '{' {
            proof {
                assert(s@.skip(i as int).skip(2) =~= s@.skip(i + 2));
            }
            i += 2;
        } else if forbidden_char(c) {
            proof {
                assert(s@.skip(i as int).skip(1) =~= s@.skip(i + 1));
            }
            i += 1;
        } else {
            push_char(&mut out, c);
            proof {
                assert(s@.skip(i as int).skip(1) =~= s@.skip(i + 1));
                assert(out@ + strip_forbidden(s@.skip(i + 1)) =~= (out@.drop_last() + (seq![
                    s@[i as int],
                ] + strip_forbidden(s@.skip(i + 1)))));
            }
            i += 1;
        }
    }
    proof {
        assert(s@.skip(len as int) =~= Seq::<char>::empty());
        assert(out@ + Seq::<char>::empty() =~= out@);
    }
    out
}

fn pass_collapse_slashes(s: &str) -> (r: String)
    ensures
        r@ == collapse_slashes(s@),
{
    let len = s.unicode_len();
    let mut out = String::new();
    let mut i: usize = 0;
    proof {
        assert(s@.skip(0) =~= s@);
        assert(out@ + collapse_slashes(s@) =~= collapse_slashes(s@));
    }
    while i < len
        invariant
            i <= len,
            len as nat == s@.len(),
            collapse_slashes(s@) == out@ + collapse_slashes(s@.skip(i as int)),
        decreases len - i,
    {
        let c = s.get_char(i);
        if c == '/' && i + 1 < len && (s.get_char(i + 1) == '/' || s.get_char(i + 1) == '.') {
            push_char(&mut out, '/');
            proof {
                assert(s@.skip(i as int).skip(2) =~= s@.skip(i + 2));
                assert(out@ + collapse_slashes(s@.skip(i + 2)) =~= (out@.drop_last() + (seq!['/']
                    + collapse_slashes(s@.skip(i + 2)))));
            }
            i += 2;
        } else {
            push_char(&mut out, c);
            proof {
                assert(s@.skip(i as int).skip(1) =~= s@.skip(i + 1));
                assert(out@ + collapse_slashes(s@.skip(i + 1)) =~= (out@.drop_last() + (seq![
                    s@[i as int],
                ] + collapse_slashes(s@.skip(i + 1)))));
            }
            i += 1;
        }
    }
    proof {
        assert(s@.skip(len as int) =~= Seq::<char>::empty());
        assert(out@ + Seq::<char>::empty() =~= out@);
    }
    out
}

/// Cut the candidate to at most 40 characters.
pub fn truncate_branch_name(branch_name: String) -> (r: String)
    ensures
        r@ == truncate_to_limit(branch_name@),
{
    let len = branch_name.as_str().unicode_len();
    if len > 40 {
        let t = branch_name.as_str().substring_char(0, 40);
        let r = String::from_str(t);
        proof {
            assert(branch_name@.subrange(0, 40) =~= branch_name@.take(40));
        }
        r
    } else {
        branch_name
    }
}

fn pass_collapse_hyphens(s: &str) -> (r: String)
    ensures
        r@ == collapse_hyphens(s@),
{
    let len = s.unicode_len();
    let mut out = String::new();
    let mut i: usize = 0;
    proof {
        assert(s@.skip(0) =~= s@);
        assert(out@ + collapse_hyphens(s@) =~= collapse_hyphens(s@));
    }
    while i < len
        invariant
            i <= len,
            len as nat == s@.len(),
            collapse_hyphens(s@) == out@ + collapse_hyphens(s@.skip(i as int)),
        decreases len - i,
    {
        let c = s.get_char(i);
        if c == '-' && i + 1 < len && s.get_char(i + 1) == '-' {
            proof {
                assert(s@.skip(i as int).skip(1) =~= s@.skip(i + 1));
            }
            i += 1;
        } else {
            push_char(&mut out, c);
            proof {
                assert(s@.skip(i as int).skip(1) =~= s@.skip(i + 1));
                assert(out@ + collapse_hyphens(s@.skip(i + 1)) =~= (out@.drop_last() + (seq![
                    s@[i as int],
                ] + collapse_hyphens(s@.skip(i + 1)))));
            }
            i += 1;
        }
    }
    proof {
        assert(s@.skip(len as int) =~= Seq::<char>::empty());
        assert(out@ + Seq::<char>::empty() =~= out@);
    }
    out
}

fn pass_strip_trailing(s: String) -> (r: String)
    ensures
        r@ == strip_trailing_char(s@),
{
    let len = s.as_str().unicode_len();
    if len > 0 {
        let c = s.as_str().get_char(len - 1);
        if c == '-' || c == '.' || c == '/' {
            let t = s.as_str().substring_char(0, len - 1);
            let r = String::from_str(t);
            proof {
                assert(s@.subrange(0, len - 1) =~= s@.drop_last());
            }
            return r;
        }
    }
    s
}

/// Apply the five sanitizer passes, in order, each exactly once.
pub fn clean_branch_name(branch_name: String) -> (r: String)
    ensures
        r@ == sanitize(branch_name@),
{
    let s = branch_name.as_str();
    let len = s.unicode_len();
    let opened = if len > 0 && s.get_char(0) == '/' {
        let t = s.substring_char(1, len);
        proof {
            assert(branch_name@.subrange(1, len as int) =~= branch_name@.drop_first());
        }
        t
    } else {
        s
    };
    let stripped = pass_strip_forbidden(opened);
    let collapsed = pass_collapse_slashes(stripped.as_str());
    let truncated = truncate_branch_name(collapsed);
    let dehyphened = pass_collapse_hyphens(truncated.as_str());
    pass_strip_trailing(dehyphened)
}

} // verus!
