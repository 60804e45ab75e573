//! The pipeline around the sanitizer: splitting the input line at its first
//! tab, composing the prefix, and rendering the candidate branch name.

use vstd::prelude::*;

use crate::chars::dash_char;
use crate::chars::is_space;
use crate::chars::lower_of;
use crate::chars::lowercase;
use crate::chars::push_char;
use crate::chars::slug_of;
use crate::chars::space_char;
use crate::config::Config;
use crate::config::Error;
use crate::sanitizer::clean_branch_name;
use crate::sanitizer::sanitize;

verus! {

/// Leading whitespace removed.
pub open spec fn trim_front(s: Seq<char>) -> Seq<char>
    decreases s.len(),
{
    if s.len() > 0 && is_space(s[0]) {
        trim_front(s.drop_first())
    } else {
        s
    }
}

/// Trailing whitespace removed.
pub open spec fn trim_back(s: Seq<char>) -> Seq<char>
    decreases s.len(),
{
    if s.len() > 0 && is_space(s[s.len() - 1]) {
        trim_back(s.drop_last())
    } else {
        s
    }
}

/// The input line with whitespace removed from both ends.
pub open spec fn trimmed(s: Seq<char>) -> Seq<char> {
    trim_back(trim_front(s))
}

/// The position of the first tab character, or -1 when there is none.
pub open spec fn first_tab(s: Seq<char>) -> int
    decreases s.len(),
{
    if s.len() == 0 {
        -1
    } else if s[0] == '\t' {
        0
    } else {
        let r = first_tab(s.drop_first());
        if r < 0 {
            -1
        } else {
            r + 1
        }
    }
}

/// The slash-joined prefix: the prepended segment, when there is one, always
/// precedes the type segment.
pub open spec fn prefix_of(branch_type: Seq<char>, prepended: Seq<char>) -> Seq<char> {
    if prepended.len() == 0 {
        branch_type
    } else {
        prepended + seq!['/'] + branch_type
    }
}

/// The candidate name before sanitization: prefix, identifier and slug.
pub open spec fn composed_name(
    branch_type: Seq<char>,
    prepended: Seq<char>,
    ident: Seq<char>,
    title: Seq<char>,
) -> Seq<char> {
    prefix_of(branch_type, prepended) + seq!['/'] + ident + seq!['-'] + slug_of(title)
}

/// The finished branch name for one record under one configuration.
pub open spec fn branch_name_of(
    branch_type: Seq<char>,
    prepended: Seq<char>,
    ident: Seq<char>,
    title: Seq<char>,
) -> Seq<char> {
    sanitize(composed_name(branch_type, prepended, ident, title))
}

proof fn lemma_trim_front_at(s: Seq<char>, k: int)
    requires
        0 <= k <= s.len(),
        forall|j: int| 0 <= j < k ==> is_space(s[j]),
        k == s.len() || !is_space(s[k]),
    ensures
        trim_front(s) == s.skip(k),
    decreases k,
{
    if k == 0 {
        assert(s.skip(0) =~= s);
    } else {
        lemma_trim_front_at(s.drop_first(), k - 1);
        assert(s.drop_first().skip(k - 1) =~= s.skip(k));
    }
}

proof fn lemma_trim_back_at(s: Seq<char>, m: int)
    requires
        0 <= m <= s.len(),
        forall|j: int| m <= j < s.len() ==> is_space(s[j]),
        m == 0 || !is_space(s[m - 1]),
    ensures
        trim_back(s) == s.take(m),
    decreases s.len(),
{
    if m < s.len() {
        lemma_trim_back_at(s.drop_last(), m);
        assert(s.drop_last().take(m) =~= s.take(m));
    } else {
        assert(s.take(s.len() as int) =~= s);
    }
}

proof fn lemma_first_tab_at(s: Seq<char>, k: int)
    requires
        0 <= k < s.len(),
        s[k] == '\t',
        forall|j: int| 0 <= j < k ==> s[j] != '\t',
    ensures
        first_tab(s) == k,
    decreases k,
{
    if k > 0 {
        lemma_first_tab_at(s.drop_first(), k - 1);
    }
}

proof fn lemma_first_tab_none(s: Seq<char>)
    requires
        forall|j: int| 0 <= j < s.len() ==> s[j] != '\t',
    ensures
        first_tab(s) == -1,
    decreases s.len(),
{
    if s.len() > 0 {
        lemma_first_tab_none(s.drop_first());
    }
}

/// Compose the prefix string from the configuration.
pub fn get_prefix(config: Config) -> (r: String)
    ensures
        r@ == prefix_of(config.branch_type@, config.prepended_value@),
{
    let ghost t = config.branch_type@;
    let ghost p = config.prepended_value@;
    let mut prefix = config.prepended_value;
    if !prefix.as_str().is_empty() {
        prefix.append("/");
        prefix.append(config.branch_type.as_str());
        proof {
            reveal_strlit("/");
            assert(prefix@ =~= p + seq!['/'] + t);
        }
    } else {
        prefix.append(config.branch_type.as_str());
        proof {
            assert(prefix@ =~= t);
        }
    }
    prefix
}

/// Build and sanitize the branch name for one identifier and title.
pub fn get_branch_name(config: Config, a: &str, b: &str) -> (r: String)
    ensures
        r@ == branch_name_of(config.branch_type@, config.prepended_value@, a@, b@),
{
    let ghost t = config.branch_type@;
    let ghost p = config.prepended_value@;
    let mut name = get_prefix(config);
    name.append("/");
    name.append(a);
    name.append("-");
    proof {
        reveal_strlit("/");
        reveal_strlit("-");
        assert(slug_of(b@).take(0) =~= Seq::<char>::empty());
        assert(name@ =~= prefix_of(t, p) + seq!['/'] + a@ + seq!['-'] + slug_of(b@).take(0));
    }
    let low = lowercase(b);
    let llen = low.as_str().unicode_len();
    let mut i: usize = 0;
    while i < llen
        invariant
            i <= llen,
            llen as nat == low@.len(),
            low@ == lower_of(b@),
            name@ == prefix_of(t, p) + seq!['/'] + a@ + seq!['-'] + slug_of(b@).take(i as int),
        decreases llen - i,
    {
        let c0 = low.as_str().get_char(i);
        let c = if c0 == ' ' || c0 == '/' {
            '-'
        } else {
            c0
        };
        push_char(&mut name, c);
        proof {
            assert(slug_of(b@)[i as int] == dash_char(low@[i as int]));
            assert(slug_of(b@).take(i + 1) =~= slug_of(b@).take(i as int).push(
                dash_char(low@[i as int]),
            ));
            assert(name@ =~= prefix_of(t, p) + seq!['/'] + a@ + seq!['-'] + slug_of(b@).take(
                i + 1,
            ));
        }
        i += 1;
    }
    proof {
        assert(slug_of(b@).take(llen as int) =~= slug_of(b@));
    }
    clean_branch_name(name)
}

/// Run the whole pipeline on one input line: trim it, split it at its first
/// tab into identifier and title, and produce the sanitized branch name; a
/// line with no tab is an `InvalidInputFormat` error.
pub fn run(config: Config, input: &str) -> (r: Result<String, Error>)
    ensures
        ({
            let t = trimmed(input@);
            &&& (first_tab(t) >= 0 <==> r is Ok)
            &&& r is Ok ==> r->Ok_0@ == branch_name_of(
                config.branch_type@,
                config.prepended_value@,
                t.take(first_tab(t)),
                t.skip(first_tab(t) + 1),
            )
            &&& r is Err ==> r == Err::<String, Error>(Error::InvalidInputFormat)
        }),
{
    let len = input.unicode_len();
    let mut start: usize = 0;
    while start < len && space_char(input.get_char(start))
        invariant
            start <= len,
            len as nat == input@.len(),
            forall|j: int| 0 <= j < start ==> is_space(input@[j]),
        decreases len - start,
    {
        start += 1;
    }
    let mut end: usize = len;
    while end > start && space_char(input.get_char(end - 1))
        invariant
            start <= end <= len,
            len as nat == input@.len(),
            forall|j: int| end <= j < len ==> is_space(input@[j]),
        decreases end,
    {
        end -= 1;
    }
    let t = input.substring_char(start, end);
    proof {
        lemma_trim_front_at(input@, start as int);
        lemma_trim_back_at(input@.skip(start as int), end - start);
        assert(input@.skip(start as int).take(end - start) =~= input@.subrange(
            start as int,
            end as int,
        ));
        assert(trimmed(input@) == t@);
    }
    let tlen = end - start;
    let mut k: usize = 0;
    while k < tlen
        invariant
            k <= tlen,
            tlen as nat == t@.len(),
            t@ == trimmed(input@),
            forall|j: int| 0 <= j < k ==> t@[j] != '\t',
        decreases tlen - k,
    {
        if t.get_char(k) == '\t' {
            proof {
                lemma_first_tab_at(t@, k as int);
            }
            let ident = t.substring_char(0, k);
            let title = t.substring_char(k + 1, tlen);
            proof {
                assert(t@.subrange(0, k as int) =~= t@.take(k as int));
                assert(t@.subrange(k + 1, tlen as int) =~= t@.skip(k + 1));
            }
            return Ok(get_branch_name(config, ident, title));
        }
        k += 1;
    }
    proof {
        lemma_first_tab_none(t@);
    }
    Err(Error::InvalidInputFormat)
}

} // verus!
