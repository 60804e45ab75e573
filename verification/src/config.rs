//! The immutable configuration built from command-line-style tokens, and the
//! two error kinds of the pipeline.

use vstd::prelude::*;

use crate::chars::str_eq;

verus! {

/// The two ways a run can fail: a recognized flag without a following value,
/// and an input line without a tab separator.
#[derive(Clone, Copy, Debug, PartialEq, Eq)]
pub enum Error {
    MissingFlagValue,
    InvalidInputFormat,
}

/// The immutable configuration of one pipeline run: a branch type segment and
/// an optional prepended segment.
pub struct Config {
    pub branch_type: String,
    pub prepended_value: String,
}

/// A token that sets the branch type, with the next token as its value.
pub open spec fn is_type_flag(a: Seq<char>) -> bool {
    a == "-t"@ || a == "--type"@
}

/// A token that sets the prepended segment, with the next token as its value.
pub open spec fn is_prepend_flag(a: Seq<char>) -> bool {
    a == "-p"@ || a == "--prepend"@
}

/// One forward scan over the tokens from position `i`, carrying the branch
/// type and prepended value chosen so far.  A recognized flag captures the
/// following token as its value (later flags override earlier ones, and the
/// captured token is itself examined in turn); a recognized flag with nothing
/// after it is a configuration error; unrecognized tokens are ignored.
pub open spec fn scan_flags(
    args: Seq<Seq<char>>,
    i: int,
    branch_type: Seq<char>,
    prepended: Seq<char>,
) -> Option<(Seq<char>, Seq<char>)>
    decreases args.len() - i,
{
    if i < 0 || i >= args.len() {
        Some((branch_type, prepended))
    } else if is_type_flag(args[i]) {
        if i + 1 < args.len() {
            scan_flags(args, i + 1, args[i + 1], prepended)
        } else {
            None
        }
    } else if is_prepend_flag(args[i]) {
        if i + 1 < args.len() {
            scan_flags(args, i + 1, branch_type, args[i + 1])
        } else {
            None
        }
    } else {
        scan_flags(args, i + 1, branch_type, prepended)
    }
}

/// What `Config::new` builds from the given tokens: the scan started at the
/// defaults, `feature` with nothing prepended.
pub open spec fn spec_config(args: Seq<Seq<char>>) -> Option<(Seq<char>, Seq<char>)> {
    scan_flags(args, 0, "feature"@, ""@)
}

impl Config {
    /// Scan the tokens for `-t`/`--type` and `-p`/`--prepend`; a recognized
    /// flag with no following token is a `MissingFlagValue` error.
    pub fn new(args: &[String]) -> (r: Result<Config, Error>)
        ensures
            match spec_config(args.deep_view()) {
                Some(tp) => {
                    &&& r is Ok
                    &&& r->Ok_0.branch_type@ == tp.0
                    &&& r->Ok_0.prepended_value@ == tp.1
                },
                None => r == Err::<Config, Error>(Error::MissingFlagValue),
            },
    {
        let ghost argsv = args.deep_view();
        let mut branch_type = String::from_str("feature");
        let mut prepended_value = String::new();
        let n = args.len();
        let mut i: usize = 0;
        proof {
            reveal_strlit("");
            assert(prepended_value@ =~= ""@);
        }
        while i < n
            invariant
                i <= n,
                n == argsv.len(),
                argsv == args.deep_view(),
                spec_config(argsv) == scan_flags(argsv, i as int, branch_type@, prepended_value@),
            decreases n - i,
        {
            let a = vstd::slice::slice_index_get(args, i);
            proof {
                assert(argsv[i as int] == a@);
            }
            if str_eq(a.as_str(), "-t") || str_eq(a.as_str(), "--type") {
                if i + 1 < n {
                    branch_type = vstd::slice::slice_index_get(args, i + 1).clone();
                    proof {
                        assert(argsv[i + 1] == branch_type@);
                    }
                } else {
                    return Err(Error::MissingFlagValue);
                }
            } else if str_eq(a.as_str(), "-p") || str_eq(a.as_str(), "--prepend") {
                if i + 1 < n {
                    prepended_value = vstd::slice::slice_index_get(args, i + 1).clone();
                    proof {
                        assert(argsv[i + 1] == prepended_value@);
                    }
                } else {
                    return Err(Error::MissingFlagValue);
                }
            }
            i += 1;
        }
        Ok(Config { branch_type, prepended_value })
    }
}

} // verus!
