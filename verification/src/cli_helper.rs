//! Helpers for reading command arguments and options.
//!
//! An option is an argument of the form `--name` or `--name=value`; every
//! other argument is positional.  The functions here are pure over the
//! argument list, so the embedding program can parse however it collected
//! its arguments.

use crate::text::{is_prefix_of, occurs_at};
use vstd::prelude::*;
use vstd::string::StrSliceExecFns;

verus! {

/// The text that marks an option: two dashes.
pub open spec fn dashes() -> Seq<char> {
    seq!['-', '-']
}

/// Whether an argument is written as an option (starts with `--`).
pub open spec fn is_option_text(s: Seq<char>) -> bool {
    is_prefix_of(dashes(), s)
}

/// The text that an option named `name` starts with: `--name`.
pub open spec fn opt_pat(name: Seq<char>) -> Seq<char> {
    dashes() + name
}

/// The text that an option named `name` with an inline value starts
/// with: `--name=`.
pub open spec fn opt_eq_pat(name: Seq<char>) -> Seq<char> {
    opt_pat(name) + seq!['=']
}

/// Index of the first argument starting with `pat`, or -1 when none does.
pub open spec fn first_prefixed(args: Seq<String>, pat: Seq<char>) -> int
    decreases args.len(),
{
    if args.len() == 0 {
        -1
    } else if is_prefix_of(pat, args[0]@) {
        0
    } else {
        let r = first_prefixed(args.drop_first(), pat);
        if r == -1 {
            -1
        } else {
            r + 1
        }
    }
}

proof fn lemma_first_prefixed_at(args: Seq<String>, pat: Seq<char>, k: int)
    requires
        0 <= k < args.len(),
        is_prefix_of(pat, args[k]@),
        forall|j: int| 0 <= j < k ==> !is_prefix_of(pat, args[j]@),
    ensures
        first_prefixed(args, pat) == k,
    decreases args.len(),
{
    if k > 0 {
        assert(forall|j: int| 0 <= j < k - 1 ==> args.drop_first()[j] == args[j + 1]);
        lemma_first_prefixed_at(args.drop_first(), pat, k - 1);
    }
}

proof fn lemma_first_prefixed_none(args: Seq<String>, pat: Seq<char>)
    requires
        forall|j: int| 0 <= j < args.len() ==> !is_prefix_of(pat, args[j]@),
    ensures
        first_prefixed(args, pat) == -1,
    decreases args.len(),
{
    if args.len() > 0 {
        lemma_first_prefixed_none(args.drop_first(), pat);
    }
}

/// Whether `v` starts with two dashes.
fn is_option_arg(v: &str) -> (b: bool)
    ensures
        b == is_option_text(v@),
{
    if v.unicode_len() < 2 {
        return false;
    }
    let r = v.get_char(0) == '-' && v.get_char(1) == '-';
    proof {
        if r {
            assert(v@.subrange(0, 2) =~= dashes());
        } else {
            assert(v@.subrange(0, 2)[0] == v@[0]);
            assert(v@.subrange(0, 2)[1] == v@[1]);
        }
    }
    r
}

/// Whether `v` starts with `--name`.
fn opt_prefix_match(v: &str, name: &str) -> (b: bool)
    ensures
        b == is_prefix_of(opt_pat(name@), v@),
{
    let nl = name.unicode_len();
    let vl = v.unicode_len();
    if vl < 2 || vl - 2 < nl {
        return false;
    }
    if v.get_char(0) != '-' || v.get_char(1) != '-' {
        proof {
            assert(v@.subrange(0, nl + 2)[0] == v@[0]);
            assert(v@.subrange(0, nl + 2)[1] == v@[1]);
        }
        return false;
    }
    let r = crate::text::pattern_at(v, name, 2);
    proof {
        if r {
            assert(v@.subrange(0, nl + 2) =~= opt_pat(name@)) by {
                assert(v@.subrange(2, 2 + nl as int) == name@);
                assert(forall|j: int| 0 <= j < nl ==> #[trigger] v@.subrange(2, 2 + nl as int)[j] == v@[2 + j]);
            }
        } else {
            assert(!is_prefix_of(opt_pat(name@), v@)) by {
                if is_prefix_of(opt_pat(name@), v@) {
                    assert forall|j: int| 0 <= j < nl implies v@.subrange(
                        2,
                        2 + nl as int,
                    )[j] == name@[j] by {
                        assert(v@.subrange(0, nl + 2 as int)[j + 2] == v@[j + 2]);
                        assert(opt_pat(name@)[j + 2] == name@[j]);
                    }
                    assert(v@.subrange(2, 2 + nl as int) =~= name@);
                    assert(occurs_at(v@, name@, 2));
                }
            }
        }
    }
    r
}

/// Returns the positional argument at `index`: the argument there, unless
/// it is missing or written as an option.
pub fn get_argument<'a>(index: usize, args: &'a [String]) -> (r: Option<&'a String>)
    ensures
        match r {
            Some(v) => index < args@.len() && *v == args@[index as int] && !is_option_text(v@),
            None => index >= args@.len() || is_option_text(args@[index as int]@),
        },
{
    if index >= args.len() {
        return None;
    }
    let v = &args[index];
    if is_option_arg(v.as_str()) {
        None
    } else {
        Some(v)
    }
}

/// Returns whether the option `name` occurs in `args`, together with the
/// index of its first occurrence.
pub fn has_option(name: &str, args: &[String]) -> (r: (bool, Option<usize>))
    ensures
        ({
            let m = first_prefixed(args@, opt_pat(name@));
            &&& r.0 == (m != -1)
            &&& r.1 == (if m == -1 {
                None::<usize>
            } else {
                Some(m as usize)
            })
        }),
{
    let n = args.len();
    let mut i: usize = 0;
    while i < n
        invariant
            i <= n,
            n == args@.len(),
            forall|j: int| 0 <= j < i ==> !is_prefix_of(opt_pat(name@), args@[j]@),
        decreases n - i,
    {
        if opt_prefix_match(args[i].as_str(), name) {
            proof {
                lemma_first_prefixed_at(args@, opt_pat(name@), i as int);
            }
            return (true, Some(i));
        }
        i += 1;
    }
    proof {
        lemma_first_prefixed_none(args@, opt_pat(name@));
    }
    (false, None)
}

/// Returns the value of the option `name` and the index it was read
/// from.
///
/// The value of `--name=value` is `value`; the value of `--name` followed
/// by a plain argument is that argument.  When the option is missing, or
/// carries no value in either form, the first component is `None`; the
/// second is then the index of the bare option, or 0 when the option is
/// missing altogether.
pub fn get_option_value<'a>(name: &str, args: &'a [String]) -> (r: (Option<&'a str>, Option<usize>))
    ensures
        ({
            let m = first_prefixed(args@, opt_pat(name@));
            if m == -1 {
                r.0 is None && r.1 == Some(0usize)
            } else if is_prefix_of(opt_eq_pat(name@), args@[m]@) {
                &&& r.0 matches Some(v) && v@ == args@[m]@.skip(opt_eq_pat(name@).len() as int)
                &&& r.1 == Some(m as usize)
            } else if m + 1 < args@.len() && !is_option_text(args@[m + 1]@) {
                &&& r.0 matches Some(v) && v@ == args@[m + 1]@
                &&& r.1 == Some((m + 1) as usize)
            } else {
                r.0 is None && r.1 == Some(m as usize)
            }
        }),
{
    let n = args.len();
    let nl = name.unicode_len();
    let mut i: usize = 0;
    while i < n
        invariant
            i <= n,
            n == args@.len(),
            nl == name@.len(),
            forall|j: int| 0 <= j < i ==> !is_prefix_of(opt_pat(name@), args@[j]@),
        decreases n - i,
    {
        let v = &args[i];
        if opt_prefix_match(v.as_str(), name) {
            proof {
                lemma_first_prefixed_at(args@, opt_pat(name@), i as int);
            }
            let vl = v.as_str().unicode_len();
            if vl > nl + 2 && v.as_str().get_char(nl + 2) == '=' {
                proof {
                    assert(v@.subrange(0, nl + 3) =~= opt_eq_pat(name@)) by {
                        assert(forall|j: int| 0 <= j < nl + 2 ==> #[trigger] v@.subrange(
                            0,
                            nl + 2,
                        )[j] == v@[j]);
                    }
                }
                let value = v.as_str().substring_char(nl + 3, vl);
                proof {
                    assert(value@ =~= args@[i as int]@.skip(opt_eq_pat(name@).len() as int));
                }
                return (Some(value), Some(i));
            }
            proof {
                if is_prefix_of(opt_eq_pat(name@), v@) {
                    assert(v@[nl + 2] == opt_eq_pat(name@)[nl + 2]) by {
                        assert(v@.subrange(0, nl + 3)[nl + 2] == v@[nl + 2]);
                    }
                    assert(false);
                }
            }
            if i + 1 < n {
                let w = &args[i + 1];
                if !is_option_arg(w.as_str()) {
                    return (Some(w.as_str()), Some(i + 1));
                }
            }
            return (None, Some(i));
        }
        i += 1;
    }
    proof {
        lemma_first_prefixed_none(args@, opt_pat(name@));
    }
    (None, Some(0))
}

} // verus!
