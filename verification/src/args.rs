//! Command-line argument splitting.
//!
//! An option is passed as `--name=value`. Given the full argument list,
//! `ArgParser::split` returns the value of the first argument that starts
//! with the requested name and holds exactly one `=`.

use vstd::prelude::*;

verus! {

/// `s` begins with the characters of `p`.
pub open spec fn starts_with(s: Seq<char>, p: Seq<char>) -> bool {
    p.len() <= s.len() && s.subrange(0, p.len() as int) == p
}

/// Position of the first `=` at or after `i`, if any.
pub open spec fn first_eq_from(s: Seq<char>, i: nat) -> Option<nat>
    decreases s.len() - i when i <= s.len()
{
    if i >= s.len() {
        None
    } else if s[i as int] == '=' {
        Some(i)
    } else {
        first_eq_from(s, i + 1)
    }
}

/// The value carried by a single argument: the text after its `=`,
/// provided the argument holds exactly one `=`.
pub open spec fn eq_value(a: Seq<char>) -> Option<Seq<char>> {
    match first_eq_from(a, 0) {
        None => None,
        Some(k) => if forall|j: int| k < j < a.len() ==> a[j] != '=' {
            Some(a.subrange(k as int + 1, a.len() as int))
        } else {
            None
        },
    }
}

/// The value the argument `a` supplies for the option `p`.
pub open spec fn arg_value(a: Seq<char>, p: Seq<char>) -> Option<Seq<char>> {
    if starts_with(a, p) {
        eq_value(a)
    } else {
        None
    }
}

/// The value of the first argument that supplies one for `p`.
pub open spec fn split_spec(args: Seq<Seq<char>>, p: Seq<char>) -> Option<Seq<char>>
    decreases args.len(),
{
    if args.len() == 0 {
        None
    } else if arg_value(args[0], p) is Some {
        arg_value(args[0], p)
    } else {
        split_spec(args.drop_first(), p)
    }
}

fn starts_with_exec(s: &str, p: &str) -> (r: bool)
    ensures
        r == starts_with(s@, p@),
{
    let sn: usize = s.unicode_len();
    let pn: usize = p.unicode_len();
    if pn > sn {
        return false;
    }
    let mut i: usize = 0;
    while i < pn
        invariant
            sn == s@.len(),
            pn == p@.len(),
            pn <= sn,
            i <= pn,
            forall|j: int| 0 <= j < i ==> s@[j] == #[trigger] p@[j],
        decreases pn - i,
    {
        if s.get_char(i) != p.get_char(i) {
            proof {
                assert(s@.subrange(0, pn as int)[i as int] != p@[i as int]);
            }
            return false;
        }
        i = i + 1;
    }
    proof {
        assert(s@.subrange(0, pn as int) =~= p@);
    }
    true
}

fn eq_value_exec(a: &str) -> (r: Option<String>)
    ensures
        r.deep_view() == eq_value(a@),
{
    let n: usize = a.unicode_len();
    let mut i: usize = 0;
    while i < n
        invariant
            n == a@.len(),
            i <= n,
            first_eq_from(a@, 0) == first_eq_from(a@, i as nat),
        decreases n - i,
    {
        if a.get_char(i) == '=' {
            let k: usize = i;
            proof {
                assert(first_eq_from(a@, 0) == Some(k as nat));
            }
            let mut j: usize = k + 1;
            while j < n
                invariant
                    n == a@.len(),
                    k < n,
                    k < j <= n,
                    first_eq_from(a@, 0) == Some(k as nat),
                    forall|m: int| k < m < j ==> a@[m] != '=',
                decreases n - j,
            {
                if a.get_char(j) == '=' {
                    proof {
                        assert(!(forall|m: int| k < m < a@.len() ==> a@[m] != '=')) by {
                            assert(k < j < a@.len() && a@[j as int] == '=');
                        }
                    }
                    return None;
                }
                j = j + 1;
            }
            let v: &str = a.substring_char(k + 1, n);
            return Some(String::from_str(v));
        }
        i = i + 1;
    }
    proof {
        assert(first_eq_from(a@, 0) is None);
    }
    None
}

pub struct ArgParser {}

impl ArgParser {
    /// Scan `args` for the first entry that starts with `param` and has
    /// the shape `name=value`; return that value.
    pub fn split(args: &Vec<String>, param: &str) -> (r: Option<String>)
        ensures
            r.deep_view() == split_spec(args.deep_view(), param@),
    {
        let n: usize = args.len();
        proof {
            assert(args.deep_view().subrange(0, n as int) =~= args.deep_view());
        }
        let mut i: usize = 0;
        while i < n
            invariant
                n == args@.len(),
                i <= n,
                split_spec(args.deep_view(), param@) == split_spec(
                    args.deep_view().subrange(i as int, n as int),
                    param@,
                ),
            decreases n - i,
        {
            let arg: &String = &args[i];
            proof {
                assert(args.deep_view().subrange(i as int, n as int)[0] == arg@);
            }
            if starts_with_exec(arg.as_str(), param) {
                let v: Option<String> = eq_value_exec(arg.as_str());
                if v.is_some() {
                    return v;
                }
            }
            proof {
                assert(args.deep_view().subrange(i as int, n as int).drop_first()
                    =~= args.deep_view().subrange(i as int + 1, n as int));
            }
            i = i + 1;
        }
        proof {
            assert(args.deep_view().subrange(n as int, n as int).len() == 0);
        }
        None
    }
}

} // verus!
