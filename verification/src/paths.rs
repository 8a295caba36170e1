//! Unix path joining as the tools use it: relative paths are resolved
//! against a working directory, absolute ones are kept.
use vstd::prelude::*;

verus! {

/// A path that starts at the root (`Path::is_absolute` on Unix).
pub open spec fn is_absolute_path(p: Seq<char>) -> bool {
    p.len() > 0 && p[0] == '/'
}

/// `base` joined with `p` (`Path::join` on Unix): an absolute `p` replaces
/// `base`; otherwise a separator is put between them unless `base` is empty
/// or already ends in one.
pub open spec fn join_path(base: Seq<char>, p: Seq<char>) -> Seq<char> {
    if is_absolute_path(p) {
        p
    } else if base.len() > 0 && base.last() != '/' {
        base + seq!['/'] + p
    } else {
        base + p
    }
}

/// Whether `p` starts at the root.
pub fn is_absolute(p: &str) -> (r: bool)
    ensures
        r == is_absolute_path(p@),
{
    let first = p.chars().next();
    proof {
        broadcast use vstd::string::group_string_axioms;
    }
    match first {
        Some(c) => c == '/',
        None => false,
    }
}

/// `base` joined with `p`.
pub fn join(base: &str, p: &str) -> (r: String)
    ensures
        r@ == join_path(base@, p@),
{
    if is_absolute(p) {
        return p.to_owned();
    }
    let mut out = base.to_owned();
    let last = last_char(base);
    match last {
        Some(c) => {
            if c != '/' {
                out.append("/");
                proof {
                    reveal_strlit("/");
                }
                assert("/"@ =~= seq!['/']);
            }
        },
        None => {},
    }
    out.append(p);
    out
}

/// The last character of `s`, if any.
pub fn last_char(s: &str) -> (r: Option<char>)
    ensures
        r == (if s@.len() > 0 {
            Some(s@.last())
        } else {
            None::<char>
        }),
{
    let n = s.unicode_len();
    if n == 0 {
        None
    } else {
        Some(s.get_char(n - 1))
    }
}

/// Joining keeps an absolute path as it is and puts a relative one after
/// `base`, with one `/` between them unless `base` is empty or already
/// ends in one: the result starts with `base`, ends with `p`, and holds
/// nothing else.
pub proof fn lemma_join_places_path_under_base(base: Seq<char>, p: Seq<char>)
    ensures
        is_absolute_path(p) ==> join_path(base, p) == p,
        !is_absolute_path(p) ==> {
            let r = join_path(base, p);
            &&& r.take(base.len() as int) == base
            &&& r.skip(r.len() - p.len()) == p
            &&& (base.len() > 0 && base.last() != '/') ==> r.len() == base.len() + 1 + p.len()
                && r[base.len() as int] == '/'
            &&& (base.len() == 0 || base.last() == '/') ==> r.len() == base.len() + p.len()
        },
{
    if !is_absolute_path(p) {
        let r = join_path(base, p);
        if base.len() > 0 && base.last() != '/' {
            assert(r.take(base.len() as int) =~= base);
            assert(r.skip(r.len() - p.len()) =~= p);
        } else {
            assert(r.take(base.len() as int) =~= base);
            assert(r.skip(r.len() - p.len()) =~= p);
        }
    }
}

} // verus!
