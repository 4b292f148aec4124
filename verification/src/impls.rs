//! Folding a list with a step that may fail.
use vstd::prelude::*;
use vstd::pervasive::cloned;
use crate::err::{ea_str, Error};

verus! {

/// Whether folding the first `n` elements can give `x`: a copy of the first element, then the
/// step applied to the value so far and each later element in turn.
pub open spec fn fold_reaches<T: Clone, F: Fn(T, &T) -> Result<T, Error>>(f: F, l: Seq<T>, n: int, x: T) -> bool
    decreases n,
{
    if n <= 1 {
        n == 1 && cloned(l[0], x)
    } else {
        exists|acc: T| fold_reaches(f, l, n - 1, acc) && #[trigger] f.ensures((acc, &l[n - 1]), Ok::<T, Error>(x))
    }
}

/// Folds a list from its first element with a step that may fail; an empty list is an error,
/// and otherwise an error is one that a step gave on the value folded so far.
pub fn fold<T: Clone, F: Fn(T, &T) -> Result<T, Error>>(l: &[T], f: F) -> (r: Result<T, Error>)
    requires
        forall|a: T, b: &T| #[trigger] f.requires((a, b)),
    ensures
        l.len() == 0 ==> (r matches Err(e) && e.msg() == "No arguments given"@),
        r matches Ok(x) ==> fold_reaches(f, l@, l@.len() as int, x),
        r matches Err(e) ==> l.len() == 0 || exists|n: int, acc: T|
            #![trigger fold_reaches(f, l@, n, acc), f.ensures((acc, &l@[n]), Err::<T, Error>(e))]
            1 <= n < l@.len() && fold_reaches(f, l@, n, acc) && f.ensures((acc, &l@[n]), Err::<T, Error>(e)),
{
    if l.len() == 0 {
        return Err(ea_str("No arguments given"));
    }
    let mut res = l[0].clone();
    let mut i: usize = 1;
    while i < l.len()
        invariant
            1 <= i <= l.len(),
            forall|a: T, b: &T| #[trigger] f.requires((a, b)),
            fold_reaches(f, l@, i as int, res),
        decreases l.len() - i,
    {
        let ghost acc = res;
        match f(res, &l[i]) {
            Ok(v) => {
                assert(f.ensures((acc, &l@[i as int]), Ok::<T, Error>(v)));
                assert(fold_reaches(f, l@, i + 1, v)) by {
                    assert(l@[i + 1 - 1] == l@[i as int]);
                    assert(f.ensures((acc, &l@[i + 1 - 1]), Ok::<T, Error>(v)));
                }
                res = v;
            },
            Err(e) => {
                assert(fold_reaches(f, l@, i as int, acc) && f.ensures((acc, &l@[i as int]), Err::<T, Error>(e)));
                return Err(e);
            },
        }
        i = i + 1;
    }
    Ok(res)
}

} // verus!
