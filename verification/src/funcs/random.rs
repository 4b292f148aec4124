//! Random choices: numbers in a range, or an element of a list.
use vstd::prelude::*;
use crate::err::{ea_str, Error};
use crate::tdata::{clone_data, datas_v, lemma_datas_v_index, lemma_datas_v_len, TData, VData};
use rand::Rng;

verus! {

/// A random unsigned number from `low` up to (not including) `high`
/// (rand's `Rng::gen_range` on the thread generator).
///
/// Claims of rand: the number lies in the range. Which number it is, is chance.
#[verifier::external_body]
fn random_usize(low: usize, high: usize) -> (r: usize)
    requires
        low < high,
    ensures
        low <= r < high,
{
    rand::thread_rng().gen_range(low, high)
}

/// A random signed number from `low` up to (not including) `high`
/// (rand's `Rng::gen_range` on the thread generator).
///
/// Claims of rand: the number lies in the range. Which number it is, is chance.
#[verifier::external_body]
fn random_isize(low: isize, high: isize) -> (r: isize)
    requires
        low < high,
    ensures
        low <= r < high,
{
    rand::thread_rng().gen_range(low, high)
}

/// What a random choice may give for its arguments: with two whole numbers of one kind, a
/// number from the first up to the second; with one (or more than two), a number from zero up
/// to a whole number, or an element of a non-empty list. Anything else (an empty range, floats,
/// no arguments) is an error.
pub open spec fn rand_ok(a: Seq<VData>, x: VData) -> bool {
    if a.len() == 2 {
        match (a[0], a[1], x) {
            (VData::Int(lo), VData::Int(hi), VData::Int(v)) => lo <= v < hi,
            (VData::UInt(lo), VData::UInt(hi), VData::UInt(v)) => lo <= v < hi,
            _ => false,
        }
    } else if a.len() == 0 {
        false
    } else {
        match (a[0], x) {
            (VData::Int(n), VData::Int(v)) => 0 <= v < n,
            (VData::UInt(n), VData::UInt(v)) => v < n,
            (VData::List(l), v) => exists|k: int| 0 <= k < l.len() && l[k] == v,
            _ => false,
        }
    }
}

/// Whether a random choice can be made from the arguments at all.
pub open spec fn rand_possible(a: Seq<VData>) -> bool {
    if a.len() == 2 {
        match (a[0], a[1]) {
            (VData::Int(lo), VData::Int(hi)) => lo < hi,
            (VData::UInt(lo), VData::UInt(hi)) => lo < hi,
            _ => false,
        }
    } else if a.len() == 0 {
        false
    } else {
        match a[0] {
            VData::Int(n) => n > 0,
            VData::UInt(n) => n > 0,
            VData::List(l) => l.len() > 0,
            _ => false,
        }
    }
}

/// A random number in a range, or a random element of a list; floats are left to the
/// embedding program.
pub fn get_rand(args: &[TData]) -> (r: Result<TData, Error>)
    ensures
        r is Ok <==> rand_possible(datas_v(args@)),
        r matches Ok(x) ==> rand_ok(datas_v(args@), x@),
{
    proof { lemma_datas_v_len(args@); }
    if args.len() == 0 {
        return Err(ea_str("Random floats are not made here"));
    }
    proof { lemma_datas_v_index(args@, 0); }
    if args.len() == 2 {
        proof { lemma_datas_v_index(args@, 1); }
        return match (&args[0], &args[1]) {
            (TData::Int(a), TData::Int(b)) => if *a < *b {
                Ok(TData::Int(random_isize(*a, *b)))
            } else {
                Err(ea_str("Could not gen random"))
            },
            (TData::UInt(a), TData::UInt(b)) => if *a < *b {
                Ok(TData::UInt(random_usize(*a, *b)))
            } else {
                Err(ea_str("Could not gen random"))
            },
            _ => Err(ea_str("Could not gen random")),
        };
    }
    match &args[0] {
        TData::Int(n) => if *n > 0 {
            Ok(TData::Int(random_isize(0, *n)))
        } else {
            Err(ea_str("Could not gen random"))
        },
        TData::UInt(n) => if *n > 0 {
            Ok(TData::UInt(random_usize(0, *n)))
        } else {
            Err(ea_str("Could not gen random"))
        },
        TData::List(l) => {
            proof { lemma_datas_v_len(l@); }
            if l.len() == 0 {
                Err(ea_str("Could not select random from empty list"))
            } else {
                let k = random_usize(0, l.len());
                proof { lemma_datas_v_index(l@, k as int); }
                Ok(clone_data(&l[k]))
            }
        },
        _ => Err(ea_str("Could not gen random")),
    }
}

} // verus!
