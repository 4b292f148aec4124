//! Functions that build maps.
use vstd::prelude::*;
use crate::err::{ea_str, Error};
use crate::eval::data_agrees;
use crate::funcs::lists::get_s;
use crate::tdata::{lemma_dict_insert_other, lemma_dict_insert_same, dict_get, clone_data, datas_v, dict_insert, dict_set, entries_v, lemma_datas_v_index, lemma_datas_v_len, TData, TMap, VData};

verus! {

/// The map made from the first `2 * n` arguments taken as key-value pairs, when each key is a
/// text.
pub open spec fn pairs_to(a: Seq<VData>, n: int) -> Option<Seq<(Seq<char>, VData)>>
    decreases n,
{
    if n <= 0 {
        Some(seq![])
    } else {
        match pairs_to(a, n - 1) {
            None => None,
            Some(m) => match a[2 * n - 2] {
                VData::String(k) => Some(dict_insert(m, k, a[2 * n - 1])),
                _ => None,
            },
        }
    }
}

/// `map`: the arguments taken as key-value pairs (a last unpaired argument is left out); a key
/// that is not a text is an error, and a repeated key takes the later value.
pub open spec fn map_s(a: Seq<VData>) -> Result<VData, ()> {
    match pairs_to(a, a.len() as int / 2) {
        Some(m) => Ok(VData::Dict(m)),
        None => Err(()),
    }
}

/// A map from the arguments taken as key-value pairs.
pub fn map(args: &[TData]) -> (r: Result<TData, Error>)
    ensures
        data_agrees(r, map_s(datas_v(args@))),
{
    let ghost ls = datas_v(args@);
    proof { lemma_datas_v_len(args@); }
    let mut m: TMap = Vec::new();
    assert(entries_v(m@) =~= Seq::<(Seq<char>, VData)>::empty());
    let n = args.len() / 2;
    let mut i: usize = 0;
    while i < n
        invariant
            i <= n,
            n == args.len() / 2,
            ls == datas_v(args@),
            ls.len() == args.len(),
            pairs_to(ls, i as int) == Some(entries_v(m@)),
        decreases n - i,
    {
        proof {
            lemma_datas_v_index(args@, 2 * i as int);
            lemma_datas_v_index(args@, 2 * i + 1);
        }
        match &args[2 * i] {
            TData::String(k) => {
                dict_set(&mut m, k.clone(), clone_data(&args[2 * i + 1]));
            },
            _ => {
                proof { lemma_pairs_none(ls, i as int + 1, n as int); }
                return Err(ea_str("The first part of each map-pair must be string"));
            },
        }
        i = i + 1;
    }
    Ok(TData::Dict(m))
}

proof fn lemma_pairs_none(a: Seq<VData>, k: int, n: int)
    requires
        1 <= k <= n,
        pairs_to(a, k) is None,
    ensures
        pairs_to(a, n) is None,
    decreases n - k,
{
    if k < n {
        lemma_pairs_none(a, k + 1, n);
    }
}

/// `map` followed by `get` gives back each key's value: with two different keys each gives its
/// own value, a repeated key gives the later value, and a key that is not a text fails.
pub proof fn law_map_then_get(k1: Seq<char>, x: VData, k2: Seq<char>, y: VData, z: VData)
    ensures
        map_s(seq![VData::String(k1), x]) matches Ok(d)
            && get_s(seq![d, VData::String(k1)]) == Ok::<VData, ()>(x),
        k1 != k2 ==> (map_s(seq![VData::String(k1), x, VData::String(k2), y]) matches Ok(d)
            && get_s(seq![d, VData::String(k1)]) == Ok::<VData, ()>(x)
            && get_s(seq![d, VData::String(k2)]) == Ok::<VData, ()>(y)),
        map_s(seq![VData::String(k1), x, VData::String(k1), y]) matches Ok(d)
            && get_s(seq![d, VData::String(k1)]) == Ok::<VData, ()>(y),
        !(z is String) ==> map_s(seq![z, x]) is Err,
{
    let a1 = seq![VData::String(k1), x];
    assert(pairs_to(a1, 0) == Some(Seq::<(Seq<char>, VData)>::empty()));
    assert(a1[0] == VData::String(k1) && a1[1] == x);
    let m1 = dict_insert(Seq::<(Seq<char>, VData)>::empty(), k1, x);
    assert(pairs_to(a1, 1) == Some(m1));
    assert(a1.len() as int / 2 == 1);
    lemma_dict_insert_same(Seq::<(Seq<char>, VData)>::empty(), k1, x);

    let a2 = seq![VData::String(k1), x, VData::String(k2), y];
    assert(pairs_to(a2, 0) == Some(Seq::<(Seq<char>, VData)>::empty()));
    assert(a2[0] == VData::String(k1) && a2[1] == x && a2[2] == VData::String(k2) && a2[3] == y);
    assert(pairs_to(a2, 1) == Some(m1));
    let m2 = dict_insert(m1, k2, y);
    assert(pairs_to(a2, 2) == Some(m2));
    assert(a2.len() as int / 2 == 2);
    lemma_dict_insert_same(m1, k2, y);
    if k1 != k2 {
        lemma_dict_insert_other(m1, k2, y, k1);
    }

    let a3 = seq![VData::String(k1), x, VData::String(k1), y];
    assert(pairs_to(a3, 0) == Some(Seq::<(Seq<char>, VData)>::empty()));
    assert(a3[0] == VData::String(k1) && a3[1] == x && a3[2] == VData::String(k1) && a3[3] == y);
    assert(pairs_to(a3, 1) == Some(m1));
    let m3 = dict_insert(m1, k1, y);
    assert(pairs_to(a3, 2) == Some(m3));
    assert(a3.len() as int / 2 == 2);
    lemma_dict_insert_same(m1, k1, y);

    let a4 = seq![z, x];
    assert(pairs_to(a4, 0) == Some(Seq::<(Seq<char>, VData)>::empty()));
    assert(a4[0] == z);
    assert(a4.len() as int / 2 == 1);
}

} // verus!
