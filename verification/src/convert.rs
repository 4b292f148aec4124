//! Values made from plain Rust values.
use vstd::prelude::*;
use vstd::std_specs::convert::FromSpecImpl;
use crate::tdata::{data_v, datas_v, lemma_datas_v_map, TData, VData};

verus! {

impl From<String> for TData {
    fn from(s: String) -> (r: TData) {
        TData::String(s)
    }
}

impl FromSpecImpl<String> for TData {
    open spec fn obeys_from_spec() -> bool {
        true
    }

    open spec fn from_spec(v: String) -> TData {
        TData::String(v)
    }
}

impl From<usize> for TData {
    fn from(u: usize) -> (r: TData) {
        TData::UInt(u)
    }
}

impl FromSpecImpl<usize> for TData {
    open spec fn obeys_from_spec() -> bool {
        true
    }

    open spec fn from_spec(v: usize) -> TData {
        TData::UInt(v)
    }
}

impl TData {
    /// A text value copied from a `str`.
    pub fn from_text(s: &str) -> (r: TData)
        ensures
            r@ == VData::String(s@),
    {
        TData::String(crate::strs::string_from(s))
    }

    /// A list of text values copied from texts.
    pub fn from_texts(v: &[&str]) -> (r: TData)
        ensures
            r@ == VData::List(v@.map_values(|t: &str| VData::String(t@))),
    {
        let mut out: Vec<TData> = Vec::new();
        let mut i: usize = 0;
        while i < v.len()
            invariant
                i <= v.len(),
                out@.len() == i,
                forall|j: int| 0 <= j < i ==> #[trigger] data_v(out@[j]) == VData::String(v@[j]@),
            decreases v.len() - i,
        {
            out.push(TData::from_text(v[i]));
            i = i + 1;
        }
        proof {
            lemma_datas_v_map(out@);
            assert(datas_v(out@) =~= v@.map_values(|t: &str| VData::String(t@)));
        }
        TData::List(out)
    }

    /// A list of text values copied from strings.
    pub fn from_strings(v: &[String]) -> (r: TData)
        ensures
            r@ == VData::List(v@.map_values(|t: String| VData::String(t@))),
    {
        let mut out: Vec<TData> = Vec::new();
        let mut i: usize = 0;
        while i < v.len()
            invariant
                i <= v.len(),
                out@.len() == i,
                forall|j: int| 0 <= j < i ==> #[trigger] data_v(out@[j]) == VData::String(v@[j]@),
            decreases v.len() - i,
        {
            out.push(TData::String(v[i].clone()));
            i = i + 1;
        }
        proof {
            lemma_datas_v_map(out@);
            assert(datas_v(out@) =~= v@.map_values(|t: String| VData::String(t@)));
        }
        TData::List(out)
    }
}

} // verus!
