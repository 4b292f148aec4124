//! Template parameters: values that can be looked up by a variable path.
use vstd::prelude::*;
use crate::err::Error;
use crate::tdata::{get_path_from, v_get_path, TData, VData};
use crate::template::{path_v, VPart, VarPart};

verus! {

/// A success holding an owned value.
pub fn b_ok(d: TData) -> (r: Result<TData, Error>)
    ensures
        r matches Ok(x) && x@ == d@,
{
    Ok(d)
}

/// Something a template can read through a variable path such as `$0.name.1`.
pub trait TParam {
    /// What the lookup of a path gives.
    spec fn spec_get_v(&self, p: Seq<VPart>) -> Option<VData>;

    /// A copy of what the path leads to, if anything.
    fn get_v(&self, s: &[VarPart]) -> (r: Option<TData>)
        ensures
            match self.spec_get_v(path_v(s@)) {
                Some(x) => r matches Some(y) && y@ == x,
                None => r is None,
            },
    ;
}

impl TParam for TData {
    open spec fn spec_get_v(&self, p: Seq<VPart>) -> Option<VData> {
        v_get_path(self@, p)
    }

    fn get_v(&self, s: &[VarPart]) -> (r: Option<TData>) {
        assert(path_v(s@).skip(0) == path_v(s@));
        get_path_from(self, s, 0)
    }
}

impl TParam for String {
    /// A string gives itself, whatever the path.
    open spec fn spec_get_v(&self, p: Seq<VPart>) -> Option<VData> {
        Some(VData::String(self@))
    }

    fn get_v(&self, s: &[VarPart]) -> (r: Option<TData>) {
        Some(TData::String(self.clone()))
    }
}

impl<'a> TParam for &'a str {
    /// A text gives itself, whatever the path.
    open spec fn spec_get_v(&self, p: Seq<VPart>) -> Option<VData> {
        Some(VData::String((*self)@))
    }

    fn get_v(&self, s: &[VarPart]) -> (r: Option<TData>) {
        Some(TData::from_text(*self))
    }
}

impl TParam for usize {
    /// A number gives itself, whatever the path.
    open spec fn spec_get_v(&self, p: Seq<VPart>) -> Option<VData> {
        Some(VData::UInt(*self))
    }

    fn get_v(&self, s: &[VarPart]) -> (r: Option<TData>) {
        Some(TData::UInt(*self))
    }
}

impl TParam for bool {
    /// A truth value gives itself, whatever the path.
    open spec fn spec_get_v(&self, p: Seq<VPart>) -> Option<VData> {
        Some(VData::Bool(*self))
    }

    fn get_v(&self, s: &[VarPart]) -> (r: Option<TData>) {
        Some(TData::Bool(*self))
    }
}

impl<'a> TParam for Vec<&'a str> {
    /// The whole list of texts for an empty path, or the text at a position.
    open spec fn spec_get_v(&self, p: Seq<VPart>) -> Option<VData> {
        if p.len() == 0 {
            Some(VData::List(self@.map_values(|t: &str| VData::String(t@))))
        } else {
            match p[0] {
                VPart::Num(n) => if n < self@.len() { Some(VData::String(self@[n as int]@)) } else { None },
                VPart::Id(_) => None,
            }
        }
    }

    fn get_v(&self, s: &[VarPart]) -> (r: Option<TData>) {
        if s.len() == 0 {
            return Some(TData::from_texts(self.as_slice()));
        }
        match &s[0] {
            VarPart::Num(n) => {
                if *n < self.len() {
                    Some(TData::from_text(self[*n]))
                } else {
                    None
                }
            },
            VarPart::Id(_) => None,
        }
    }
}

/// A single named value: the path `name` (and anything below it) gives the value.
#[derive(Debug)]
pub struct KV(pub String, pub TData);

impl TParam for KV {
    open spec fn spec_get_v(&self, p: Seq<VPart>) -> Option<VData> {
        if p.len() == 0 {
            None
        } else {
            match p[0] {
                VPart::Id(k) => if k == self.0@ { Some(self.1@) } else { None },
                VPart::Num(_) => None,
            }
        }
    }

    fn get_v(&self, s: &[VarPart]) -> (r: Option<TData>) {
        if s.len() == 0 {
            return None;
        }
        match &s[0] {
            VarPart::Id(k) => {
                if crate::strs::str_eq(k.as_str(), self.0.as_str()) {
                    Some(crate::tdata::clone_data(&self.1))
                } else {
                    None
                }
            },
            VarPart::Num(_) => None,
        }
    }
}

impl<A: TParam, B: TParam> TParam for (A, B) {
    /// The first member's answer, or else the second's.
    open spec fn spec_get_v(&self, p: Seq<VPart>) -> Option<VData> {
        match self.0.spec_get_v(p) {
            Some(x) => Some(x),
            None => self.1.spec_get_v(p),
        }
    }

    fn get_v(&self, s: &[VarPart]) -> (r: Option<TData>) {
        match self.0.get_v(s) {
            Some(x) => Some(x),
            None => self.1.get_v(s),
        }
    }
}

} // verus!
