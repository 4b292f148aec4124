//! Template managers: where templates find the templates they call by name.
use vstd::prelude::*;
use crate::err::{ea_str, Error};
use crate::template::{clone_template, TreeTemplate, VItem};

verus! {

/// The templates a manager holds, by name.
pub type TempsV = spec_fn(Seq<char>) -> Option<Seq<VItem>>;

/// A store of named templates.
pub trait TempManager {
    /// The template held under each name.
    spec fn spec_temps(&self) -> TempsV;

    /// Offers a template to be stored under a name; a manager may decline to store it, and no
    /// other name changes.
    fn insert_t(&mut self, k: String, t: TreeTemplate)
        ensures
            forall|j: Seq<char>| j != k@ ==> #[trigger] (final(self).spec_temps())(j) == (old(self).spec_temps())(j),
            (final(self).spec_temps())(k@) == Some(t@) || (final(self).spec_temps())(k@) == (old(self).spec_temps())(k@),
    ;

    /// A copy of the template held under a name; a failure when there is none.
    fn get_t(&mut self, k: &str) -> (r: Result<TreeTemplate, Error>)
        ensures
            final(self).spec_temps() == old(self).spec_temps(),
            match (old(self).spec_temps())(k@) {
                Some(t) => r matches Ok(x) && x@ == t,
                None => r is Err,
            },
    ;
}

/// A template manager that holds no templates.
pub struct NoTemplates;

impl TempManager for NoTemplates {
    open spec fn spec_temps(&self) -> TempsV {
        |k: Seq<char>| None
    }

    fn insert_t(&mut self, _k: String, _t: TreeTemplate) {
    }

    fn get_t(&mut self, _k: &str) -> (r: Result<TreeTemplate, Error>)
        ensures
            r matches Err(e) && e.msg() == "No Templates on \"NoTemplates\" type"@,
    {
        Err(ea_str("No Templates on \"NoTemplates\" type"))
    }
}

} // verus!

verus! {

/// The template stored under a name in a list of named templates (the last one stored wins).
pub open spec fn temps_lookup(v: Seq<(Seq<char>, Seq<VItem>)>, k: Seq<char>) -> Option<Seq<VItem>>
    decreases v.len(),
{
    if v.len() == 0 {
        None
    } else if v.last().0 == k {
        Some(v.last().1)
    } else {
        temps_lookup(v.drop_last(), k)
    }
}

/// A template manager holding templates in memory.
pub struct BasicTemps {
    v: Vec<(String, TreeTemplate)>,
}

impl BasicTemps {
    /// The named templates, in the order they were stored.
    pub closed spec fn entries(&self) -> Seq<(Seq<char>, Seq<VItem>)> {
        self.v@.map_values(|e: (String, TreeTemplate)| (e.0@, e.1@))
    }

    /// An empty store.
    pub fn new() -> (r: BasicTemps)
        ensures
            forall|k: Seq<char>| #[trigger] (r.spec_temps())(k) is None,
    {
        let r = BasicTemps { v: Vec::new() };
        assert(r.entries().len() == 0);
        r
    }
}

impl TempManager for BasicTemps {
    closed spec fn spec_temps(&self) -> TempsV {
        |k: Seq<char>| temps_lookup(self.entries(), k)
    }

    /// Stores the template: it is what the name now gives.
    fn insert_t(&mut self, k: String, t: TreeTemplate)
        ensures
            (final(self).spec_temps())(k@) == Some(t@),
    {
        let ghost e0 = self.entries();
        self.v.push((k, t));
        assert(self.entries().drop_last() =~= e0);
    }

    fn get_t(&mut self, k: &str) -> (r: Result<TreeTemplate, Error>)
        ensures
            (old(self).spec_temps())(k@) is None ==> (r matches Err(e) && e.msg() == "Template not found"@),
    {
        let mut i = self.v.len();
        assert(self.entries().take(i as int) == self.entries());
        while i > 0
            invariant
                i <= self.v@.len(),
                self.entries().len() == self.v@.len(),
                temps_lookup(self.entries(), k@) == temps_lookup(self.entries().take(i as int), k@),
            decreases i,
        {
            let ghost pre = self.entries().take(i as int);
            assert(pre.drop_last() == self.entries().take(i - 1));
            if crate::strs::str_eq(self.v[i - 1].0.as_str(), k) {
                return Ok(clone_template(&self.v[i - 1].1));
            }
            i = i - 1;
        }
        Err(ea_str("Template not found"))
    }
}

} // verus!
