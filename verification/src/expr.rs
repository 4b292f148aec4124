//! Patterns that a value can be matched against, capturing parts of it into the scope.
use vstd::prelude::*;
use crate::eval::data_agrees;
use crate::func_man::FuncManager;
use crate::pipeline::{pipe_v, Pipeline, VPipe};
use crate::scope::{scope_pop, scope_push, scope_set, Scope, ScopeV};
use crate::semantics::{at_name, pipe_free, sem_pipe};
use crate::tdata::{clone_data, datas_v, dict_get, dict_lookup, entries_v, lemma_datas_v_index, lemma_datas_v_len, v_eq, TData, VData};
use crate::temp_man::{TempManager, TempsV};

verus! {

/// A pattern: a list of patterns (matched against the first elements of a list), a map of
/// patterns (matched against the values under the keys), a value that must be equal, a
/// pipeline that must give true (with the value bound to `@`), a capture of the value under a
/// name (after an optional test), or anything.
#[derive(Debug, PartialEq)]
pub enum Pattern {
    List(Vec<Pattern>),
    Dict(Vec<(String, Pattern)>),
    Val(TData),
    Filter(Pipeline),
    Capture(String, Option<Box<Pattern>>),
    Any,
}

/// The model of a [`Pattern`].
pub enum VPat {
    List(Seq<VPat>),
    Dict(Seq<(Seq<char>, VPat)>),
    Val(VData),
    Filter(VPipe),
    Capture(Seq<char>, Option<Box<VPat>>),
    Any,
}

/// The model of a pattern.
pub open spec fn pat_v(p: Pattern) -> VPat
    decreases p, 1nat,
{
    match p {
        Pattern::List(l) => VPat::List(pats_v(l@)),
        Pattern::Dict(m) => VPat::Dict(kpats_v(m@)),
        Pattern::Val(d) => VPat::Val(d@),
        Pattern::Filter(f) => VPat::Filter(pipe_v(f)),
        Pattern::Capture(id, None) => VPat::Capture(id@, None),
        Pattern::Capture(id, Some(t)) => VPat::Capture(id@, Some(Box::new(pat_v(*t)))),
        Pattern::Any => VPat::Any,
    }
}

/// The models of a sequence of patterns.
pub open spec fn pats_v(s: Seq<Pattern>) -> Seq<VPat>
    decreases s, 0nat,
{
    if s.len() == 0 {
        seq![]
    } else {
        pats_v(s.subrange(0, s.len() - 1)).push(pat_v(s[s.len() - 1]))
    }
}

/// The models of keyed patterns.
pub open spec fn kpats_v(s: Seq<(String, Pattern)>) -> Seq<(Seq<char>, VPat)>
    decreases s, 0nat,
{
    if s.len() == 0 {
        seq![]
    } else {
        kpats_v(s.subrange(0, s.len() - 1)).push((s[s.len() - 1].0@, pat_v(s[s.len() - 1].1)))
    }
}

impl View for Pattern {
    type V = VPat;

    open spec fn view(&self) -> VPat {
        pat_v(*self)
    }
}

proof fn lemma_pats_v(s: Seq<Pattern>, i: int)
    requires
        0 <= i < s.len(),
    ensures
        pats_v(s).len() == s.len(),
        pats_v(s)[i] == pat_v(s[i]),
    decreases s.len(),
{
    lemma_pats_v_len(s.subrange(0, s.len() - 1));
    if i < s.len() - 1 {
        lemma_pats_v(s.subrange(0, s.len() - 1), i);
    }
}

proof fn lemma_pats_v_len(s: Seq<Pattern>)
    ensures
        pats_v(s).len() == s.len(),
    decreases s.len(),
{
    if s.len() > 0 {
        lemma_pats_v_len(s.subrange(0, s.len() - 1));
    }
}

proof fn lemma_kpats_v(s: Seq<(String, Pattern)>, i: int)
    requires
        0 <= i < s.len(),
    ensures
        kpats_v(s).len() == s.len(),
        kpats_v(s)[i] == (s[i].0@, pat_v(s[i].1)),
    decreases s.len(),
{
    lemma_kpats_v_len(s.subrange(0, s.len() - 1));
    if i < s.len() - 1 {
        lemma_kpats_v(s.subrange(0, s.len() - 1), i);
    }
}

proof fn lemma_kpats_v_len(s: Seq<(String, Pattern)>)
    ensures
        kpats_v(s).len() == s.len(),
    decreases s.len(),
{
    if s.len() > 0 {
        lemma_kpats_v_len(s.subrange(0, s.len() - 1));
    }
}

/// Matching a value against a pattern: whether it matches, and the scope afterwards (captures
/// made before a failure stay).
pub open spec fn sem_match<FM: FuncManager>(fm: FM, tms: TempsV, depth: nat, p: VPat, d: VData, sc: ScopeV) -> (bool, ScopeV)
    decreases p, 0nat,
{
    match p {
        VPat::Any => (true, sc),
        VPat::Val(v) => (v_eq(v, d), sc),
        VPat::List(pl) => match d {
            VData::List(dl) => match_list(fm, tms, depth, pl, dl, 0, sc),
            _ => (false, sc),
        },
        VPat::Dict(mp) => match d {
            VData::Dict(m) => match_map(fm, tms, depth, mp, m, 0, sc),
            _ => (false, sc),
        },
        VPat::Capture(id, Some(t)) => {
            let (b, sc1) = sem_match(fm, tms, depth, *t, d, sc);
            if b { (true, scope_set(sc1, id, d)) } else { (false, sc1) }
        },
        VPat::Capture(id, None) => (true, scope_set(sc, id, d)),
        VPat::Filter(f) => {
            let sc1 = scope_set(scope_push(sc), at_name(), d);
            (sem_pipe(fm, tms, depth, f, sc1) == Ok::<VData, ()>(VData::Bool(true)), scope_pop(sc1))
        },
    }
}

/// Whether matching against a pattern asks no manager anything: each filter in it is a
/// pipeline that asks no manager anything.
pub open spec fn pat_free(p: VPat) -> bool
    decreases p, 0nat,
{
    match p {
        VPat::List(pl) => pats_free(pl, 0),
        VPat::Dict(mp) => kpats_free(mp, 0),
        VPat::Filter(f) => pipe_free(f),
        VPat::Capture(_, Some(t)) => pat_free(*t),
        _ => true,
    }
}

/// Whether the patterns from `i` on ask no manager anything.
pub open spec fn pats_free(pl: Seq<VPat>, i: nat) -> bool
    decreases pl, pl.len() - i,
{
    if i >= pl.len() {
        true
    } else {
        pat_free(pl[i as int]) && pats_free(pl, i + 1)
    }
}

/// Whether the keyed patterns from `i` on ask no manager anything.
pub open spec fn kpats_free(mp: Seq<(Seq<char>, VPat)>, i: nat) -> bool
    decreases mp, mp.len() - i,
{
    if i >= mp.len() {
        true
    } else {
        pat_free(mp[i as int].1) && kpats_free(mp, i + 1)
    }
}

/// Matching list elements from `i` on against the patterns from `i` on; running out of
/// elements first is a failure.
pub open spec fn match_list<FM: FuncManager>(fm: FM, tms: TempsV, depth: nat, pl: Seq<VPat>, dl: Seq<VData>, i: nat, sc: ScopeV) -> (bool, ScopeV)
    decreases pl, pl.len() - i,
{
    if i >= pl.len() {
        (true, sc)
    } else if i >= dl.len() {
        (false, sc)
    } else {
        let (b, sc1) = sem_match(fm, tms, depth, pl[i as int], dl[i as int], sc);
        if !b { (false, sc1) } else { match_list(fm, tms, depth, pl, dl, i + 1, sc1) }
    }
}

/// Matching the values under the keys from `i` on against their patterns; a missing key is a
/// failure.
pub open spec fn match_map<FM: FuncManager>(fm: FM, tms: TempsV, depth: nat, mp: Seq<(Seq<char>, VPat)>, m: Seq<(Seq<char>, VData)>, i: nat, sc: ScopeV) -> (bool, ScopeV)
    decreases mp, mp.len() - i,
{
    if i >= mp.len() {
        (true, sc)
    } else {
        match dict_get(m, mp[i as int].0) {
            None => (false, sc),
            Some(v) => {
                let (b, sc1) = sem_match(fm, tms, depth, mp[i as int].1, v, sc);
                if !b { (false, sc1) } else { match_map(fm, tms, depth, mp, m, i + 1, sc1) }
            },
        }
    }
}

impl Pattern {
    fn match_at<TM: TempManager, FM: FuncManager>(&self, d: &TData, scope: &mut Scope, tm: &mut TM, fm: &FM, depth: usize) -> (r: bool)
        requires
            old(scope).wf(),
        ensures
            final(tm).spec_temps() == old(tm).spec_temps(),
            final(scope).wf(),
            (fm.spec_checked() || pat_free(self@)) ==> ((r, final(scope)@) == sem_match(*fm, old(tm).spec_temps(), depth as nat, self@, d@, old(scope)@)),
        decreases self,
    {
        match self {
            Pattern::Any => true,
            Pattern::Val(v) => v.equals(d),
            Pattern::List(pl) => match d {
                TData::List(dl) => {
                    let ghost tms = tm.spec_temps();
                    let ghost ps = pats_v(pl@);
                    let ghost ds = datas_v(dl@);
                    let ghost sc0 = scope@;
                    proof {
                        lemma_pats_v_len(pl@);
                        lemma_datas_v_len(dl@);
                    }
                    let mut i: usize = 0;
                    while i < pl.len()
                        invariant
                            i <= pl.len(),
                            ps == pats_v(pl@),
                            ps.len() == pl.len(),
                            ds == datas_v(dl@),
                            ds.len() == dl.len(),
                            tms == old(tm).spec_temps(),
                            tm.spec_temps() == tms,
                            sc0 == old(scope)@,
                            scope.wf(),
                            *self == Pattern::List(*pl),
                            *d == TData::List(*dl),
                            pat_free(self@) ==> pats_free(ps, i as nat),
                            (fm.spec_checked() || pat_free(self@)) ==> (match_list(*fm, tms, depth as nat, ps, ds, 0, sc0) == match_list(*fm, tms, depth as nat, ps, ds, i as nat, scope@)),
                        decreases pl.len() - i,
                    {
                        if i >= dl.len() {
                            return false;
                        }
                        proof {
                            lemma_pats_v(pl@, i as int);
                            lemma_datas_v_index(dl@, i as int);
                            assert(decreases_to!(*self => (*self)->List_0));
                            assert(decreases_to!((*self)->List_0 => (*self)->List_0@));
                            assert(decreases_to!((*self)->List_0@ => (*self)->List_0@[i as int]));
                        }
                        if !pl[i].match_at(&dl[i], scope, tm, fm, depth) {
                            return false;
                        }
                        i = i + 1;
                    }
                    true
                },
                _ => false,
            },
            Pattern::Dict(mp) => match d {
                TData::Dict(m) => {
                    let ghost tms = tm.spec_temps();
                    let ghost ps = kpats_v(mp@);
                    let ghost sc0 = scope@;
                    proof { lemma_kpats_v_len(mp@); }
                    let mut i: usize = 0;
                    while i < mp.len()
                        invariant
                            i <= mp.len(),
                            ps == kpats_v(mp@),
                            ps.len() == mp.len(),
                            tms == old(tm).spec_temps(),
                            tm.spec_temps() == tms,
                            sc0 == old(scope)@,
                            scope.wf(),
                            *self == Pattern::Dict(*mp),
                            *d == TData::Dict(*m),
                            pat_free(self@) ==> kpats_free(ps, i as nat),
                            (fm.spec_checked() || pat_free(self@)) ==> (match_map(*fm, tms, depth as nat, ps, entries_v(m@), 0, sc0) == match_map(*fm, tms, depth as nat, ps, entries_v(m@), i as nat, scope@)),
                        decreases mp.len() - i,
                    {
                        proof {
                            lemma_kpats_v(mp@, i as int);
                            assert(decreases_to!(*self => (*self)->Dict_0));
                            assert(decreases_to!((*self)->Dict_0 => (*self)->Dict_0@));
                            assert(decreases_to!((*self)->Dict_0@ => (*self)->Dict_0@[i as int]));
                            assert(decreases_to!((*self)->Dict_0@[i as int] => (*self)->Dict_0@[i as int].1));
                        }
                        match dict_lookup(m, mp[i].0.as_str()) {
                            None => { return false; },
                            Some(v) => {
                                if !mp[i].1.match_at(&v, scope, tm, fm, depth) {
                                    return false;
                                }
                            },
                        }
                        i = i + 1;
                    }
                    true
                },
                _ => false,
            },
            Pattern::Capture(id, Some(test)) => {
                if test.match_at(d, scope, tm, fm, depth) {
                    scope.set(id.clone(), clone_data(d));
                    true
                } else {
                    false
                }
            },
            Pattern::Capture(id, None) => {
                scope.set(id.clone(), clone_data(d));
                true
            },
            Pattern::Filter(f) => {
                scope.push();
                proof {
                    reveal_strlit("@");
                    assert(at_name() =~= "@"@);
                }
                scope.set(crate::strs::string_from("@"), clone_data(d));
                let res = crate::eval::pipe_at(f, scope, tm, fm, depth);
                scope.pop();
                match res {
                    Ok(TData::Bool(true)) => true,
                    _ => false,
                }
            },
        }
    }

    /// Matches a value against the pattern, capturing parts of it into the scope; captures
    /// made before a failure stay.
    pub fn match_data<TM: TempManager, FM: FuncManager>(&self, d: &TData, scope: &mut Scope, tm: &mut TM, fm: &FM) -> (r: bool)
        requires
            old(scope).wf(),
        ensures
            final(tm).spec_temps() == old(tm).spec_temps(),
            final(scope).wf(),
            (fm.spec_checked() || pat_free(self@)) ==> ((r, final(scope)@) == sem_match(*fm, old(tm).spec_temps(), old(scope)@.depth, self@, d@, old(scope)@)),
    {
        let depth = scope.depth();
        self.match_at(d, scope, tm, fm, depth)
    }
}

} // verus!
