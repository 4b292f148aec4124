//! The variables visible while a template runs: its parameters and a stack of frames.
use vstd::prelude::*;
use crate::tdata::{clone_data, clone_list, datas_v, dict_get, dict_insert, dict_set, entries_v, get_path_from, lemma_datas_v_index, lemma_datas_v_len, v_get_path, TData, TMap, VData};
use crate::template::{path_v, VPart, VarPart};

verus! {

/// How deep templates may call templates (through `run` or a template manager): as deep as a
/// machine word can count, so that every run ends while no real run is cut short.
pub const MAX_DEPTH: usize = usize::MAX;

/// The model of a [`Scope`].
pub struct ScopeV {
    pub params: Seq<VData>,
    pub frames: Seq<Seq<(Seq<char>, VData)>>,
    pub depth: nat,
}

/// The value bound to a name in the innermost frame that has it.
pub open spec fn frames_lookup(frames: Seq<Seq<(Seq<char>, VData)>>, k: Seq<char>) -> Option<VData>
    decreases frames.len(),
{
    if frames.len() == 0 {
        None
    } else {
        match dict_get(frames.last(), k) {
            Some(v) => Some(v),
            None => frames_lookup(frames.drop_last(), k),
        }
    }
}

/// The value a variable path names: `$n...` starts at parameter `n`, `$name...` at the innermost
/// binding of `name`.
pub open spec fn scope_get(sc: ScopeV, p: Seq<VPart>) -> Option<VData> {
    if p.len() == 0 {
        None
    } else {
        match p[0] {
            VPart::Num(n) => if n < sc.params.len() {
                v_get_path(sc.params[n as int], p.drop_first())
            } else {
                None
            },
            VPart::Id(s) => match frames_lookup(sc.frames, s) {
                Some(base) => v_get_path(base, p.drop_first()),
                None => None,
            },
        }
    }
}

/// The scope after binding `k` to `v` in the innermost frame.
pub open spec fn scope_set(sc: ScopeV, k: Seq<char>, v: VData) -> ScopeV {
    ScopeV {
        frames: sc.frames.update(sc.frames.len() - 1, dict_insert(sc.frames.last(), k, v)),
        ..sc
    }
}

/// The scope after binding `k` to `v` in the outermost frame.
pub open spec fn scope_set_root(sc: ScopeV, k: Seq<char>, v: VData) -> ScopeV {
    ScopeV { frames: sc.frames.update(0, dict_insert(sc.frames[0], k, v)), ..sc }
}

/// The scope with a new empty innermost frame.
pub open spec fn scope_push(sc: ScopeV) -> ScopeV {
    ScopeV { frames: sc.frames.push(seq![]), ..sc }
}

/// The scope without its innermost frame; the outermost frame is never removed.
pub open spec fn scope_pop(sc: ScopeV) -> ScopeV {
    if sc.frames.len() > 1 {
        ScopeV { frames: sc.frames.drop_last(), ..sc }
    } else {
        sc
    }
}

/// A fresh scope over the given parameters, at the given remaining call depth.
pub open spec fn scope_new(params: Seq<VData>, depth: nat) -> ScopeV {
    ScopeV { params, frames: seq![seq![]], depth }
}

/// Parameters and a stack of variable frames (the outermost frame holds the exports).
#[derive(Debug)]
pub struct Scope {
    params: Vec<TData>,
    maps: Vec<TMap>,
    depth: usize,
}

impl View for Scope {
    type V = ScopeV;

    closed spec fn view(&self) -> ScopeV {
        ScopeV {
            params: datas_v(self.params@),
            frames: self.maps@.map_values(|m: TMap| entries_v(m@)),
            depth: self.depth as nat,
        }
    }
}

impl Scope {
    /// Whether the scope has at least one frame.
    pub open spec fn wf(&self) -> bool {
        self@.frames.len() > 0
    }

    /// A scope over the given parameters, with one empty frame.
    pub fn new(params: &[TData]) -> (r: Scope)
        ensures
            r.wf(),
            r@ == scope_new(datas_v(params@), MAX_DEPTH as nat),
    {
        Scope::new_at_depth(params, MAX_DEPTH)
    }

    /// A scope over the given parameters, allowing `depth` more nested template calls.
    pub(crate) fn new_at_depth(params: &[TData], depth: usize) -> (r: Scope)
        ensures
            r.wf(),
            r@ == scope_new(datas_v(params@), depth as nat),
    {
        let mut ps: Vec<TData> = Vec::new();
        proof { lemma_datas_v_len(params@); }
        for i in 0..params.len()
            invariant
                datas_v(ps@) == datas_v(params@.take(i as int)),
        {
            let d = clone_data(&params[i]);
            proof {
                crate::tdata::lemma_datas_v_push(ps@, d);
                crate::tdata::lemma_datas_v_push(params@.take(i as int), params@[i as int]);
                assert(params@.take(i + 1) == params@.take(i as int).push(params@[i as int]));
            }
            ps.push(d);
        }
        assert(params@.take(params@.len() as int) == params@);
        let mut maps: Vec<TMap> = Vec::new();
        maps.push(Vec::new());
        let r = Scope { params: ps, maps, depth };
        assert(r@.frames =~= seq![seq![]]);
        r
    }

    /// How many more nested template calls are allowed.
    pub fn depth(&self) -> (r: usize)
        ensures
            r as nat == self@.depth,
    {
        self.depth
    }

    /// The outermost frame: the exported variables.
    pub fn top(self) -> (r: TMap)
        requires
            self.wf(),
        ensures
            entries_v(r@) == self@.frames[0],
    {
        let mut maps = self.maps;
        let ghost m0 = maps@;
        let r = maps.swap_remove(0);
        r
    }

    /// A copy of the value a variable path names.
    pub fn get(&self, v: &[VarPart]) -> (r: Option<TData>)
        ensures
            match scope_get(self@, path_v(v@)) {
                Some(x) => r matches Some(y) && y@ == x,
                None => r is None,
            },
    {
        if v.len() == 0 {
            return None;
        }
        assert(path_v(v@).skip(1) == path_v(v@).drop_first());
        match &v[0] {
            VarPart::Num(n) => {
                proof { lemma_datas_v_len(self.params@); }
                if *n < self.params.len() {
                    proof { lemma_datas_v_index(self.params@, *n as int); }
                    get_path_from(&self.params[*n], v, 1)
                } else {
                    None
                }
            },
            VarPart::Id(s) => {
                let mut i: usize = self.maps.len();
                assert(self@.frames.take(self@.frames.len() as int) == self@.frames);
                while i > 0
                    invariant
                        i <= self.maps@.len(),
                        v@.len() >= 1,
                        v@[0] == VarPart::Id(*s),
                        path_v(v@).skip(1) == path_v(v@).drop_first(),
                        self@.frames.len() == self.maps@.len(),
                        frames_lookup(self@.frames, s@) == frames_lookup(self@.frames.take(i as int), s@),
                    decreases i,
                {
                    let ghost fr = self@.frames.take(i as int);
                    assert(self@.frames[i - 1] == entries_v(self.maps@[i - 1]@));
                    assert(fr.drop_last() == self@.frames.take(i - 1));
                    assert(fr.last() == entries_v(self.maps@[i - 1]@));
                    match crate::tdata::dict_find(&self.maps[i - 1], s.as_str()) {
                        Some(j) => {
                            proof { crate::tdata::lemma_entries_v_index(self.maps@[i - 1]@, j as int); }
                            return get_path_from(&self.maps[i - 1][j].1, v, 1);
                        },
                        None => {},
                    }
                    i = i - 1;
                }
                None
            },
        }
    }

    /// Binds `k` to `v` in the innermost frame.
    pub fn set(&mut self, k: String, v: TData)
        requires
            old(self).wf(),
        ensures
            final(self).wf(),
            final(self)@ == scope_set(old(self)@, k@, v@),
    {
        let p = self.maps.len() - 1;
        let ghost old_maps = self.maps@;
        let mut m: TMap = Vec::new();
        std::mem::swap(&mut m, &mut self.maps[p]);
        dict_set(&mut m, k, v);
        self.maps.set(p, m);
        assert(self@.frames =~= scope_set(old(self)@, k@, v@).frames);
    }

    /// Binds `k` to `v` in the outermost frame.
    pub fn set_root(&mut self, k: String, v: TData)
        requires
            old(self).wf(),
        ensures
            final(self).wf(),
            final(self)@ == scope_set_root(old(self)@, k@, v@),
    {
        let mut m: TMap = Vec::new();
        std::mem::swap(&mut m, &mut self.maps[0]);
        dict_set(&mut m, k, v);
        self.maps.set(0, m);
        assert(self@.frames =~= scope_set_root(old(self)@, k@, v@).frames);
    }

    /// Opens a new empty innermost frame.
    pub fn push(&mut self)
        requires
            old(self).wf(),
        ensures
            final(self).wf(),
            final(self)@ == scope_push(old(self)@),
    {
        self.maps.push(Vec::new());
        assert(self@.frames =~= scope_push(old(self)@).frames);
    }

    /// Closes the innermost frame, unless it is the only one.
    pub fn pop(&mut self)
        requires
            old(self).wf(),
        ensures
            final(self).wf(),
            final(self)@ == scope_pop(old(self)@),
    {
        if self.maps.len() > 1 {
            self.maps.pop();
            assert(self@.frames =~= scope_pop(old(self)@).frames);
        }
    }
}

} // verus!

verus! {

/// A name bound in the innermost frame is what a lookup of that name gives.
pub proof fn law_get_after_set(sc: ScopeV, k: Seq<char>, v: VData)
    requires
        sc.frames.len() > 0,
    ensures
        scope_get(scope_set(sc, k, v), seq![VPart::Id(k)]) == Some(v),
{
    let sc2 = scope_set(sc, k, v);
    crate::tdata::lemma_dict_insert_same(sc.frames.last(), k, v);
    assert(sc2.frames.last() == dict_insert(sc.frames.last(), k, v));
    assert(seq![VPart::Id(k)].drop_first() =~= Seq::<VPart>::empty());
}

/// Binding one name leaves the lookup of every path that starts at another name unchanged.
pub proof fn law_set_keeps_others(sc: ScopeV, k: Seq<char>, v: VData, j: Seq<char>, rest: Seq<VPart>)
    requires
        sc.frames.len() > 0,
        j != k,
    ensures
        scope_get(scope_set(sc, k, v), seq![VPart::Id(j)] + rest) == scope_get(sc, seq![VPart::Id(j)] + rest),
{
    let sc2 = scope_set(sc, k, v);
    crate::tdata::lemma_dict_insert_other(sc.frames.last(), k, v, j);
    assert(sc2.frames.drop_last() == sc.frames.drop_last());
    assert((seq![VPart::Id(j)] + rest)[0] == VPart::Id(j));
}

/// Closing a frame right after opening it gives back the scope.
pub proof fn law_pop_undoes_push(sc: ScopeV)
    requires
        sc.frames.len() > 0,
    ensures
        scope_pop(scope_push(sc)) == sc,
{
    assert(sc.frames.push(seq![]).drop_last() =~= sc.frames);
}

/// A binding made in a frame is gone once the frame is closed.
pub proof fn law_block_binding_dropped(sc: ScopeV, k: Seq<char>, v: VData)
    requires
        sc.frames.len() > 0,
    ensures
        scope_pop(scope_set(scope_push(sc), k, v)) == sc,
{
    let s1 = scope_push(sc);
    let s2 = scope_set(s1, k, v);
    assert(s2.frames.drop_last() =~= sc.frames);
}

/// An export made inside a frame outlives the frame.
pub proof fn law_export_survives_block(sc: ScopeV, k: Seq<char>, v: VData)
    requires
        sc.frames.len() > 0,
    ensures
        scope_pop(scope_set_root(scope_push(sc), k, v)) == scope_set_root(sc, k, v),
{
    let s1 = scope_push(sc);
    let s2 = scope_set_root(s1, k, v);
    assert(s2.frames.drop_last() =~= scope_set_root(sc, k, v).frames);
}

/// Opening a frame hides nothing: every lookup gives what it gave before.
pub proof fn law_push_keeps_lookups(sc: ScopeV, p: Seq<VPart>)
    ensures
        scope_get(scope_push(sc), p) == scope_get(sc, p),
{
    let s1 = scope_push(sc);
    if p.len() > 0 {
        if let VPart::Id(s) = p[0] {
            assert(s1.frames.drop_last() == sc.frames);
            assert(dict_get(s1.frames.last(), s) is None) by {
                assert(s1.frames.last().len() == 0);
            }
        }
    }
}

} // verus!
