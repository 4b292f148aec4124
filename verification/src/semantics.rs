//! What running a template means, stated over the models of templates, values and scopes.
use vstd::prelude::*;
use crate::func_man::FuncManager;
use crate::pipeline::VPipe;
use crate::scope::{MAX_DEPTH, scope_get, scope_new, scope_pop, scope_push, scope_set, scope_set_root, ScopeV};
use crate::show::v_display;
use crate::tdata::{v_as_bool, v_as_usize, v_eq, VData};
use crate::temp_man::TempsV;
use crate::template::VItem;

verus! {

/// The size of a pipeline (every node counts one).
pub open spec fn psize(p: VPipe) -> nat
    decreases p, 0nat,
{
    match p {
        VPipe::Command(_, args) => 1 + psizes(args),
        _ => 1,
    }
}

/// The size of a sequence of pipelines: one more than the sum of its members.
pub open spec fn psizes(s: Seq<VPipe>) -> nat
    decreases s, 1nat,
{
    if s.len() == 0 {
        1
    } else {
        psizes(s.subrange(0, s.len() - 1)) + psize(s[s.len() - 1])
    }
}

/// The size of a list of assignments.
pub open spec fn asizes(s: Seq<(Seq<char>, VPipe)>) -> nat
    decreases s.len(),
{
    if s.len() == 0 {
        1
    } else {
        asizes(s.subrange(0, s.len() - 1)) + psize(s[s.len() - 1].1)
    }
}

/// The size of a tree item.
pub open spec fn isize_(it: VItem) -> nat
    decreases it, 0nat,
{
    match it {
        VItem::Pipe(p) => 1 + psize(p),
        VItem::Block { command, params, block } => 1 + psizes(params) + isizes(block),
        VItem::If { cond, yes, no } => 1 + psize(cond) + isizes(yes) + match no {
            Some(n) => isizes(n),
            None => 0,
        },
        VItem::For { k, v, p, b } => 1 + psize(p) + isizes(b),
        VItem::Define(_, b) => 1 + isizes(b),
        VItem::Let(a) => 1 + asizes(a),
        VItem::Export(a) => 1 + asizes(a),
        VItem::AtLet(_, b) => 1 + isizes(b),
        VItem::AtExport(_, b) => 1 + isizes(b),
        _ => 1,
    }
}

/// The size of a sequence of items: one more than the sum of its members.
pub open spec fn isizes(s: Seq<VItem>) -> nat
    decreases s, 1nat,
{
    if s.len() == 0 {
        1
    } else {
        isizes(s.subrange(0, s.len() - 1)) + isize_(s[s.len() - 1])
    }
}

/// Every size is at least one.
pub proof fn lemma_sizes_pos(ps: Seq<VPipe>, its: Seq<VItem>, asg: Seq<(Seq<char>, VPipe)>)
    ensures
        psizes(ps) >= 1,
        isizes(its) >= 1,
        asizes(asg) >= 1,
{
    if ps.len() > 0 {
        assert(psize(ps[ps.len() - 1]) >= 1);
    }
    if its.len() > 0 {
        assert(isize_(its[its.len() - 1]) >= 1);
    }
    if asg.len() > 0 {
        assert(psize(asg[asg.len() - 1].1) >= 1);
    }
}

pub proof fn lemma_psizes(s: Seq<VPipe>, i: int)
    requires
        0 <= i < s.len(),
    ensures
        psize(s[i]) < psizes(s),
        psizes(s.subrange(0, i)) < psizes(s),
    decreases s.len(),
{
    let pre = s.subrange(0, s.len() - 1);
    lemma_sizes_pos(pre, seq![], seq![]);
    assert(psize(s[s.len() - 1]) >= 1);
    if i < s.len() - 1 {
        lemma_psizes(pre, i);
        assert(s.subrange(0, s.len() - 1)[i] == s[i]);
        assert(s.subrange(0, s.len() - 1).subrange(0, i) == s.subrange(0, i));
    }
}

pub proof fn lemma_isizes(s: Seq<VItem>, i: int)
    requires
        0 <= i < s.len(),
    ensures
        isize_(s[i]) < isizes(s),
        isizes(s.subrange(0, i)) < isizes(s),
    decreases s.len(),
{
    let pre = s.subrange(0, s.len() - 1);
    lemma_sizes_pos(seq![], pre, seq![]);
    assert(isize_(s[s.len() - 1]) >= 1);
    if i < s.len() - 1 {
        lemma_isizes(pre, i);
        assert(s.subrange(0, s.len() - 1)[i] == s[i]);
        assert(s.subrange(0, s.len() - 1).subrange(0, i) == s.subrange(0, i));
    }
}

pub proof fn lemma_asizes(s: Seq<(Seq<char>, VPipe)>, i: int)
    requires
        0 <= i < s.len(),
    ensures
        psize(s[i].1) < asizes(s),
        asizes(s.subrange(0, i)) < asizes(s),
    decreases s.len(),
{
    let pre = s.subrange(0, s.len() - 1);
    lemma_sizes_pos(seq![], seq![], pre);
    assert(psize(s[s.len() - 1].1) >= 1);
    if i < s.len() - 1 {
        lemma_asizes(pre, i);
        assert(s.subrange(0, s.len() - 1)[i] == s[i]);
        assert(s.subrange(0, s.len() - 1).subrange(0, i) == s.subrange(0, i));
    }
}

/// The text `run`.
pub open spec fn run_name() -> Seq<char> {
    seq!['r', 'u', 'n']
}

/// The text `first`.
pub open spec fn first_name() -> Seq<char> {
    seq!['f', 'i', 'r', 's', 't']
}

/// The text `select`.
pub open spec fn select_name() -> Seq<char> {
    seq!['s', 'e', 'l', 'e', 'c', 't']
}

/// Whether a pipeline asks no function manager and no template manager anything: it is a
/// literal, a variable, or `first` or `select` over such pipelines.
pub open spec fn pipe_free(p: VPipe) -> bool
    decreases p, 0nat,
{
    match p {
        VPipe::Command(c, args) => (c == first_name() || c == select_name()) && pipes_free(args),
        _ => true,
    }
}

/// Whether every pipeline of a sequence asks no manager anything.
pub open spec fn pipes_free(s: Seq<VPipe>) -> bool
    decreases s, 1nat,
{
    if s.len() == 0 {
        true
    } else {
        pipes_free(s.subrange(0, s.len() - 1)) && pipe_free(s[s.len() - 1])
    }
}

/// Whether every assigned pipeline asks no manager anything.
pub open spec fn assigns_free(s: Seq<(Seq<char>, VPipe)>) -> bool
    decreases s.len(),
{
    if s.len() == 0 {
        true
    } else {
        assigns_free(s.subrange(0, s.len() - 1)) && pipe_free(s[s.len() - 1].1)
    }
}

/// Whether running an item asks no manager anything: it holds no block command and no
/// pipeline that calls a function or a template (defining a template runs nothing).
pub open spec fn item_free(it: VItem) -> bool
    decreases it, 0nat,
{
    match it {
        VItem::String(_) => true,
        VItem::Comment => true,
        VItem::Pipe(p) => pipe_free(p),
        VItem::Block { .. } => false,
        VItem::If { cond, yes, no } => pipe_free(cond) && items_free(yes) && match no {
            Some(n) => items_free(n),
            None => true,
        },
        VItem::For { k, v, p, b } => pipe_free(p) && items_free(b),
        VItem::Define(_, _) => true,
        VItem::Let(a) => assigns_free(a),
        VItem::Export(a) => assigns_free(a),
        VItem::AtLet(_, b) => items_free(b),
        VItem::AtExport(_, b) => items_free(b),
    }
}

/// Whether running every item of a sequence asks no manager anything.
pub open spec fn items_free(s: Seq<VItem>) -> bool
    decreases s, 1nat,
{
    if s.len() == 0 {
        true
    } else {
        items_free(s.subrange(0, s.len() - 1)) && item_free(s[s.len() - 1])
    }
}

pub proof fn lemma_pipes_free(s: Seq<VPipe>, i: int)
    requires
        0 <= i < s.len(),
        pipes_free(s),
    ensures
        pipe_free(s[i]),
        pipes_free(s.subrange(0, i)),
    decreases s.len(),
{
    if i < s.len() - 1 {
        lemma_pipes_free(s.subrange(0, s.len() - 1), i);
        assert(s.subrange(0, s.len() - 1)[i] == s[i]);
        assert(s.subrange(0, s.len() - 1).subrange(0, i) == s.subrange(0, i));
    }
}

pub proof fn lemma_items_free(s: Seq<VItem>, i: int)
    requires
        0 <= i < s.len(),
        items_free(s),
    ensures
        item_free(s[i]),
        items_free(s.subrange(0, i)),
    decreases s.len(),
{
    if i < s.len() - 1 {
        lemma_items_free(s.subrange(0, s.len() - 1), i);
        assert(s.subrange(0, s.len() - 1)[i] == s[i]);
        assert(s.subrange(0, s.len() - 1).subrange(0, i) == s.subrange(0, i));
    }
}

pub proof fn lemma_assigns_free(s: Seq<(Seq<char>, VPipe)>, i: int)
    requires
        0 <= i < s.len(),
        assigns_free(s),
    ensures
        pipe_free(s[i].1),
        assigns_free(s.subrange(0, i)),
    decreases s.len(),
{
    if i < s.len() - 1 {
        lemma_assigns_free(s.subrange(0, s.len() - 1), i);
        assert(s.subrange(0, s.len() - 1)[i] == s[i]);
        assert(s.subrange(0, s.len() - 1).subrange(0, i) == s.subrange(0, i));
    }
}

/// The value of a pipeline in a scope. Pipelines read the scope and never change it.
pub open spec fn sem_pipe<FM: FuncManager>(fm: FM, tms: TempsV, depth: nat, p: VPipe, sc: ScopeV) -> Result<VData, ()>
    decreases depth, psize(p), 1nat, 0nat,
{
    match p {
        VPipe::Lit(v) => Ok(v),
        VPipe::Var(path) => match scope_get(sc, path) {
            Some(x) => Ok(x),
            None => Err(()),
        },
        VPipe::Command(c, args) => sem_command(fm, tms, depth, c, args, sc),
    }
}

/// The values of argument pipelines, in order; the first failure fails them all.
pub open spec fn sem_pipes<FM: FuncManager>(fm: FM, tms: TempsV, depth: nat, args: Seq<VPipe>, sc: ScopeV) -> Result<Seq<VData>, ()>
    decreases depth, psizes(args), 0nat, 0nat,
{
    if args.len() == 0 {
        Ok(seq![])
    } else {
        proof { lemma_psizes(args, args.len() - 1); }
        match sem_pipes(fm, tms, depth, args.subrange(0, args.len() - 1), sc) {
            Err(()) => Err(()),
            Ok(vs) => match sem_pipe(fm, tms, depth, args[args.len() - 1], sc) {
                Err(()) => Err(()),
                Ok(v) => Ok(vs.push(v)),
            },
        }
    }
}

/// `first`: the first argument (from `i` on) that gives a value other than null, else null.
pub open spec fn sem_first<FM: FuncManager>(fm: FM, tms: TempsV, depth: nat, args: Seq<VPipe>, i: nat, sc: ScopeV) -> Result<VData, ()>
    decreases depth, psizes(args), 1nat, args.len() - i,
{
    if i >= args.len() {
        Ok(VData::Null)
    } else {
        proof { lemma_psizes(args, i as int); }
        match sem_pipe(fm, tms, depth, args[i as int], sc) {
            Ok(x) => if !v_eq(x, VData::Null) {
                Ok(x)
            } else {
                sem_first(fm, tms, depth, args, i + 1, sc)
            },
            Err(()) => sem_first(fm, tms, depth, args, i + 1, sc),
        }
    }
}

/// The position `select` chooses from its test value: a number `n` picks argument `n + 1`,
/// true picks 1 and false picks 2.
pub open spec fn select_index(b: VData) -> Option<int> {
    match v_as_usize(b) {
        Some(n) => Some(n + 1),
        None => match v_as_bool(b) {
            Some(t) => Some(if t { 1int } else { 2int }),
            None => None,
        },
    }
}

/// A command: `run`, `first` and `select` are built in; any other name goes to the function
/// manager, and then to the template manager.
pub open spec fn sem_command<FM: FuncManager>(fm: FM, tms: TempsV, depth: nat, c: Seq<char>, args: Seq<VPipe>, sc: ScopeV) -> Result<VData, ()>
    decreases depth, psizes(args), 2nat, 0nat,
{
    if c == run_name() && sem_pipes(fm, tms, depth, args, sc) is Err {
        Err(())
    } else if c == run_name() && sem_pipes(fm, tms, depth, args, sc)->Ok_0.len() == 0 {
        Err(())
    } else if c == run_name() && sem_pipes(fm, tms, depth, args, sc)->Ok_0[0] is Template {
        let tds = sem_pipes(fm, tms, depth, args, sc)->Ok_0;
        if depth == 0 {
            Err(())
        } else {
            match sem_run(fm, tms, (depth - 1) as nat, tds[0]->Template_0, tds.drop_first()) {
                Ok((s, _)) => Ok(VData::String(s)),
                Err(()) => Err(()),
            }
        }
    } else if c == first_name() {
        sem_first(fm, tms, depth, args, 0, sc)
    } else if c == select_name() {
        if args.len() < 3 {
            Err(())
        } else {
            proof { lemma_psizes(args, 0); }
            match sem_pipe(fm, tms, depth, args[0], sc) {
                Err(()) => Err(()),
                Ok(b) => match select_index(b) {
                    None => Err(()),
                    Some(n) => if n >= args.len() {
                        Err(())
                    } else {
                        proof { lemma_psizes(args, n); }
                        sem_pipe(fm, tms, depth, args[n], sc)
                    },
                },
            }
        }
    } else {
        match sem_pipes(fm, tms, depth, args, sc) {
            Err(()) => Err(()),
            Ok(vs) => sem_values(fm, tms, depth, c, vs),
        }
    }
}

/// Calling a name on values: the function manager's function, or else the template manager's
/// template run with the values as parameters (its text is the result).
pub open spec fn sem_values<FM: FuncManager>(fm: FM, tms: TempsV, depth: nat, c: Seq<char>, vs: Seq<VData>) -> Result<VData, ()>
    decreases depth, 0nat, 0nat, 0nat,
{
    match fm.spec_call(c, vs) {
        Some(r) => r,
        None => match tms(c) {
            Some(t) => if depth == 0 {
                Err(())
            } else {
                match sem_run(fm, tms, (depth - 1) as nat, t, vs) {
                    Ok((s, _)) => Ok(VData::String(s)),
                    Err(()) => Err(()),
                }
            },
            None => Err(()),
        },
    }
}

/// Running a template on parameters: its text and its exports.
pub open spec fn sem_run<FM: FuncManager>(fm: FM, tms: TempsV, depth: nat, t: Seq<VItem>, params: Seq<VData>) -> Result<(Seq<char>, Seq<(Seq<char>, VData)>), ()>
    decreases depth, isizes(t), 1nat, 0nat,
{
    let (r, sc) = sem_items(fm, tms, depth, t, scope_new(params, depth));
    match r {
        Ok(s) => Ok((s, sc.frames[0])),
        Err(()) => Err(()),
    }
}

/// Running items in order in a scope: the joined text, and the scope afterwards. On a failure
/// the scope is the one at the failure.
pub open spec fn sem_items<FM: FuncManager>(fm: FM, tms: TempsV, depth: nat, items: Seq<VItem>, sc: ScopeV) -> (Result<Seq<char>, ()>, ScopeV)
    decreases depth, isizes(items), 0nat, 0nat,
{
    if items.len() == 0 {
        (Ok(seq![]), sc)
    } else {
        proof { lemma_isizes(items, items.len() - 1); }
        let (r1, sc1) = sem_items(fm, tms, depth, items.subrange(0, items.len() - 1), sc);
        match r1 {
            Err(()) => (Err(()), sc1),
            Ok(s1) => {
                let (r2, sc2) = sem_item(fm, tms, depth, items[items.len() - 1], sc1);
                match r2 {
                    Err(()) => (Err(()), sc2),
                    Ok(s2) => (Ok(s1 + s2), sc2),
                }
            },
        }
    }
}

/// Running a block: the items in a new frame, which is closed afterwards when they succeed.
pub open spec fn sem_block<FM: FuncManager>(fm: FM, tms: TempsV, depth: nat, b: Seq<VItem>, sc: ScopeV) -> (Result<Seq<char>, ()>, ScopeV)
    decreases depth, isizes(b), 1nat, 0nat,
{
    let (r, sc1) = sem_items(fm, tms, depth, b, scope_push(sc));
    match r {
        Ok(s) => (Ok(s), scope_pop(sc1)),
        Err(()) => (Err(()), sc1),
    }
}

/// Assignments in order, each binding its name to its pipeline's value, in the innermost frame
/// (or the outermost one for exports).
pub open spec fn sem_assigns<FM: FuncManager>(fm: FM, tms: TempsV, depth: nat, a: Seq<(Seq<char>, VPipe)>, root: bool, sc: ScopeV) -> (Result<Seq<char>, ()>, ScopeV)
    decreases depth, asizes(a), 0nat, 0nat,
{
    if a.len() == 0 {
        (Ok(seq![]), sc)
    } else {
        proof { lemma_asizes(a, a.len() - 1); }
        let (r1, sc1) = sem_assigns(fm, tms, depth, a.subrange(0, a.len() - 1), root, sc);
        match r1 {
            Err(()) => (Err(()), sc1),
            Ok(_) => match sem_pipe(fm, tms, depth, a[a.len() - 1].1, sc1) {
                Err(()) => (Err(()), sc1),
                Ok(x) => (Ok(seq![]), if root {
                    scope_set_root(sc1, a[a.len() - 1].0, x)
                } else {
                    scope_set(sc1, a[a.len() - 1].0, x)
                }),
            },
        }
    }
}

/// A loop over list elements from `i` on: `k` bound to the index and `v` to the element, then the
/// body run as a block.
pub open spec fn sem_for_list<FM: FuncManager>(fm: FM, tms: TempsV, depth: nat, k: Seq<char>, v: Seq<char>, l: Seq<VData>, i: nat, b: Seq<VItem>, sc: ScopeV) -> (Result<Seq<char>, ()>, ScopeV)
    decreases depth, isizes(b), 2nat, l.len() - i,
{
    if i >= l.len() {
        (Ok(seq![]), sc)
    } else {
        let sc1 = scope_set(scope_set(sc, k, VData::UInt(i as usize)), v, l[i as int]);
        let (r1, sc2) = sem_block(fm, tms, depth, b, sc1);
        match r1 {
            Err(()) => (Err(()), sc2),
            Ok(s1) => {
                let (r2, sc3) = sem_for_list(fm, tms, depth, k, v, l, i + 1, b, sc2);
                match r2 {
                    Err(()) => (Err(()), sc3),
                    Ok(s2) => (Ok(s1 + s2), sc3),
                }
            },
        }
    }
}

/// A loop over map entries from `i` on: `k` bound to the key and `v` to the value.
pub open spec fn sem_for_dict<FM: FuncManager>(fm: FM, tms: TempsV, depth: nat, k: Seq<char>, v: Seq<char>, m: Seq<(Seq<char>, VData)>, i: nat, b: Seq<VItem>, sc: ScopeV) -> (Result<Seq<char>, ()>, ScopeV)
    decreases depth, isizes(b), 2nat, m.len() - i,
{
    if i >= m.len() {
        (Ok(seq![]), sc)
    } else {
        let sc1 = scope_set(scope_set(sc, k, VData::String(m[i as int].0)), v, m[i as int].1);
        let (r1, sc2) = sem_block(fm, tms, depth, b, sc1);
        match r1 {
            Err(()) => (Err(()), sc2),
            Ok(s1) => {
                let (r2, sc3) = sem_for_dict(fm, tms, depth, k, v, m, i + 1, b, sc2);
                match r2 {
                    Err(()) => (Err(()), sc3),
                    Ok(s2) => (Ok(s1 + s2), sc3),
                }
            },
        }
    }
}

/// The text `@`.
pub open spec fn at_name() -> Seq<char> {
    seq!['@']
}

/// Running one tree item: its text and the scope afterwards.
pub open spec fn sem_item<FM: FuncManager>(fm: FM, tms: TempsV, depth: nat, it: VItem, sc: ScopeV) -> (Result<Seq<char>, ()>, ScopeV)
    decreases depth, isize_(it), 3nat, 0nat,
{
    match it {
        VItem::String(s) => (Ok(s), sc),
        VItem::Comment => (Ok(seq![]), sc),
        VItem::Let(a) => sem_assigns(fm, tms, depth, a, false, sc),
        VItem::Export(a) => sem_assigns(fm, tms, depth, a, true, sc),
        VItem::Pipe(p) => match sem_pipe(fm, tms, depth, p, sc) {
            Ok(x) => (Ok(v_display(x)), sc),
            Err(()) => (Err(()), sc),
        },
        VItem::If { cond, yes, no } => {
            let c = match sem_pipe(fm, tms, depth, cond, sc) {
                Ok(x) => x,
                Err(()) => VData::Null,
            };
            if v_as_bool(c) == Some(true) {
                sem_block(fm, tms, depth, yes, sc)
            } else {
                match no {
                    Some(n) => sem_block(fm, tms, depth, n, sc),
                    None => (Ok(seq![]), sc),
                }
            }
        },
        VItem::For { k, v, p, b } => match sem_pipe(fm, tms, depth, p, sc) {
            Ok(VData::List(l)) => sem_for_list(fm, tms, depth, k, v, l, 0, b, sc),
            Ok(VData::Dict(m)) => sem_for_dict(fm, tms, depth, k, v, m, 0, b, sc),
            _ => (Err(()), sc),
        },
        VItem::Block { command, params, block } => {
            let (r1, sc1) = sem_block(fm, tms, depth, block, sc);
            match r1 {
                Err(()) => (Err(()), sc1),
                Ok(ch) => if params.len() == 0 {
                    match sem_values(fm, tms, depth, command, seq![VData::String(ch)]) {
                        Ok(x) => (Ok(v_display(x)), sc1),
                        Err(()) => (Err(()), sc1),
                    }
                } else {
                    let sc2 = scope_set(sc1, at_name(), VData::String(ch));
                    match sem_pipes(fm, tms, depth, params, sc2) {
                        Err(()) => (Err(()), sc2),
                        Ok(vs) => match sem_values(fm, tms, depth, command, vs) {
                            Ok(x) => (Ok(v_display(x)), sc2),
                            Err(()) => (Err(()), sc2),
                        },
                    }
                },
            }
        },
        VItem::AtLet(name, b) => {
            let (r1, sc1) = sem_block(fm, tms, depth, b, sc);
            match r1 {
                Err(()) => (Err(()), sc1),
                Ok(ch) => (Ok(seq![]), scope_set(sc1, name, VData::String(ch))),
            }
        },
        VItem::AtExport(name, b) => {
            let (r1, sc1) = sem_block(fm, tms, depth, b, sc);
            match r1 {
                Err(()) => (Err(()), sc1),
                Ok(ch) => (Ok(seq![]), scope_set_root(sc1, name, VData::String(ch))),
            }
        },
        VItem::Define(name, b) => (Ok(seq![]), scope_set(sc, name, VData::Template(b))),
    }
}

/// Once an argument fails, the whole argument list fails.
pub proof fn lemma_pipes_sticky<FM: FuncManager>(fm: FM, tms: TempsV, depth: nat, args: Seq<VPipe>, k: int, sc: ScopeV)
    requires
        0 < k <= args.len(),
        sem_pipes(fm, tms, depth, args.subrange(0, k), sc) is Err,
    ensures
        sem_pipes(fm, tms, depth, args, sc) is Err,
    decreases args.len(),
{
    if k < args.len() {
        let pre = args.subrange(0, args.len() - 1);
        assert(pre.subrange(0, k) == args.subrange(0, k));
        lemma_pipes_sticky(fm, tms, depth, pre, k, sc);
    } else {
        assert(args.subrange(0, k) == args);
    }
}

/// Once an item fails, running the whole sequence fails there, with the scope left as it was
/// at the failure.
pub proof fn lemma_items_sticky<FM: FuncManager>(fm: FM, tms: TempsV, depth: nat, items: Seq<VItem>, k: int, sc: ScopeV)
    requires
        0 < k <= items.len(),
        sem_items(fm, tms, depth, items.subrange(0, k), sc).0 is Err,
    ensures
        sem_items(fm, tms, depth, items, sc) == sem_items(fm, tms, depth, items.subrange(0, k), sc),
    decreases items.len(),
{
    if k < items.len() {
        let pre = items.subrange(0, items.len() - 1);
        assert(pre.subrange(0, k) == items.subrange(0, k));
        lemma_items_sticky(fm, tms, depth, pre, k, sc);
    } else {
        assert(items.subrange(0, k) == items);
    }
}

/// Once an assignment fails, the whole list fails there.
pub proof fn lemma_assigns_sticky<FM: FuncManager>(fm: FM, tms: TempsV, depth: nat, a: Seq<(Seq<char>, VPipe)>, root: bool, k: int, sc: ScopeV)
    requires
        0 < k <= a.len(),
        sem_assigns(fm, tms, depth, a.subrange(0, k), root, sc).0 is Err,
    ensures
        sem_assigns(fm, tms, depth, a, root, sc) == sem_assigns(fm, tms, depth, a.subrange(0, k), root, sc),
    decreases a.len(),
{
    if k < a.len() {
        let pre = a.subrange(0, a.len() - 1);
        assert(pre.subrange(0, k) == a.subrange(0, k));
        lemma_assigns_sticky(fm, tms, depth, pre, root, k, sc);
    } else {
        assert(a.subrange(0, k) == a);
    }
}

/// The template manager that holds nothing.
pub open spec fn no_temps() -> TempsV {
    |k: Seq<char>| None::<Seq<VItem>>
}

/// Reading front matter: each export evaluated in order and bound in the outermost frame; an
/// export that fails is skipped.
pub open spec fn front_exports<FM: FuncManager>(fm: FM, a: Seq<(Seq<char>, VPipe)>, sc: ScopeV) -> ScopeV
    decreases a.len(),
{
    if a.len() == 0 {
        sc
    } else {
        let sc1 = front_exports(fm, a.subrange(0, a.len() - 1), sc);
        match sem_pipe(fm, no_temps(), MAX_DEPTH as nat, a[a.len() - 1].1, sc1) {
            Ok(x) => scope_set_root(sc1, a[a.len() - 1].0, x),
            Err(()) => sc1,
        }
    }
}

/// Reading front matter: the top-level `export` and `@export` items run in order, everything else
/// is passed over, and failures are skipped; with no template manager.
pub open spec fn front_items<FM: FuncManager>(fm: FM, items: Seq<VItem>, sc: ScopeV) -> ScopeV
    decreases items.len(),
{
    if items.len() == 0 {
        sc
    } else {
        let sc1 = front_items(fm, items.subrange(0, items.len() - 1), sc);
        match items[items.len() - 1] {
            VItem::AtExport(name, b) => match sem_block(fm, no_temps(), MAX_DEPTH as nat, b, sc1) {
                (Ok(v), sc2) => scope_set_root(sc2, name, VData::String(v)),
                (Err(()), sc2) => sc2,
            },
            VItem::Export(a) => front_exports(fm, a, sc1),
            _ => sc1,
        }
    }
}

/// Running a single item is running that item.
pub proof fn lemma_items_one<FM: FuncManager>(fm: FM, tms: TempsV, depth: nat, it: VItem, sc: ScopeV)
    ensures
        sem_items(fm, tms, depth, seq![it], sc).1 == sem_item(fm, tms, depth, it, sc).1,
        sem_items(fm, tms, depth, seq![it], sc).0 == sem_item(fm, tms, depth, it, sc).0,
{
    let s = seq![it];
    assert(s.subrange(0, 0) =~= Seq::<VItem>::empty());
    assert(sem_items(fm, tms, depth, Seq::<VItem>::empty(), sc) == (Ok::<Seq<char>, ()>(seq![]), sc));
    assert(s[0] == it);
    match sem_item(fm, tms, depth, it, sc).0 {
        Ok(t) => { assert(Seq::<char>::empty() + t =~= t); },
        Err(()) => {},
    }
}

/// Running two items is running the first, then the second in the scope the first leaves.
pub proof fn lemma_items_two<FM: FuncManager>(fm: FM, tms: TempsV, depth: nat, a: VItem, b: VItem, sc: ScopeV)
    ensures
        sem_items(fm, tms, depth, seq![a, b], sc) == ({
            let (r1, sc1) = sem_item(fm, tms, depth, a, sc);
            match r1 {
                Err(()) => (Err::<Seq<char>, ()>(()), sc1),
                Ok(s1) => {
                    let (r2, sc2) = sem_item(fm, tms, depth, b, sc1);
                    match r2 {
                        Err(()) => (Err::<Seq<char>, ()>(()), sc2),
                        Ok(s2) => (Ok::<Seq<char>, ()>(s1 + s2), sc2),
                    }
                },
            }
        }),
{
    let s = seq![a, b];
    assert(s.subrange(0, 1) =~= seq![a]);
    assert(s[1] == b);
    lemma_items_one(fm, tms, depth, a, sc);
}

/// A single assignment binds its name to its pipeline's value.
pub proof fn lemma_assigns_one<FM: FuncManager>(fm: FM, tms: TempsV, depth: nat, k: Seq<char>, p: VPipe, root: bool, sc: ScopeV)
    ensures
        sem_assigns(fm, tms, depth, seq![(k, p)], root, sc) == match sem_pipe(fm, tms, depth, p, sc) {
            Err(()) => (Err::<Seq<char>, ()>(()), sc),
            Ok(x) => (Ok::<Seq<char>, ()>(seq![]), if root { scope_set_root(sc, k, x) } else { scope_set(sc, k, x) }),
        },
{
    let a = seq![(k, p)];
    assert(a.subrange(0, 0) =~= Seq::<(Seq<char>, VPipe)>::empty());
    assert(sem_assigns(fm, tms, depth, Seq::<(Seq<char>, VPipe)>::empty(), root, sc) == (Ok::<Seq<char>, ()>(seq![]), sc));
    assert(a[0] == (k, p));
}

/// A template that asks no manager anything runs the same with any function manager and any
/// template manager: its text and its exports do not depend on them.
pub proof fn law_free_run_ignores_managers<F: FuncManager, G: FuncManager>(f: F, g: G, tf: TempsV, tg: TempsV, depth: nat, t: Seq<VItem>, params: Seq<VData>)
    requires
        items_free(t),
    ensures
        sem_run(f, tf, depth, t, params) == sem_run(g, tg, depth, t, params),
{
    lemma_free_items(f, g, tf, tg, depth, t, scope_new(params, depth));
}

proof fn lemma_free_pipe<F: FuncManager, G: FuncManager>(f: F, g: G, tf: TempsV, tg: TempsV, depth: nat, p: VPipe, sc: ScopeV)
    requires
        pipe_free(p),
    ensures
        sem_pipe(f, tf, depth, p, sc) == sem_pipe(g, tg, depth, p, sc),
    decreases psize(p), 1nat, 0nat,
{
    if let VPipe::Command(c, args) = p {
        lemma_free_command(f, g, tf, tg, depth, c, args, sc);
    }
}

proof fn lemma_free_pipes<F: FuncManager, G: FuncManager>(f: F, g: G, tf: TempsV, tg: TempsV, depth: nat, args: Seq<VPipe>, sc: ScopeV)
    requires
        pipes_free(args),
    ensures
        sem_pipes(f, tf, depth, args, sc) == sem_pipes(g, tg, depth, args, sc),
    decreases psizes(args), 0nat, 0nat,
{
    if args.len() > 0 {
        lemma_psizes(args, args.len() - 1);
        lemma_free_pipes(f, g, tf, tg, depth, args.subrange(0, args.len() - 1), sc);
        lemma_free_pipe(f, g, tf, tg, depth, args[args.len() - 1], sc);
    }
}

proof fn lemma_free_first<F: FuncManager, G: FuncManager>(f: F, g: G, tf: TempsV, tg: TempsV, depth: nat, args: Seq<VPipe>, i: nat, sc: ScopeV)
    requires
        pipes_free(args),
    ensures
        sem_first(f, tf, depth, args, i, sc) == sem_first(g, tg, depth, args, i, sc),
    decreases psizes(args), 1nat, args.len() - i,
{
    if i < args.len() {
        lemma_psizes(args, i as int);
        lemma_pipes_free(args, i as int);
        lemma_free_pipe(f, g, tf, tg, depth, args[i as int], sc);
        lemma_free_first(f, g, tf, tg, depth, args, i + 1, sc);
    }
}

proof fn lemma_free_command<F: FuncManager, G: FuncManager>(f: F, g: G, tf: TempsV, tg: TempsV, depth: nat, c: Seq<char>, args: Seq<VPipe>, sc: ScopeV)
    requires
        c == first_name() || c == select_name(),
        pipes_free(args),
    ensures
        sem_command(f, tf, depth, c, args, sc) == sem_command(g, tg, depth, c, args, sc),
    decreases psizes(args), 2nat, 0nat,
{
    assert(c != run_name()) by {
        if c == first_name() {
            assert(c.len() != run_name().len());
        } else {
            assert(c.len() != run_name().len());
        }
    }
    if c == first_name() {
        lemma_free_first(f, g, tf, tg, depth, args, 0, sc);
    } else if args.len() >= 3 {
        lemma_psizes(args, 0);
        lemma_pipes_free(args, 0);
        lemma_free_pipe(f, g, tf, tg, depth, args[0], sc);
        if let Ok(b) = sem_pipe(f, tf, depth, args[0], sc) {
            if let Some(n) = select_index(b) {
                if 0 <= n < args.len() {
                    lemma_psizes(args, n);
                    lemma_pipes_free(args, n);
                    lemma_free_pipe(f, g, tf, tg, depth, args[n], sc);
                }
            }
        }
    }
}

proof fn lemma_free_items<F: FuncManager, G: FuncManager>(f: F, g: G, tf: TempsV, tg: TempsV, depth: nat, items: Seq<VItem>, sc: ScopeV)
    requires
        items_free(items),
    ensures
        sem_items(f, tf, depth, items, sc) == sem_items(g, tg, depth, items, sc),
    decreases isizes(items), 0nat, 0nat,
{
    if items.len() > 0 {
        lemma_isizes(items, items.len() - 1);
        let pre = items.subrange(0, items.len() - 1);
        lemma_free_items(f, g, tf, tg, depth, pre, sc);
        let sc1 = sem_items(f, tf, depth, pre, sc).1;
        lemma_free_item(f, g, tf, tg, depth, items[items.len() - 1], sc1);
    }
}

proof fn lemma_free_block<F: FuncManager, G: FuncManager>(f: F, g: G, tf: TempsV, tg: TempsV, depth: nat, b: Seq<VItem>, sc: ScopeV)
    requires
        items_free(b),
    ensures
        sem_block(f, tf, depth, b, sc) == sem_block(g, tg, depth, b, sc),
    decreases isizes(b), 1nat, 0nat,
{
    lemma_free_items(f, g, tf, tg, depth, b, scope_push(sc));
}

proof fn lemma_free_assigns<F: FuncManager, G: FuncManager>(f: F, g: G, tf: TempsV, tg: TempsV, depth: nat, a: Seq<(Seq<char>, VPipe)>, root: bool, sc: ScopeV)
    requires
        assigns_free(a),
    ensures
        sem_assigns(f, tf, depth, a, root, sc) == sem_assigns(g, tg, depth, a, root, sc),
    decreases asizes(a), 0nat, 0nat,
{
    if a.len() > 0 {
        lemma_asizes(a, a.len() - 1);
        let pre = a.subrange(0, a.len() - 1);
        lemma_free_assigns(f, g, tf, tg, depth, pre, root, sc);
        let sc1 = sem_assigns(f, tf, depth, pre, root, sc).1;
        lemma_free_pipe(f, g, tf, tg, depth, a[a.len() - 1].1, sc1);
    }
}

proof fn lemma_free_for_list<F: FuncManager, G: FuncManager>(f: F, g: G, tf: TempsV, tg: TempsV, depth: nat, k: Seq<char>, v: Seq<char>, l: Seq<VData>, i: nat, b: Seq<VItem>, sc: ScopeV)
    requires
        items_free(b),
    ensures
        sem_for_list(f, tf, depth, k, v, l, i, b, sc) == sem_for_list(g, tg, depth, k, v, l, i, b, sc),
    decreases isizes(b), 2nat, l.len() - i,
{
    if i < l.len() {
        let sc1 = scope_set(scope_set(sc, k, VData::UInt(i as usize)), v, l[i as int]);
        lemma_free_block(f, g, tf, tg, depth, b, sc1);
        let sc2 = sem_block(f, tf, depth, b, sc1).1;
        lemma_free_for_list(f, g, tf, tg, depth, k, v, l, i + 1, b, sc2);
    }
}

proof fn lemma_free_for_dict<F: FuncManager, G: FuncManager>(f: F, g: G, tf: TempsV, tg: TempsV, depth: nat, k: Seq<char>, v: Seq<char>, m: Seq<(Seq<char>, VData)>, i: nat, b: Seq<VItem>, sc: ScopeV)
    requires
        items_free(b),
    ensures
        sem_for_dict(f, tf, depth, k, v, m, i, b, sc) == sem_for_dict(g, tg, depth, k, v, m, i, b, sc),
    decreases isizes(b), 2nat, m.len() - i,
{
    if i < m.len() {
        let sc1 = scope_set(scope_set(sc, k, VData::String(m[i as int].0)), v, m[i as int].1);
        lemma_free_block(f, g, tf, tg, depth, b, sc1);
        let sc2 = sem_block(f, tf, depth, b, sc1).1;
        lemma_free_for_dict(f, g, tf, tg, depth, k, v, m, i + 1, b, sc2);
    }
}

proof fn lemma_free_item<F: FuncManager, G: FuncManager>(f: F, g: G, tf: TempsV, tg: TempsV, depth: nat, it: VItem, sc: ScopeV)
    requires
        item_free(it),
    ensures
        sem_item(f, tf, depth, it, sc) == sem_item(g, tg, depth, it, sc),
    decreases isize_(it), 3nat, 0nat,
{
    lemma_sizes_pos(seq![], seq![], seq![]);
    match it {
        VItem::Let(a) => { lemma_free_assigns(f, g, tf, tg, depth, a, false, sc); },
        VItem::Export(a) => { lemma_free_assigns(f, g, tf, tg, depth, a, true, sc); },
        VItem::Pipe(p) => { lemma_free_pipe(f, g, tf, tg, depth, p, sc); },
        VItem::If { cond, yes, no } => {
            lemma_free_pipe(f, g, tf, tg, depth, cond, sc);
            lemma_sizes_pos(seq![], yes, seq![]);
            lemma_free_block(f, g, tf, tg, depth, yes, sc);
            if let Some(n) = no {
                lemma_sizes_pos(seq![], n, seq![]);
                lemma_free_block(f, g, tf, tg, depth, n, sc);
            }
        },
        VItem::For { k, v, p, b } => {
            lemma_free_pipe(f, g, tf, tg, depth, p, sc);
            lemma_sizes_pos(seq![], b, seq![]);
            match sem_pipe(f, tf, depth, p, sc) {
                Ok(VData::List(l)) => { lemma_free_for_list(f, g, tf, tg, depth, k, v, l, 0, b, sc); },
                Ok(VData::Dict(m)) => { lemma_free_for_dict(f, g, tf, tg, depth, k, v, m, 0, b, sc); },
                _ => {},
            }
        },
        VItem::AtLet(_, b) => { lemma_free_block(f, g, tf, tg, depth, b, sc); },
        VItem::AtExport(_, b) => { lemma_free_block(f, g, tf, tg, depth, b, sc); },
        _ => {},
    }
}

} // verus!
