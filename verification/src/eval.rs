//! Running templates: the executable counterpart of the semantics, proved to follow it.
use vstd::prelude::*;
use crate::err::{ea_str, Error};
use crate::func_man::FuncManager;
use crate::pipeline::{lemma_pipes_v_index, lemma_pipes_v_len, pipes_v, Pipeline, VPipe};
use crate::scope::{scope_new, Scope, ScopeV, MAX_DEPTH};
use crate::semantics::{assigns_free, item_free, items_free, pipe_free, pipes_free, lemma_assigns_free, lemma_items_free, lemma_pipes_free, front_exports, front_items, no_temps, asizes, at_name, first_name, run_name, isize_, isizes, lemma_asizes, lemma_assigns_sticky, lemma_isizes, lemma_items_sticky, lemma_pipes_sticky, lemma_psizes, lemma_sizes_pos, psize, psizes, select_index, select_name, sem_assigns, sem_block, sem_command, sem_first, sem_for_dict, sem_for_list, sem_item, sem_items, sem_pipe, sem_pipes, sem_run, sem_values};
use crate::show::v_display;
use crate::strs::{push_str, str_eq, string_from};
use crate::tdata::{clone_data, datas_v, entries_v, lemma_datas_v_map, lemma_datas_v_push, TData, TMap, VData};
use crate::temp_man::{NoTemplates, TempManager, TempsV};
use crate::template::{assigns_v, clone_block, items_v, lemma_assigns_v_index, lemma_assigns_v_len, lemma_items_v_index, lemma_items_v_len, Block, TreeItem, TreeTemplate, VItem};

verus! {

/// A computed value agrees with the value the semantics gives (any error for a failure).
pub open spec fn data_agrees(r: Result<TData, Error>, s: Result<VData, ()>) -> bool {
    match s {
        Ok(x) => r matches Ok(y) && y@ == x,
        Err(()) => r is Err,
    }
}

/// Computed values agree with the values the semantics gives.
pub open spec fn datas_agree(r: Result<Vec<TData>, Error>, s: Result<Seq<VData>, ()>) -> bool {
    match s {
        Ok(x) => r matches Ok(y) && datas_v(y@) == x,
        Err(()) => r is Err,
    }
}

/// A computed text agrees with the text the semantics gives.
pub open spec fn text_agrees(r: Result<String, Error>, s: Result<Seq<char>, ()>) -> bool {
    match s {
        Ok(x) => r matches Ok(y) && y@ == x,
        Err(()) => r is Err,
    }
}

/// The messages of `select`'s own failures, given the value of its test: a test that is
/// neither a number nor a truth value, and a test that picks no argument.
pub open spec fn select_errs(b: Result<VData, ()>, n_args: int, r: Result<TData, Error>) -> bool {
    match b {
        Ok(x) => match select_index(x) {
            None => r matches Err(e) && e.msg() == "As Bool failed on "@ + v_display(x),
            Some(n) => n >= n_args ==> (r matches Err(e)
                && e.msg() == "select first param must choose return a value less than the length of the rest of the args"@),
        },
        Err(()) => true,
    }
}

/// The message of a `for` loop over a value that is neither a list nor a map.
pub open spec fn for_errs(x: Result<VData, ()>, r: Result<String, Error>) -> bool {
    match x {
        Ok(v) => !(v is List || v is Dict) ==> (r matches Err(e) && e.msg() == "Cannot loop over non map or list"@),
        Err(()) => true,
    }
}

pub(crate) fn pipe_at<TM: TempManager, FM: FuncManager>(p: &Pipeline, scope: &Scope, tm: &mut TM, fm: &FM, depth: usize) -> (r: Result<TData, Error>)
    ensures
        final(tm).spec_temps() == old(tm).spec_temps(),
        (fm.spec_checked() || pipe_free(p@)) ==> (data_agrees(r, sem_pipe(*fm, old(tm).spec_temps(), depth as nat, p@, scope@))),
    decreases depth, psize(p@), 1nat, 0nat,
{
    match p {
        Pipeline::Lit(d) => Ok(clone_data(d)),
        Pipeline::Var(v) => match scope.get(v.as_slice()) {
            Some(x) => Ok(x),
            None => Err(ea_str("No Var by that name")),
        },
        Pipeline::Command(c, args) => command_at(c.as_str(), args.as_slice(), scope, tm, fm, depth),
    }
}

fn pipes_at<TM: TempManager, FM: FuncManager>(args: &[Pipeline], scope: &Scope, tm: &mut TM, fm: &FM, depth: usize) -> (r: Result<Vec<TData>, Error>)
    ensures
        final(tm).spec_temps() == old(tm).spec_temps(),
        (fm.spec_checked() || pipes_free(pipes_v(args@))) ==> (datas_agree(r, sem_pipes(*fm, old(tm).spec_temps(), depth as nat, pipes_v(args@), scope@))),
    decreases depth, psizes(pipes_v(args@)), 0nat, 0nat,
{
    let ghost tms = tm.spec_temps();
    let ghost ps = pipes_v(args@);
    proof {
        lemma_pipes_v_len(args@);
        assert(ps.subrange(0, 0) =~= Seq::<VPipe>::empty());
    }
    let mut out: Vec<TData> = Vec::new();
    let mut i: usize = 0;
    while i < args.len()
        invariant
            i <= args.len(),
            ps == pipes_v(args@),
            ps.len() == args.len(),
            tm.spec_temps() == tms,
            tms == old(tm).spec_temps(),
            (fm.spec_checked() || pipes_free(pipes_v(args@))) ==> (sem_pipes(*fm, tms, depth as nat, ps.subrange(0, i as int), scope@) == Ok::<Seq<VData>, ()>(datas_v(out@))),
        decreases args.len() - i,
    {
        proof {
            lemma_pipes_v_index(args@, i as int);
            lemma_psizes(ps, i as int);
                if pipes_free(ps) { lemma_pipes_free(ps, i as int); }
        }
        let ghost pre = ps.subrange(0, i + 1);
        assert(pre.subrange(0, i as int) == ps.subrange(0, i as int));
        assert(pre[i as int] == ps[i as int]);
        let x = pipe_at(&args[i], scope, tm, fm, depth);
        match x {
            Ok(d) => {
                proof { lemma_datas_v_push(out@, d); }
                out.push(d);
            },
            Err(e) => {
                proof { if fm.spec_checked() || pipes_free(pipes_v(args@)) { lemma_pipes_sticky(*fm, tms, depth as nat, ps, i + 1, scope@); } }
                return Err(e);
            },
        }
        i = i + 1;
    }
    assert(ps.subrange(0, ps.len() as int) == ps);
    Ok(out)
}

/// A copy of all but the first value.
fn rest_of(v: &Vec<TData>) -> (r: Vec<TData>)
    requires
        v.len() > 0,
    ensures
        datas_v(r@) == datas_v(v@).drop_first(),
{
    let mut r: Vec<TData> = Vec::new();
    let mut i: usize = 1;
    while i < v.len()
        invariant
            1 <= i <= v.len(),
            r@.len() == i - 1,
            forall|j: int| 0 <= j < r@.len() ==> (#[trigger] r@[j])@ == v@[j + 1]@,
        decreases v.len() - i,
    {
        r.push(clone_data(&v[i]));
        i = i + 1;
    }
    proof {
        lemma_datas_v_map(r@);
        lemma_datas_v_map(v@);
        assert(datas_v(r@) =~= datas_v(v@).drop_first());
    }
    r
}

fn command_at<TM: TempManager, FM: FuncManager>(c: &str, args: &[Pipeline], scope: &Scope, tm: &mut TM, fm: &FM, depth: usize) -> (r: Result<TData, Error>)
    ensures
        final(tm).spec_temps() == old(tm).spec_temps(),
        (fm.spec_checked() || ((c@ == first_name() || c@ == select_name()) && pipes_free(pipes_v(args@)))) ==> (data_agrees(r, sem_command(*fm, old(tm).spec_temps(), depth as nat, c@, pipes_v(args@), scope@))),
        c@ == select_name() && args.len() < 3
            ==> (r matches Err(e) && e.msg() == "n_sel requires at least 1 test and 2 possible values"@),
        c@ == select_name() && args.len() >= 3 && (fm.spec_checked() || pipe_free(pipes_v(args@)[0])) ==> select_errs(
            sem_pipe(*fm, old(tm).spec_temps(), depth as nat, pipes_v(args@)[0], scope@), args.len() as int, r),
    decreases depth, psizes(pipes_v(args@)), 2nat, 0nat,
{
    let ghost tms = tm.spec_temps();
    let ghost ps = pipes_v(args@);
    proof {
        lemma_pipes_v_len(args@);
        lemma_sizes_pos(ps, seq![], seq![]);
        reveal_strlit("run");
        reveal_strlit("first");
        reveal_strlit("select");
        assert(run_name() =~= "run"@);
        assert(first_name() =~= "first"@);
        assert(select_name() =~= "select"@);
    }
    if str_eq(c, "run") {
        let tds = match pipes_at(args, scope, tm, fm, depth) {
            Ok(t) => t,
            Err(e) => { return Err(e); },
        };
        proof { crate::tdata::lemma_datas_v_len(tds@); }
        if tds.len() == 0 {
            return Err(ea_str("run needs a template to run"));
        }
        proof { crate::tdata::lemma_datas_v_index(tds@, 0); }
        if let TData::Template(t) = &tds[0] {
            if depth == 0 {
                return Err(ea_str("Templates nested too deeply"));
            }
            let rest = rest_of(&tds);
            return match template_at(t, rest.as_slice(), tm, fm, depth - 1) {
                Ok((s, _)) => Ok(TData::String(s)),
                Err(e) => Err(e),
            };
        }
        assert(c@ != first_name() && c@ != select_name());
        return values_at(c, tds.as_slice(), tm, fm, depth);
    }
    if str_eq(c, "first") {
        let mut i: usize = 0;
        while i < args.len()
            invariant
                i <= args.len(),
                ps == pipes_v(args@),
                ps.len() == args.len(),
                tm.spec_temps() == tms,
                tms == old(tm).spec_temps(),
                c@ == first_name(),
                c@ != run_name(),
                (fm.spec_checked() || ((c@ == first_name() || c@ == select_name()) && pipes_free(pipes_v(args@)))) ==> (sem_first(*fm, tms, depth as nat, ps, 0, scope@) == sem_first(*fm, tms, depth as nat, ps, i as nat, scope@)),
            decreases args.len() - i,
        {
            proof {
                lemma_pipes_v_index(args@, i as int);
                lemma_psizes(ps, i as int);
                if pipes_free(ps) { lemma_pipes_free(ps, i as int); }
            }
            let x = pipe_at(&args[i], scope, tm, fm, depth);
            match x {
                Ok(d) => {
                    if !d.equals(&TData::Null) {
                        return Ok(d);
                    }
                },
                Err(_) => {},
            }
            i = i + 1;
        }
        return Ok(TData::Null);
    }
    if str_eq(c, "select") {
        if args.len() < 3 {
            return Err(ea_str("n_sel requires at least 1 test and 2 possible values"));
        }
        proof {
            lemma_pipes_v_index(args@, 0);
            lemma_psizes(ps, 0);
            if pipes_free(ps) { lemma_pipes_free(ps, 0); }
        }
        let b = match pipe_at(&args[0], scope, tm, fm, depth) {
            Ok(b) => b,
            Err(e) => { return Err(e); },
        };
        let n: usize = match b.as_usize() {
            Some(n) => {
                if n >= args.len() {
                    return Err(ea_str("select first param must choose return a value less than the length of the rest of the args"));
                }
                n + 1
            },
            None => match b.as_bool() {
                Some(t) => if t { 1 } else { 2 },
                None => {
                    let mut m = string_from("As Bool failed on ");
                    push_str(&mut m, b.to_string().as_str());
                    return Err(Error::String(m));
                },
            },
        };
        if n >= args.len() {
            return Err(ea_str("select first param must choose return a value less than the length of the rest of the args"));
        }
        proof {
            lemma_pipes_v_index(args@, n as int);
            lemma_psizes(ps, n as int);
            if pipes_free(ps) { lemma_pipes_free(ps, n as int); }
        }
        return pipe_at(&args[n], scope, tm, fm, depth);
    }
    let vs = match pipes_at(args, scope, tm, fm, depth) {
        Ok(v) => v,
        Err(e) => { return Err(e); },
    };
    values_at(c, vs.as_slice(), tm, fm, depth)
}

fn values_at<TM: TempManager, FM: FuncManager>(c: &str, vs: &[TData], tm: &mut TM, fm: &FM, depth: usize) -> (r: Result<TData, Error>)
    ensures
        final(tm).spec_temps() == old(tm).spec_temps(),
        fm.spec_checked() ==> (data_agrees(r, sem_values(*fm, old(tm).spec_temps(), depth as nat, c@, datas_v(vs@)))),
        fm.spec_checked() ==> (fm.spec_call(c@, datas_v(vs@)) is None && (old(tm).spec_temps())(c@) is None
            ==> (r matches Err(e) && e.msg() == "Getting template "@ + c@)),
    decreases depth, 0nat, 0nat, 0nat,
{
    match fm.call_func(c, vs) {
        Some(Ok(x)) => { return Ok(x); },
        Some(Err(e)) => { return Err(e); },
        None => {},
    }
    let t = match tm.get_t(c) {
        Ok(t) => t,
        Err(_) => {
            let mut m = string_from("Getting template ");
            push_str(&mut m, c);
            return Err(Error::String(m));
        },
    };
    if depth == 0 {
        return Err(ea_str("Templates nested too deeply"));
    }
    match template_at(&t, vs, tm, fm, depth - 1) {
        Ok((s, _)) => Ok(TData::String(s)),
        Err(e) => Err(e),
    }
}

fn template_at<TM: TempManager, FM: FuncManager>(t: &TreeTemplate, params: &[TData], tm: &mut TM, fm: &FM, depth: usize) -> (r: Result<(String, TMap), Error>)
    ensures
        final(tm).spec_temps() == old(tm).spec_temps(),
        (fm.spec_checked() || items_free(t@)) ==> (match sem_run(*fm, old(tm).spec_temps(), depth as nat, t@, datas_v(params@)) {
            Ok((s, m)) => r matches Ok((s2, m2)) && s2@ == s && entries_v(m2@) == m,
            Err(()) => r is Err,
        }),
    decreases depth, isizes(t@), 1nat, 0nat,
{
    let mut scope = Scope::new_at_depth(params, depth);
    match items_at(t.v.as_slice(), &mut scope, tm, fm, depth) {
        Ok(s) => Ok((s, scope.top())),
        Err(e) => Err(e),
    }
}

fn items_at<TM: TempManager, FM: FuncManager>(items: &[TreeItem], scope: &mut Scope, tm: &mut TM, fm: &FM, depth: usize) -> (r: Result<String, Error>)
    requires
        old(scope).wf(),
    ensures
        final(tm).spec_temps() == old(tm).spec_temps(),
        final(scope).wf(),
        (fm.spec_checked() || items_free(items_v(items@))) ==> (final(scope)@ == sem_items(*fm, old(tm).spec_temps(), depth as nat, items_v(items@), old(scope)@).1),
        (fm.spec_checked() || items_free(items_v(items@))) ==> (text_agrees(r, sem_items(*fm, old(tm).spec_temps(), depth as nat, items_v(items@), old(scope)@).0)),
    decreases depth, isizes(items_v(items@)), 0nat, 0nat,
{
    let ghost tms = tm.spec_temps();
    let ghost its = items_v(items@);
    let ghost sc0 = scope@;
    proof {
        lemma_items_v_len(items@);
        assert(its.subrange(0, 0) =~= Seq::<VItem>::empty());
    }
    let mut res = String::new();
    let mut i: usize = 0;
    while i < items.len()
        invariant
            i <= items.len(),
            its == items_v(items@),
            its.len() == items.len(),
            tm.spec_temps() == tms,
            tms == old(tm).spec_temps(),
            scope.wf(),
            sc0 == old(scope)@,
            (fm.spec_checked() || items_free(items_v(items@))) ==> (sem_items(*fm, tms, depth as nat, its.subrange(0, i as int), sc0) == (Ok::<Seq<char>, ()>(res@), scope@)),
        decreases items.len() - i,
    {
        proof {
            lemma_items_v_index(items@, i as int);
            lemma_isizes(its, i as int);
            if items_free(its) { lemma_items_free(its, i as int); }
        }
        let ghost pre = its.subrange(0, i + 1);
        assert(pre.subrange(0, i as int) == its.subrange(0, i as int));
        assert(pre[i as int] == its[i as int]);
        let x = item_at(&items[i], scope, tm, fm, depth);
        match x {
            Ok(s) => {
                push_str(&mut res, s.as_str());
            },
            Err(e) => {
                proof { if fm.spec_checked() || items_free(items_v(items@)) { lemma_items_sticky(*fm, tms, depth as nat, its, i + 1, sc0); } }
                return Err(e);
            },
        }
        i = i + 1;
    }
    assert(its.subrange(0, its.len() as int) == its);
    Ok(res)
}

fn block_at<TM: TempManager, FM: FuncManager>(b: &[TreeItem], scope: &mut Scope, tm: &mut TM, fm: &FM, depth: usize) -> (r: Result<String, Error>)
    requires
        old(scope).wf(),
    ensures
        final(tm).spec_temps() == old(tm).spec_temps(),
        final(scope).wf(),
        (fm.spec_checked() || items_free(items_v(b@))) ==> (final(scope)@ == sem_block(*fm, old(tm).spec_temps(), depth as nat, items_v(b@), old(scope)@).1),
        (fm.spec_checked() || items_free(items_v(b@))) ==> (text_agrees(r, sem_block(*fm, old(tm).spec_temps(), depth as nat, items_v(b@), old(scope)@).0)),
    decreases depth, isizes(items_v(b@)), 1nat, 0nat,
{
    scope.push();
    match items_at(b, scope, tm, fm, depth) {
        Ok(s) => {
            scope.pop();
            Ok(s)
        },
        Err(e) => Err(e),
    }
}

fn assigns_at<TM: TempManager, FM: FuncManager>(a: &[(String, Pipeline)], root: bool, scope: &mut Scope, tm: &mut TM, fm: &FM, depth: usize) -> (r: Result<String, Error>)
    requires
        old(scope).wf(),
    ensures
        final(tm).spec_temps() == old(tm).spec_temps(),
        final(scope).wf(),
        (fm.spec_checked() || assigns_free(assigns_v(a@))) ==> (final(scope)@ == sem_assigns(*fm, old(tm).spec_temps(), depth as nat, assigns_v(a@), root, old(scope)@).1),
        (fm.spec_checked() || assigns_free(assigns_v(a@))) ==> (text_agrees(r, sem_assigns(*fm, old(tm).spec_temps(), depth as nat, assigns_v(a@), root, old(scope)@).0)),
    decreases depth, asizes(assigns_v(a@)), 0nat, 0nat,
{
    let ghost tms = tm.spec_temps();
    let ghost asg = assigns_v(a@);
    let ghost sc0 = scope@;
    proof {
        lemma_assigns_v_len(a@);
        assert(asg.subrange(0, 0) =~= Seq::<(Seq<char>, VPipe)>::empty());
    }
    let mut i: usize = 0;
    while i < a.len()
        invariant
            i <= a.len(),
            asg == assigns_v(a@),
            asg.len() == a.len(),
            tm.spec_temps() == tms,
            tms == old(tm).spec_temps(),
            scope.wf(),
            sc0 == old(scope)@,
            (fm.spec_checked() || assigns_free(assigns_v(a@))) ==> (sem_assigns(*fm, tms, depth as nat, asg.subrange(0, i as int), root, sc0) == (Ok::<Seq<char>, ()>(Seq::<char>::empty()), scope@)),
        decreases a.len() - i,
    {
        proof {
            lemma_assigns_v_index(a@, i as int);
            lemma_asizes(asg, i as int);
            if assigns_free(asg) { lemma_assigns_free(asg, i as int); }
        }
        let ghost pre = asg.subrange(0, i + 1);
        assert(pre.subrange(0, i as int) == asg.subrange(0, i as int));
        assert(pre[i as int] == asg[i as int]);
        let x = pipe_at(&a[i].1, scope, tm, fm, depth);
        match x {
            Ok(d) => {
                if root {
                    scope.set_root(a[i].0.clone(), d);
                } else {
                    scope.set(a[i].0.clone(), d);
                }
            },
            Err(e) => {
                proof { if fm.spec_checked() || assigns_free(assigns_v(a@)) { lemma_assigns_sticky(*fm, tms, depth as nat, asg, root, i + 1, sc0); } }
                return Err(e);
            },
        }
        i = i + 1;
    }
    assert(asg.subrange(0, asg.len() as int) == asg);
    Ok(String::new())
}

fn for_list_at<TM: TempManager, FM: FuncManager>(k: &String, v: &String, l: &Vec<TData>, b: &[TreeItem], scope: &mut Scope, tm: &mut TM, fm: &FM, depth: usize) -> (r: Result<String, Error>)
    requires
        old(scope).wf(),
    ensures
        final(tm).spec_temps() == old(tm).spec_temps(),
        final(scope).wf(),
        (fm.spec_checked() || items_free(items_v(b@))) ==> (final(scope)@ == sem_for_list(*fm, old(tm).spec_temps(), depth as nat, k@, v@, datas_v(l@), 0, items_v(b@), old(scope)@).1),
        (fm.spec_checked() || items_free(items_v(b@))) ==> (text_agrees(r, sem_for_list(*fm, old(tm).spec_temps(), depth as nat, k@, v@, datas_v(l@), 0, items_v(b@), old(scope)@).0)),
    decreases depth, isizes(items_v(b@)), 2nat, 0nat,
{
    let ghost tms = tm.spec_temps();
    let ghost ls = datas_v(l@);
    let ghost bs = items_v(b@);
    let ghost tot = sem_for_list(*fm, tms, depth as nat, k@, v@, ls, 0, bs, scope@);
    proof { crate::tdata::lemma_datas_v_len(l@); }
    let mut res = String::new();
    let mut i: usize = 0;
    while i < l.len()
        invariant
            i <= l.len(),
            ls == datas_v(l@),
            ls.len() == l.len(),
            bs == items_v(b@),
            tm.spec_temps() == tms,
            tms == old(tm).spec_temps(),
            scope.wf(),
            tot == sem_for_list(*fm, tms, depth as nat, k@, v@, ls, 0, bs, old(scope)@),
            (fm.spec_checked() || items_free(items_v(b@))) ==> (tot.1 == sem_for_list(*fm, tms, depth as nat, k@, v@, ls, i as nat, bs, scope@).1),
            (fm.spec_checked() || items_free(items_v(b@))) ==> (tot.0 is Ok <==> sem_for_list(*fm, tms, depth as nat, k@, v@, ls, i as nat, bs, scope@).0 is Ok),
            (fm.spec_checked() || items_free(items_v(b@))) ==> (sem_for_list(*fm, tms, depth as nat, k@, v@, ls, i as nat, bs, scope@).0 is Ok ==>
                tot.0->Ok_0 == res@ + sem_for_list(*fm, tms, depth as nat, k@, v@, ls, i as nat, bs, scope@).0->Ok_0),
        decreases l.len() - i,
    {
        proof { crate::tdata::lemma_datas_v_index(l@, i as int); }
        let ghost cur = sem_for_list(*fm, tms, depth as nat, k@, v@, ls, i as nat, bs, scope@);
        scope.set(k.clone(), TData::UInt(i));
        scope.set(v.clone(), clone_data(&l[i]));
        match block_at(b, scope, tm, fm, depth) {
            Ok(s) => {
                let ghost s0 = res@;
                push_str(&mut res, s.as_str());
                proof {
                    let nxt = sem_for_list(*fm, tms, depth as nat, k@, v@, ls, (i + 1) as nat, bs, scope@);
                    if nxt.0 is Ok {
                        assert(s0 + s@ + nxt.0->Ok_0 == s0 + (s@ + nxt.0->Ok_0));
                    }
                }
            },
            Err(e) => {
                return Err(e);
            },
        }
        i = i + 1;
    }
    proof { if fm.spec_checked() || items_free(items_v(b@)) { assert(tot.0->Ok_0 == res@ + Seq::<char>::empty()); } }
    Ok(res)
}

fn for_dict_at<TM: TempManager, FM: FuncManager>(k: &String, v: &String, m: &TMap, b: &[TreeItem], scope: &mut Scope, tm: &mut TM, fm: &FM, depth: usize) -> (r: Result<String, Error>)
    requires
        old(scope).wf(),
    ensures
        final(tm).spec_temps() == old(tm).spec_temps(),
        final(scope).wf(),
        (fm.spec_checked() || items_free(items_v(b@))) ==> (final(scope)@ == sem_for_dict(*fm, old(tm).spec_temps(), depth as nat, k@, v@, entries_v(m@), 0, items_v(b@), old(scope)@).1),
        (fm.spec_checked() || items_free(items_v(b@))) ==> (text_agrees(r, sem_for_dict(*fm, old(tm).spec_temps(), depth as nat, k@, v@, entries_v(m@), 0, items_v(b@), old(scope)@).0)),
    decreases depth, isizes(items_v(b@)), 2nat, 0nat,
{
    let ghost tms = tm.spec_temps();
    let ghost ms = entries_v(m@);
    let ghost bs = items_v(b@);
    let ghost tot = sem_for_dict(*fm, tms, depth as nat, k@, v@, ms, 0, bs, scope@);
    proof { crate::tdata::lemma_entries_v_len(m@); }
    let mut res = String::new();
    let mut i: usize = 0;
    while i < m.len()
        invariant
            i <= m.len(),
            ms == entries_v(m@),
            ms.len() == m.len(),
            bs == items_v(b@),
            tm.spec_temps() == tms,
            tms == old(tm).spec_temps(),
            scope.wf(),
            tot == sem_for_dict(*fm, tms, depth as nat, k@, v@, ms, 0, bs, old(scope)@),
            (fm.spec_checked() || items_free(items_v(b@))) ==> (tot.1 == sem_for_dict(*fm, tms, depth as nat, k@, v@, ms, i as nat, bs, scope@).1),
            (fm.spec_checked() || items_free(items_v(b@))) ==> (tot.0 is Ok <==> sem_for_dict(*fm, tms, depth as nat, k@, v@, ms, i as nat, bs, scope@).0 is Ok),
            (fm.spec_checked() || items_free(items_v(b@))) ==> (sem_for_dict(*fm, tms, depth as nat, k@, v@, ms, i as nat, bs, scope@).0 is Ok ==>
                tot.0->Ok_0 == res@ + sem_for_dict(*fm, tms, depth as nat, k@, v@, ms, i as nat, bs, scope@).0->Ok_0),
        decreases m.len() - i,
    {
        proof { crate::tdata::lemma_entries_v_index(m@, i as int); }
        scope.set(k.clone(), TData::String(m[i].0.clone()));
        scope.set(v.clone(), clone_data(&m[i].1));
        match block_at(b, scope, tm, fm, depth) {
            Ok(s) => {
                let ghost s0 = res@;
                push_str(&mut res, s.as_str());
                proof {
                    let nxt = sem_for_dict(*fm, tms, depth as nat, k@, v@, ms, (i + 1) as nat, bs, scope@);
                    if nxt.0 is Ok {
                        assert(s0 + s@ + nxt.0->Ok_0 == s0 + (s@ + nxt.0->Ok_0));
                    }
                }
            },
            Err(e) => {
                return Err(e);
            },
        }
        i = i + 1;
    }
    proof { if fm.spec_checked() || items_free(items_v(b@)) { assert(tot.0->Ok_0 == res@ + Seq::<char>::empty()); } }
    Ok(res)
}

fn item_at<TM: TempManager, FM: FuncManager>(it: &TreeItem, scope: &mut Scope, tm: &mut TM, fm: &FM, depth: usize) -> (r: Result<String, Error>)
    requires
        old(scope).wf(),
    ensures
        final(tm).spec_temps() == old(tm).spec_temps(),
        final(scope).wf(),
        (fm.spec_checked() || item_free(it@)) ==> (final(scope)@ == sem_item(*fm, old(tm).spec_temps(), depth as nat, it@, old(scope)@).1),
        (fm.spec_checked() || item_free(it@)) ==> (text_agrees(r, sem_item(*fm, old(tm).spec_temps(), depth as nat, it@, old(scope)@).0)),
        it@ matches VItem::For { p, .. } ==> ((fm.spec_checked() || pipe_free(p))
            ==> for_errs(sem_pipe(*fm, old(tm).spec_temps(), depth as nat, p, old(scope)@), r)),
    decreases depth, isize_(it@), 3nat, 0nat,
{
    proof {
        lemma_sizes_pos(seq![], seq![], seq![]);
    }
    match it {
        TreeItem::String(s) => Ok(string_from(s.as_str())),
        TreeItem::Comment => Ok(String::new()),
        TreeItem::Let(a) => assigns_at(a.as_slice(), false, scope, tm, fm, depth),
        TreeItem::Export(a) => assigns_at(a.as_slice(), true, scope, tm, fm, depth),
        TreeItem::Pipe(p) => match pipe_at(p, scope, tm, fm, depth) {
            Ok(x) => Ok(x.to_string()),
            Err(e) => Err(e),
        },
        TreeItem::If { cond, yes, no } => {
            let c = match pipe_at(cond, scope, tm, fm, depth) {
                Ok(x) => x,
                Err(_) => TData::Null,
            };
            match c.as_bool() {
                Some(true) => block_at(yes.as_slice(), scope, tm, fm, depth),
                _ => match no {
                    Some(n) => block_at(n.as_slice(), scope, tm, fm, depth),
                    None => Ok(String::new()),
                },
            }
        },
        TreeItem::For { k, v, p, b } => {
            let looper = match pipe_at(p, scope, tm, fm, depth) {
                Ok(x) => x,
                Err(e) => { return Err(e); },
            };
            match &looper {
                TData::List(l) => for_list_at(k, v, l, b.as_slice(), scope, tm, fm, depth),
                TData::Dict(m) => for_dict_at(k, v, m, b.as_slice(), scope, tm, fm, depth),
                _ => Err(ea_str("Cannot loop over non map or list")),
            }
        },
        TreeItem::Block { command, params, block } => {
            let ch = match block_at(block.as_slice(), scope, tm, fm, depth) {
                Ok(s) => s,
                Err(e) => { return Err(e); },
            };
            proof { lemma_pipes_v_len(params@); }
            if params.len() == 0 {
                let args: Vec<TData> = vec![TData::String(ch)];
                proof {
                    lemma_datas_v_map(args@);
                    assert(datas_v(args@) =~= seq![VData::String(ch@)]);
                }
                return match values_at(command.as_str(), args.as_slice(), tm, fm, depth) {
                    Ok(x) => Ok(x.to_string()),
                    Err(e) => Err(e),
                };
            }
            proof {
                reveal_strlit("@");
                assert(at_name() =~= "@"@);
            }
            scope.set(string_from("@"), TData::String(ch));
            let vs = match pipes_at(params.as_slice(), scope, tm, fm, depth) {
                Ok(v) => v,
                Err(e) => { return Err(e); },
            };
            match values_at(command.as_str(), vs.as_slice(), tm, fm, depth) {
                Ok(x) => Ok(x.to_string()),
                Err(e) => Err(e),
            }
        },
        TreeItem::AtLet(name, b) => {
            let ch = match block_at(b.as_slice(), scope, tm, fm, depth) {
                Ok(s) => s,
                Err(e) => { return Err(e); },
            };
            scope.set(name.clone(), TData::String(ch));
            Ok(String::new())
        },
        TreeItem::AtExport(name, b) => {
            let ch = match block_at(b.as_slice(), scope, tm, fm, depth) {
                Ok(s) => s,
                Err(e) => { return Err(e); },
            };
            scope.set_root(name.clone(), TData::String(ch));
            Ok(String::new())
        },
        TreeItem::Define(name, b) => {
            let t = TreeTemplate { v: clone_block(b) };
            scope.set(name.clone(), TData::Template(t));
            Ok(String::new())
        },
    }
}

impl Pipeline {
    /// The value of the pipeline in a scope: a literal is itself, a variable is looked up, and a
    /// command is run on its arguments.
    pub fn run<TM: TempManager, FM: FuncManager>(&self, scope: &Scope, tm: &mut TM, fm: &FM) -> (r: Result<TData, Error>)
        ensures
            final(tm).spec_temps() == old(tm).spec_temps(),
            (fm.spec_checked() || pipe_free(self@)) ==> (data_agrees(r, sem_pipe(*fm, old(tm).spec_temps(), scope@.depth, self@, scope@))),
    {
        pipe_at(self, scope, tm, fm, scope.depth())
    }
}

/// Runs the command `cname` on argument pipelines: `run`, `first` and `select` are built in, any
/// other name is looked up in the function manager and then in the template manager.
pub fn run_command<TM: TempManager, FM: FuncManager>(cname: &str, args: &[Pipeline], scope: &Scope, tm: &mut TM, fm: &FM) -> (r: Result<TData, Error>)
    ensures
        final(tm).spec_temps() == old(tm).spec_temps(),
        (fm.spec_checked() || ((cname@ == first_name() || cname@ == select_name()) && pipes_free(pipes_v(args@)))) ==> (data_agrees(r, sem_command(*fm, old(tm).spec_temps(), scope@.depth, cname@, pipes_v(args@), scope@))),
        cname@ == select_name() && args.len() < 3
            ==> (r matches Err(e) && e.msg() == "n_sel requires at least 1 test and 2 possible values"@),
        cname@ == select_name() && args.len() >= 3 && (fm.spec_checked() || pipe_free(pipes_v(args@)[0])) ==> select_errs(
            sem_pipe(*fm, old(tm).spec_temps(), scope@.depth, pipes_v(args@)[0], scope@), args.len() as int, r),
{
    command_at(cname, args, scope, tm, fm, scope.depth())
}

/// Calls the function or template named `cname` on values.
pub fn run_values<TM: TempManager, FM: FuncManager>(cname: &str, args: &[TData], tm: &mut TM, fm: &FM) -> (r: Result<TData, Error>)
    ensures
        final(tm).spec_temps() == old(tm).spec_temps(),
        fm.spec_checked() ==> (data_agrees(r, sem_values(*fm, old(tm).spec_temps(), MAX_DEPTH as nat, cname@, datas_v(args@)))),
        fm.spec_checked() ==> (fm.spec_call(cname@, datas_v(args@)) is None && (old(tm).spec_temps())(cname@) is None
            ==> (r matches Err(e) && e.msg() == "Getting template "@ + cname@)),
{
    values_at(cname, args, tm, fm, MAX_DEPTH)
}

/// Runs a block in a new frame of the scope, giving the joined text of its items.
pub fn run_block<TM: TempManager, FM: FuncManager>(block: &Block, scope: &mut Scope, tm: &mut TM, fm: &FM) -> (r: Result<String, Error>)
    requires
        old(scope).wf(),
    ensures
        final(tm).spec_temps() == old(tm).spec_temps(),
        final(scope).wf(),
        (fm.spec_checked() || items_free(items_v(block@))) ==> (final(scope)@ == sem_block(*fm, old(tm).spec_temps(), old(scope)@.depth, items_v(block@), old(scope)@).1),
        (fm.spec_checked() || items_free(items_v(block@))) ==> (text_agrees(r, sem_block(*fm, old(tm).spec_temps(), old(scope)@.depth, items_v(block@), old(scope)@).0)),
{
    let d = scope.depth();
    block_at(block.as_slice(), scope, tm, fm, d)
}

impl TreeItem {
    /// Runs one item in a scope, giving its text.
    pub fn run<TM: TempManager, FM: FuncManager>(&self, scope: &mut Scope, tm: &mut TM, fm: &FM) -> (r: Result<String, Error>)
        requires
            old(scope).wf(),
        ensures
            final(tm).spec_temps() == old(tm).spec_temps(),
            final(scope).wf(),
            (fm.spec_checked() || item_free(self@)) ==> (final(scope)@ == sem_item(*fm, old(tm).spec_temps(), old(scope)@.depth, self@, old(scope)@).1),
            (fm.spec_checked() || item_free(self@)) ==> (text_agrees(r, sem_item(*fm, old(tm).spec_temps(), old(scope)@.depth, self@, old(scope)@).0)),
            self@ matches VItem::For { p, .. } ==> ((fm.spec_checked() || pipe_free(p))
                ==> for_errs(sem_pipe(*fm, old(tm).spec_temps(), old(scope)@.depth, p, old(scope)@), r)),
    {
        let d = scope.depth();
        item_at(self, scope, tm, fm, d)
    }
}

impl TreeTemplate {
    /// Runs the template on parameters, giving its text.
    pub fn run<TM: TempManager, FM: FuncManager>(&self, params: &[TData], tm: &mut TM, fm: &FM) -> (r: Result<String, Error>)
        ensures
            final(tm).spec_temps() == old(tm).spec_temps(),
            (fm.spec_checked() || items_free(self@)) ==> (match sem_run(*fm, old(tm).spec_temps(), MAX_DEPTH as nat, self@, datas_v(params@)) {
                Ok((s, _)) => r matches Ok(s2) && s2@ == s,
                Err(()) => r is Err,
            }),
    {
        match template_at(self, params, tm, fm, MAX_DEPTH) {
            Ok((s, _)) => Ok(s),
            Err(e) => Err(e),
        }
    }

    /// Runs the template on parameters, giving its text and the variables it exported.
    pub fn run_exp<TM: TempManager, FM: FuncManager>(&self, params: &[TData], tm: &mut TM, fm: &FM) -> (r: Result<(String, TMap), Error>)
        ensures
            final(tm).spec_temps() == old(tm).spec_temps(),
            (fm.spec_checked() || items_free(self@)) ==> (match sem_run(*fm, old(tm).spec_temps(), MAX_DEPTH as nat, self@, datas_v(params@)) {
                Ok((s, m)) => r matches Ok((s2, m2)) && s2@ == s && entries_v(m2@) == m,
                Err(()) => r is Err,
            }),
    {
        template_at(self, params, tm, fm, MAX_DEPTH)
    }

    /// The variables the template exports at its top level, read without running the rest of it
    /// and without templates; an export that fails is left out (a template without front matter
    /// gives an empty map).
    pub fn front_matter<FM: FuncManager>(&self, fm: &FM) -> (r: TMap)
        ensures
            (fm.spec_checked() || items_free(self@)) ==> (entries_v(r@) == front_items(*fm, self@, scope_new(seq![], MAX_DEPTH as nat)).frames[0]),
    {
        let empty: Vec<TData> = Vec::new();
        proof { assert(datas_v(empty@) =~= Seq::<VData>::empty()); }
        let mut scope = Scope::new(empty.as_slice());
        let mut nt = NoTemplates;
        assert(nt.spec_temps() =~= no_temps());
        let ghost its = self@;
        let ghost sc0 = scope@;
        proof {
            lemma_items_v_len(self.v@);
            assert(its.subrange(0, 0) =~= Seq::<VItem>::empty());
        }
        let mut i: usize = 0;
        while i < self.v.len()
            invariant
                i <= self.v.len(),
                its == items_v(self.v@),
                its.len() == self.v.len(),
                nt.spec_temps() == no_temps(),
                scope.wf(),
                sc0 == scope_new(seq![], MAX_DEPTH as nat),
                (fm.spec_checked() || items_free(self@)) ==> (front_items(*fm, its.subrange(0, i as int), sc0) == scope@),
            decreases self.v.len() - i,
        {
            proof {
                lemma_items_v_index(self.v@, i as int);
                if items_free(its) { lemma_items_free(its, i as int); }
            }
            let ghost pre = its.subrange(0, i + 1);
            assert(pre.subrange(0, i as int) == its.subrange(0, i as int));
            assert(pre[i as int] == its[i as int]);
            match &self.v[i] {
                TreeItem::AtExport(name, block) => {
                    match block_at(block.as_slice(), &mut scope, &mut nt, fm, MAX_DEPTH) {
                        Ok(val) => {
                            scope.set_root(name.clone(), TData::String(val));
                        },
                        Err(_) => {},
                    }
                },
                TreeItem::Export(a) => {
                    let ghost asg = assigns_v(a@);
                    let ghost scs = scope@;
                    proof {
                        lemma_assigns_v_len(a@);
                        assert(asg.subrange(0, 0) =~= Seq::<(Seq<char>, VPipe)>::empty());
                    }
                    let mut j: usize = 0;
                    while j < a.len()
                        invariant
                            j <= a.len(),
                            asg == assigns_v(a@),
                            asg.len() == a.len(),
                            nt.spec_temps() == no_temps(),
                            scope.wf(),
                            items_free(self@) ==> assigns_free(asg),
                            (fm.spec_checked() || items_free(self@)) ==> (front_exports(*fm, asg.subrange(0, j as int), scs) == scope@),
                        decreases a.len() - j,
                    {
                        proof {
                            lemma_assigns_v_index(a@, j as int);
                            if assigns_free(asg) { lemma_assigns_free(asg, j as int); }
                        }
                        let ghost pre2 = asg.subrange(0, j + 1);
                        assert(pre2.subrange(0, j as int) == asg.subrange(0, j as int));
                        assert(pre2[j as int] == asg[j as int]);
                        match pipe_at(&a[j].1, &scope, &mut nt, fm, MAX_DEPTH) {
                            Ok(val) => {
                                scope.set_root(a[j].0.clone(), val);
                            },
                            Err(_) => {},
                        }
                        j = j + 1;
                    }
                    assert(asg.subrange(0, asg.len() as int) == asg);
                },
                _ => {},
            }
            i = i + 1;
        }
        assert(its.subrange(0, its.len() as int) == its);
        scope.top()
    }
}

} // verus!
