//! Laws of running templates: what a program of a few items gives, whatever the scope, the
//! function manager and the template manager.
use vstd::prelude::*;
use crate::func_man::FuncManager;
use crate::pipeline::VPipe;
use crate::scope::{law_get_after_set, scope_get, scope_new, scope_pop, scope_push, scope_set, ScopeV};
use crate::semantics::{first_name, select_name, sem_command, sem_first, sem_for_dict, sem_for_list, lemma_assigns_one, lemma_items_one, lemma_items_two, run_name, sem_block, sem_item, sem_items, sem_pipe, sem_pipes, sem_run};
use crate::show::v_display;
use crate::tdata::{dict_get, dict_insert, VData};
use crate::temp_man::TempsV;
use crate::template::{VFlat, VItem, VPart};
use crate::grammar::{char_at, file_s, has_tag, iopen_s, is_wn, lemma_skip_wn, skip_wn, string_item_s, strings_s, text_end};
use crate::tree::{block_s, item_s, Ender};
use crate::funcs::strings::{concat_display, contains_s, find_from, replace_from, replace_s, replace_text, html_char, html_text, occurs_at, split_from, split_pieces, split_s, text_list};
use crate::funcs::path::join_with_s;
use crate::funcs::lists::chunks;
use crate::strs::{join_seqs, nat_text};

verus! {

/// A variable bound by `let` is what a later `{{$name}}` prints.
pub proof fn law_let_then_var<FM: FuncManager>(fm: FM, tms: TempsV, depth: nat, k: Seq<char>, v: VData, sc: ScopeV)
    requires
        sc.frames.len() > 0,
    ensures
        sem_items(fm, tms, depth, seq![
            VItem::Let(seq![(k, VPipe::Lit(v))]),
            VItem::Pipe(VPipe::Var(seq![VPart::Id(k)])),
        ], sc).0 == Ok::<Seq<char>, ()>(v_display(v)),
{
    let a = VItem::Let(seq![(k, VPipe::Lit(v))]);
    let b = VItem::Pipe(VPipe::Var(seq![VPart::Id(k)]));
    lemma_items_two(fm, tms, depth, a, b, sc);
    lemma_assigns_one(fm, tms, depth, k, VPipe::Lit(v), false, sc);
    law_get_after_set(sc, k, v);
    assert(Seq::<char>::empty() + v_display(v) =~= v_display(v));
}

/// A value exported at the top of a template is among what running it returns.
pub proof fn law_export_returned<FM: FuncManager>(fm: FM, tms: TempsV, depth: nat, k: Seq<char>, v: VData, params: Seq<VData>)
    ensures
        sem_run(fm, tms, depth, seq![VItem::Export(seq![(k, VPipe::Lit(v))])], params)
            == Ok::<(Seq<char>, Seq<(Seq<char>, VData)>), ()>((seq![], seq![(k, v)])),
{
    let it = VItem::Export(seq![(k, VPipe::Lit(v))]);
    let sc = scope_new(params, depth);
    lemma_items_one(fm, tms, depth, it, sc);
    lemma_assigns_one(fm, tms, depth, k, VPipe::Lit(v), true, sc);
    let e: Seq<(Seq<char>, VData)> = seq![];
    assert(crate::tdata::key_index(e, k) == -1);
    assert(dict_insert(e, k, v) =~= seq![(k, v)]);
    assert(sc.frames[0] == e);
}

/// `@let name` binds the text its block prints, which a later `{{$name}}` prints.
pub proof fn law_at_let_then_var<FM: FuncManager>(fm: FM, tms: TempsV, depth: nat, n: Seq<char>, t: Seq<char>, sc: ScopeV)
    requires
        sc.frames.len() > 0,
    ensures
        sem_items(fm, tms, depth, seq![
            VItem::AtLet(n, seq![VItem::String(t)]),
            VItem::Pipe(VPipe::Var(seq![VPart::Id(n)])),
        ], sc).0 == Ok::<Seq<char>, ()>(t),
{
    let a = VItem::AtLet(n, seq![VItem::String(t)]);
    let b = VItem::Pipe(VPipe::Var(seq![VPart::Id(n)]));
    lemma_items_two(fm, tms, depth, a, b, sc);
    lemma_items_one(fm, tms, depth, VItem::String(t), scope_push(sc));
    crate::scope::law_pop_undoes_push(sc);
    law_get_after_set(sc, n, VData::String(t));
    assert(Seq::<char>::empty() + t =~= t);
}

/// An `if` whose condition is true prints its first block; one whose condition is not true
/// prints its `else` block, or nothing.
pub proof fn law_if_branches<FM: FuncManager>(fm: FM, tms: TempsV, depth: nat, c: bool, yes: Seq<VItem>, no: Option<Seq<VItem>>, sc: ScopeV)
    ensures
        sem_item(fm, tms, depth, VItem::If { cond: VPipe::Lit(VData::Bool(c)), yes, no }, sc) == if c {
            sem_block(fm, tms, depth, yes, sc)
        } else {
            match no {
                Some(n) => sem_block(fm, tms, depth, n, sc),
                None => (Ok::<Seq<char>, ()>(seq![]), sc),
            }
        },
{
}

/// A template defined with `define` and run with `run` prints what running its block on the
/// remaining arguments gives, one call level down.
pub proof fn law_define_then_run<FM: FuncManager>(fm: FM, tms: TempsV, depth: nat, n: Seq<char>, b: Seq<VItem>, sc: ScopeV)
    requires
        sc.frames.len() > 0,
        depth > 0,
    ensures
        sem_items(fm, tms, depth, seq![
            VItem::Define(n, b),
            VItem::Pipe(VPipe::Command(run_name(), seq![VPipe::Var(seq![VPart::Id(n)])])),
        ], sc).0 == match sem_run(fm, tms, (depth - 1) as nat, b, seq![]) {
            Ok((s, _)) => Ok::<Seq<char>, ()>(s),
            Err(()) => Err(()),
        },
{
    let i1 = VItem::Define(n, b);
    let i2 = VItem::Pipe(VPipe::Command(run_name(), seq![VPipe::Var(seq![VPart::Id(n)])]));
    lemma_items_two(fm, tms, depth, i1, i2, sc);
    let sc1 = scope_set(sc, n, VData::Template(b));
    law_get_after_set(sc, n, VData::Template(b));
    let args = seq![VPipe::Var(seq![VPart::Id(n)])];
    assert(args.subrange(0, 0) =~= Seq::<VPipe>::empty());
    assert(sem_pipes(fm, tms, depth, Seq::<VPipe>::empty(), sc1) == Ok::<Seq<VData>, ()>(seq![]));
    assert(args[0] == VPipe::Var(seq![VPart::Id(n)]));
    assert(scope_get(sc1, seq![VPart::Id(n)]) == Some(VData::Template(b)));
    assert(sem_pipe(fm, tms, depth, args[0], sc1) == Ok::<VData, ()>(VData::Template(b)));
    assert(args.len() - 1 == 0);
    assert(args.subrange(0, args.len() - 1) =~= Seq::<VPipe>::empty());
    assert(Seq::<VData>::empty().push(VData::Template(b)) =~= seq![VData::Template(b)]);
    assert(sem_pipes(fm, tms, depth, args, sc1) == Ok::<Seq<VData>, ()>(seq![VData::Template(b)]));
    assert(seq![VData::Template(b)].drop_first() =~= Seq::<VData>::empty());
    match sem_run(fm, tms, (depth - 1) as nat, b, seq![]) {
        Ok((s, _)) => {
            assert(Seq::<char>::empty() + s =~= s);
        },
        Err(()) => {},
    }
}

/// The displayed texts of a value and the values after it.
pub proof fn lemma_concat_cons(x: VData, s: Seq<VData>)
    ensures
        concat_display(seq![x] + s) == v_display(x) + concat_display(s),
    decreases s.len(),
{
    if s.len() == 0 {
        assert(seq![x] + s =~= seq![x]);
        assert(seq![x].drop_last() =~= Seq::<VData>::empty());
        assert(concat_display(Seq::<VData>::empty()) == Seq::<char>::empty());
        assert(concat_display(seq![x]) == concat_display(Seq::<VData>::empty()) + v_display(x));
        assert(Seq::<char>::empty() + v_display(x) =~= v_display(x));
        assert(v_display(x) + Seq::<char>::empty() =~= v_display(x));
    } else {
        lemma_concat_cons(x, s.drop_last());
        assert((seq![x] + s).drop_last() =~= seq![x] + s.drop_last());
        assert((seq![x] + s).last() == s.last());
        assert(v_display(x) + concat_display(s.drop_last()) + v_display(s.last())
            =~= v_display(x) + (concat_display(s.drop_last()) + v_display(s.last())));
    }
}

proof fn lemma_for_each<FM: FuncManager>(fm: FM, tms: TempsV, depth: nat, k: Seq<char>, v: Seq<char>, l: Seq<VData>, i: nat, sc: ScopeV)
    requires
        sc.frames.len() > 0,
        i <= l.len(),
    ensures
        sem_for_list(fm, tms, depth, k, v, l, i, seq![VItem::Pipe(VPipe::Var(seq![VPart::Id(v)]))], sc).0
            == Ok::<Seq<char>, ()>(concat_display(l.subrange(i as int, l.len() as int))),
    decreases l.len() - i,
{
    let b = seq![VItem::Pipe(VPipe::Var(seq![VPart::Id(v)]))];
    if i >= l.len() {
        assert(l.subrange(i as int, l.len() as int) =~= Seq::<VData>::empty());
    } else {
        let sc1 = scope_set(scope_set(sc, k, VData::UInt(i as usize)), v, l[i as int]);
        lemma_items_one(fm, tms, depth, b[0], scope_push(sc1));
        crate::scope::law_push_keeps_lookups(sc1, seq![VPart::Id(v)]);
        law_get_after_set(scope_set(sc, k, VData::UInt(i as usize)), v, l[i as int]);
        crate::scope::law_pop_undoes_push(sc1);
        assert(sem_block(fm, tms, depth, b, sc1) == (Ok::<Seq<char>, ()>(v_display(l[i as int])), sc1));
        lemma_for_each(fm, tms, depth, k, v, l, i + 1, sc1);
        lemma_concat_cons(l[i as int], l.subrange(i as int + 1, l.len() as int));
        assert(seq![l[i as int]] + l.subrange(i as int + 1, l.len() as int) =~= l.subrange(i as int, l.len() as int));
    }
}

/// Map entries from `i` on as a loop printing each key and then its value shows them.
pub open spec fn entries_text(m: Seq<(Seq<char>, VData)>, i: int) -> Seq<char>
    decreases m.len() - i,
{
    if i < 0 || i >= m.len() {
        seq![]
    } else {
        m[i].0 + v_display(m[i].1) + entries_text(m, i as int + 1)
    }
}

/// List elements from `i` on as a loop printing each position and then its element shows them.
pub open spec fn indexed_text(l: Seq<VData>, i: int) -> Seq<char>
    decreases l.len() - i,
{
    if i < 0 || i >= l.len() {
        seq![]
    } else {
        nat_text(i as nat) + v_display(l[i]) + indexed_text(l, i + 1)
    }
}

/// The body `{{$k}}{{$v}}`.
pub open spec fn key_value_body(k: Seq<char>, v: Seq<char>) -> Seq<VItem> {
    seq![VItem::Pipe(VPipe::Var(seq![VPart::Id(k)])), VItem::Pipe(VPipe::Var(seq![VPart::Id(v)]))]
}

/// Running `{{$k}}{{$v}}` as a block, with `k` bound to `x` and then `v` to `y`, prints the two
/// and leaves the scope as it was.
proof fn lemma_key_value_block<FM: FuncManager>(fm: FM, tms: TempsV, depth: nat, k: Seq<char>, v: Seq<char>, x: VData, y: VData, sc: ScopeV)
    requires
        sc.frames.len() > 0,
        k != v,
    ensures
        sem_block(fm, tms, depth, key_value_body(k, v), scope_set(scope_set(sc, k, x), v, y))
            == (Ok::<Seq<char>, ()>(v_display(x) + v_display(y)), scope_set(scope_set(sc, k, x), v, y)),
{
    let sc0 = scope_set(sc, k, x);
    let sc1 = scope_set(sc0, v, y);
    let ps = scope_push(sc1);
    let b = key_value_body(k, v);
    lemma_items_two(fm, tms, depth, b[0], b[1], ps);
    assert(b == seq![b[0], b[1]]);
    crate::scope::law_push_keeps_lookups(sc1, seq![VPart::Id(k)]);
    crate::scope::law_push_keeps_lookups(sc1, seq![VPart::Id(v)]);
    crate::scope::law_set_keeps_others(sc0, v, y, k, Seq::<VPart>::empty());
    assert(seq![VPart::Id(k)] + Seq::<VPart>::empty() =~= seq![VPart::Id(k)]);
    law_get_after_set(sc, k, x);
    law_get_after_set(sc0, v, y);
    crate::scope::law_pop_undoes_push(sc1);
}

proof fn lemma_for_dict_keys<FM: FuncManager>(fm: FM, tms: TempsV, depth: nat, k: Seq<char>, v: Seq<char>, m: Seq<(Seq<char>, VData)>, i: nat, sc: ScopeV)
    requires
        sc.frames.len() > 0,
        k != v,
        i <= m.len(),
    ensures
        sem_for_dict(fm, tms, depth, k, v, m, i, key_value_body(k, v), sc).0 == Ok::<Seq<char>, ()>(entries_text(m, i as int)),
    decreases m.len() - i,
{
    if i < m.len() {
        let x = VData::String(m[i as int].0);
        let sc1 = scope_set(scope_set(sc, k, x), v, m[i as int].1);
        lemma_key_value_block(fm, tms, depth, k, v, x, m[i as int].1, sc);
        lemma_for_dict_keys(fm, tms, depth, k, v, m, i + 1, sc1);
        assert(m[i as int].0 + v_display(m[i as int].1) + entries_text(m, i as int + 1)
            == entries_text(m, i as int));
    }
}

proof fn lemma_for_list_index<FM: FuncManager>(fm: FM, tms: TempsV, depth: nat, k: Seq<char>, v: Seq<char>, l: Seq<VData>, i: nat, sc: ScopeV)
    requires
        sc.frames.len() > 0,
        k != v,
        i <= l.len(),
        l.len() <= usize::MAX,
    ensures
        sem_for_list(fm, tms, depth, k, v, l, i, key_value_body(k, v), sc).0 == Ok::<Seq<char>, ()>(indexed_text(l, i as int)),
    decreases l.len() - i,
{
    if i < l.len() {
        let x = VData::UInt(i as usize);
        let sc1 = scope_set(scope_set(sc, k, x), v, l[i as int]);
        lemma_key_value_block(fm, tms, depth, k, v, x, l[i as int], sc);
        lemma_for_list_index(fm, tms, depth, k, v, l, i + 1, sc1);
        assert(v_display(x) == nat_text(i as nat));
    }
}

/// `{{for k v in map}}{{$k}}{{$v}}{{/for}}` prints each key followed by its value, entry after
/// entry: the key variable is bound to the entry's key and the value variable to its value.
pub proof fn law_for_map_binds_keys<FM: FuncManager>(fm: FM, tms: TempsV, depth: nat, k: Seq<char>, v: Seq<char>, m: Seq<(Seq<char>, VData)>, sc: ScopeV)
    requires
        sc.frames.len() > 0,
        k != v,
    ensures
        sem_item(fm, tms, depth, VItem::For { k, v, p: VPipe::Lit(VData::Dict(m)), b: key_value_body(k, v) }, sc).0
            == Ok::<Seq<char>, ()>(entries_text(m, 0)),
{
    lemma_for_dict_keys(fm, tms, depth, k, v, m, 0, sc);
}

/// `{{for k v in list}}{{$k}}{{$v}}{{/for}}` prints each position (from 0) followed by its
/// element: the key variable is bound to the position and the value variable to the element.
pub proof fn law_for_list_binds_positions<FM: FuncManager>(fm: FM, tms: TempsV, depth: nat, k: Seq<char>, v: Seq<char>, l: Seq<VData>, sc: ScopeV)
    requires
        sc.frames.len() > 0,
        k != v,
        l.len() <= usize::MAX,
    ensures
        sem_item(fm, tms, depth, VItem::For { k, v, p: VPipe::Lit(VData::List(l)), b: key_value_body(k, v) }, sc).0
            == Ok::<Seq<char>, ()>(indexed_text(l, 0)),
{
    lemma_for_list_index(fm, tms, depth, k, v, l, 0, sc);
}

/// `{{for k v in list}}{{$v}}{{/for}}` prints the elements of the list one after another.
pub proof fn law_for_prints_each<FM: FuncManager>(fm: FM, tms: TempsV, depth: nat, k: Seq<char>, v: Seq<char>, l: Seq<VData>, sc: ScopeV)
    requires
        sc.frames.len() > 0,
    ensures
        sem_item(fm, tms, depth, VItem::For {
            k,
            v,
            p: VPipe::Lit(VData::List(l)),
            b: seq![VItem::Pipe(VPipe::Var(seq![VPart::Id(v)]))],
        }, sc).0 == Ok::<Seq<char>, ()>(concat_display(l)),
{
    lemma_for_each(fm, tms, depth, k, v, l, 0, sc);
    assert(l.subrange(0, l.len() as int) =~= l);
}

} // verus!

verus! {

/// Whether a text has no braces and no backslashes: nothing in it can start a tag or an escape.
pub open spec fn plain_text(s: Seq<char>) -> bool {
    forall|i: int| 0 <= i < s.len() ==> s[i] != '{' && s[i] != '\\'
}

proof fn lemma_text_end(s: Seq<char>, i: int)
    requires
        0 <= i <= s.len(),
    ensures
        i <= text_end(s, i) <= s.len(),
    decreases s.len() - i,
{
    if 0 <= i < s.len() && !is_wn(s[i]) && s[i] != '{' && s[i] != '\\' {
        lemma_text_end(s, i + 1);
    }
}

proof fn lemma_no_open(s: Seq<char>, j: int)
    requires
        plain_text(s),
        0 <= j <= s.len(),
    ensures
        iopen_s(s, j) is None,
{
    let q = skip_wn(s, j);
    lemma_skip_wn(s, j);
    if has_tag(s, q, seq!['{', '{', '-']) {
        assert(s.subrange(q, q + 3)[0] == s[q]);
    }
    if has_tag(s, j, seq!['{', '{']) {
        assert(s.subrange(j, j + 2)[0] == s[j]);
    }
}

proof fn lemma_strings_plain(s: Seq<char>, i: int)
    requires
        plain_text(s),
        0 <= i < s.len(),
    ensures
        strings_s(s, i) == Some((s.subrange(i, s.len() as int), s.len() as int)),
    decreases s.len() - i,
{
    let j = if is_wn(s[i]) { skip_wn(s, i) } else { text_end(s, i) };
    lemma_skip_wn(s, i + 1);
    lemma_text_end(s, i + 1);
    assert(string_item_s(s, i) == Some((s.subrange(i, j), j)));
    assert(j > i && j <= s.len());
    if j < s.len() {
        lemma_no_open(s, j);
        lemma_strings_plain(s, j);
        assert(s.subrange(i, j) + s.subrange(j, s.len() as int) =~= s.subrange(i, s.len() as int));
    }
}

/// A non-empty text with no braces and no backslashes is read as one text run, which becomes
/// one text item of the tree, and running the template prints the text and exports nothing.
pub proof fn law_plain_text_prints_itself<FM: FuncManager>(fm: FM, tms: TempsV, depth: nat, s: Seq<char>, params: Seq<VData>)
    requires
        s.len() > 0,
        plain_text(s),
    ensures
        file_s(s, 0) == Some(seq![VFlat::String(s)]),
        block_s(seq![VFlat::String(s)], 0, Ender::Nothing) == Ok::<(Seq<VItem>, int), Seq<char>>((seq![VItem::String(s)], 1)),
        sem_run(fm, tms, depth, seq![VItem::String(s)], params)
            == Ok::<(Seq<char>, Seq<(Seq<char>, VData)>), ()>((s, seq![])),
{
    lemma_no_open(s, 0);
    lemma_strings_plain(s, 0);
    assert(s.subrange(0, s.len() as int) =~= s);
    assert(file_s(s, s.len() as int) == Some(Seq::<VFlat>::empty()));
    assert(seq![VFlat::String(s)] + Seq::<VFlat>::empty() =~= seq![VFlat::String(s)]);
    let f = seq![VFlat::String(s)];
    assert(item_s(f, 0) == Ok::<(VItem, int), Seq<char>>((VItem::String(s), 1)));
    assert(block_s(f, 1, Ender::Nothing) == Ok::<(Seq<VItem>, int), Seq<char>>((seq![], 1)));
    assert(seq![VItem::String(s)] + Seq::<VItem>::empty() =~= seq![VItem::String(s)]);
    lemma_items_one(fm, tms, depth, VItem::String(s), scope_new(params, depth));
}

/// Whitespace skipping stops at the first character that is not whitespace.
proof fn lemma_skip_wn_stops(s: Seq<char>, i: int, e: int)
    requires
        0 <= i <= e < s.len(),
        !is_wn(s[e]),
    ensures
        skip_wn(s, i) <= e,
    decreases e - i,
{
    if i < e && is_wn(s[i]) {
        lemma_skip_wn_stops(s, i + 1, e);
    }
}

/// A run of plain characters stops at the first character that is not one.
proof fn lemma_text_end_stops(s: Seq<char>, i: int, e: int)
    requires
        0 <= i <= e < s.len(),
        s[e] == '\\',
    ensures
        text_end(s, i) <= e,
    decreases e - i,
{
    if i < e && !is_wn(s[i]) && s[i] != '{' && s[i] != '\\' {
        lemma_text_end_stops(s, i + 1, e);
    }
}

/// Whitespace skipping passes over a whole run of whitespace.
proof fn lemma_skip_wn_run(s: Seq<char>, i: int, e: int)
    requires
        0 <= i <= e <= s.len(),
        forall|t: int| i <= t < e ==> is_wn(s[t]),
        e == s.len() || !is_wn(s[e]),
    ensures
        skip_wn(s, i) == e,
    decreases e - i,
{
    if i < e {
        lemma_skip_wn_run(s, i + 1, e);
    }
}

/// Plain characters up to a backslash are read as they stand, followed by what is read from
/// the backslash on.
proof fn lemma_strings_upto(s: Seq<char>, i: int, e: int)
    requires
        0 <= i < e < s.len(),
        forall|t: int| i <= t < e ==> s[t] != '{' && s[t] != '\\',
        s[e] == '\\',
        strings_s(s, e) is Some,
    ensures
        strings_s(s, i) == Some((s.subrange(i, e) + strings_s(s, e)->Some_0.0, strings_s(s, e)->Some_0.1)),
    decreases e - i,
{
    let j = if is_wn(s[i]) { skip_wn(s, i) } else { text_end(s, i) };
    lemma_skip_wn(s, i + 1);
    lemma_text_end(s, i + 1);
    lemma_skip_wn_stops(s, i, e);
    lemma_text_end_stops(s, i, e);
    assert(string_item_s(s, i) == Some((s.subrange(i, j), j)));
    assert(i < j <= e);
    let q = skip_wn(s, j);
    lemma_skip_wn_stops(s, j, e);
    lemma_skip_wn(s, j);
    assert(s[q] != '{');
    if has_tag(s, q, seq!['{', '{', '-']) {
        assert(s.subrange(q, q + 3)[0] == s[q]);
    }
    if has_tag(s, j, seq!['{', '{']) {
        assert(s.subrange(j, j + 2)[0] == s[j]);
    }
    assert(iopen_s(s, j) is None);
    if j < e {
        lemma_strings_upto(s, j, e);
        assert(s.subrange(i, j) + (s.subrange(j, e) + strings_s(s, e)->Some_0.0)
            =~= s.subrange(i, e) + strings_s(s, e)->Some_0.0);
    }
}

/// Whitespace escaped by a backslash vanishes: text, a backslash, a run of whitespace and
/// more text (not starting with whitespace) is read as the two texts joined, and prints them.
pub proof fn law_escaped_whitespace_vanishes<FM: FuncManager>(fm: FM, tms: TempsV, depth: nat, a: Seq<char>, w: Seq<char>, b: Seq<char>, params: Seq<VData>)
    requires
        plain_text(a),
        plain_text(b),
        w.len() > 0,
        forall|t: int| 0 <= t < w.len() ==> is_wn(#[trigger] w[t]),
        b.len() == 0 || !is_wn(b[0]),
    ensures
        file_s(a + seq!['\\'] + w + b, 0) == Some(seq![VFlat::String(a + b)]),
        sem_run(fm, tms, depth, seq![VItem::String(a + b)], params)
            == Ok::<(Seq<char>, Seq<(Seq<char>, VData)>), ()>((a + b, seq![])),
{
    let s = a + seq!['\\'] + w + b;
    let e = a.len() as int;
    let k = e + 1 + w.len();
    assert(s[e] == '\\');
    assert forall|t: int| e + 1 <= t < k implies is_wn(s[t]) by {
        assert(s[t] == w[t - e - 1]);
    }
    if b.len() > 0 {
        assert(s[k] == b[0]);
    }
    lemma_skip_wn_run(s, e + 1, k);
    assert(!char_at(s, k, '\\'));
    assert(string_item_s(s, e) == Some((Seq::<char>::empty(), k)));
    let rest = if k < s.len() { b } else { Seq::<char>::empty() };
    if k < s.len() {
        let q = skip_wn(s, k);
        assert(q == k);
        assert(s[k] != '{');
        if has_tag(s, k, seq!['{', '{', '-']) {
            assert(s.subrange(k, k + 3)[0] == s[k]);
        }
        if has_tag(s, k, seq!['{', '{']) {
            assert(s.subrange(k, k + 2)[0] == s[k]);
        }
        assert(iopen_s(s, k) is None);
        let sb = s.subrange(k, s.len() as int);
        assert(sb =~= b);
        assert forall|t: int| k <= t < s.len() implies s[t] != '{' && s[t] != '\\' by {
            assert(s[t] == b[t - k]);
        }
        lemma_strings_tail(s, k);
        assert(strings_s(s, e) == Some((Seq::<char>::empty() + b, s.len() as int)));
    } else {
        assert(strings_s(s, e) == Some((Seq::<char>::empty(), s.len() as int)));
    }
    assert(Seq::<char>::empty() + b =~= b);
    assert(strings_s(s, e) == Some((rest, s.len() as int)));
    assert(rest == b);
    if e > 0 {
        assert forall|t: int| 0 <= t < e implies s[t] != '{' && s[t] != '\\' by {
            assert(s[t] == a[t]);
        }
        lemma_strings_upto(s, 0, e);
        assert(s.subrange(0, e) =~= a);
        let q = skip_wn(s, 0);
        lemma_skip_wn_stops(s, 0, e);
        assert(s[q] != '{');
        if has_tag(s, q, seq!['{', '{', '-']) {
            assert(s.subrange(q, q + 3)[0] == s[q]);
        }
        if has_tag(s, 0, seq!['{', '{']) {
            assert(s.subrange(0, 2)[0] == s[0]);
        }
    } else {
        assert(a =~= Seq::<char>::empty());
        if has_tag(s, 0, seq!['{', '{', '-']) {
            assert(s.subrange(0, 3)[0] == s[0]);
        }
        if has_tag(s, 0, seq!['{', '{']) {
            assert(s.subrange(0, 2)[0] == s[0]);
        }
    }
    assert(iopen_s(s, 0) is None);
    assert(strings_s(s, 0) == Some((a + b, s.len() as int)));
    assert(crate::grammar::item_s(s, 0) == Some((VFlat::String(a + b), s.len() as int)));
    assert(file_s(s, s.len() as int) == Some(Seq::<VFlat>::empty()));
    assert(seq![VFlat::String(a + b)] + Seq::<VFlat>::empty() =~= seq![VFlat::String(a + b)]);
    lemma_items_one(fm, tms, depth, VItem::String(a + b), scope_new(params, depth));
}

/// Plain characters to the end of the text are read as they stand.
proof fn lemma_strings_tail(s: Seq<char>, i: int)
    requires
        0 <= i < s.len(),
        forall|t: int| i <= t < s.len() ==> s[t] != '{' && s[t] != '\\',
    ensures
        strings_s(s, i) == Some((s.subrange(i, s.len() as int), s.len() as int)),
    decreases s.len() - i,
{
    let j = if is_wn(s[i]) { skip_wn(s, i) } else { text_end(s, i) };
    lemma_skip_wn(s, i + 1);
    lemma_text_end(s, i + 1);
    assert(string_item_s(s, i) == Some((s.subrange(i, j), j)));
    assert(j > i && j <= s.len());
    if j < s.len() {
        let q = skip_wn(s, j);
        lemma_skip_wn(s, j);
        if q < s.len() {
            assert(s[q] != '{');
        }
        if has_tag(s, q, seq!['{', '{', '-']) {
            assert(s.subrange(q, q + 3)[0] == s[q]);
        }
        if has_tag(s, j, seq!['{', '{']) {
            assert(s.subrange(j, j + 2)[0] == s[j]);
        }
        assert(iopen_s(s, j) is None);
        lemma_strings_tail(s, j);
        assert(s.subrange(i, j) + s.subrange(j, s.len() as int) =~= s.subrange(i, s.len() as int));
    }
}

} // verus!

verus! {

/// Joining pieces with a separator, first piece first.
pub proof fn lemma_join_cons(x: Seq<char>, r: Seq<Seq<char>>, sep: Seq<char>)
    requires
        r.len() > 0,
    ensures
        join_seqs(seq![x] + r, sep) == x + sep + join_seqs(r, sep),
    decreases r.len(),
{
    let t = seq![x] + r;
    assert(t.subrange(0, t.len() - 1) =~= seq![x] + r.subrange(0, r.len() - 1));
    assert(t[t.len() - 1] == r[r.len() - 1]);
    if r.len() == 1 {
        assert(r.subrange(0, 0) =~= Seq::<Seq<char>>::empty());
        assert(seq![x] + r.subrange(0, 0) =~= seq![x]);
        assert(join_seqs(seq![x], sep) == x);
        assert(join_seqs(r, sep) == r[0]);
    } else {
        lemma_join_cons(x, r.subrange(0, r.len() - 1), sep);
        assert(x + sep + join_seqs(r.subrange(0, r.len() - 1), sep) + sep + r[r.len() - 1]
            =~= x + sep + (join_seqs(r.subrange(0, r.len() - 1), sep) + sep + r[r.len() - 1]));
    }
}

proof fn lemma_find_occurs(s: Seq<char>, p: Seq<char>, i: int)
    requires
        0 <= i,
    ensures
        find_from(s, p, i) >= 0 ==> (find_from(s, p, i) >= i && occurs_at(s, p, find_from(s, p, i))),
    decreases s.len() + 1 - i,
{
    if i + p.len() <= s.len() && !occurs_at(s, p, i) {
        lemma_find_occurs(s, p, i + 1);
    }
}

proof fn lemma_split_join_from(s: Seq<char>, p: Seq<char>, i: int)
    requires
        p.len() > 0,
        0 <= i <= s.len(),
    ensures
        split_from(s, p, i).len() > 0,
        join_seqs(split_from(s, p, i), p) == s.subrange(i, s.len() as int),
    decreases s.len() + 1 - i,
{
    let j = find_from(s, p, i);
    lemma_find_occurs(s, p, i);
    if j < i || j + p.len() > s.len() {
        assert(join_seqs(seq![s.subrange(i, s.len() as int)], p) == s.subrange(i, s.len() as int));
    } else {
        lemma_split_join_from(s, p, j + p.len());
        let x = s.subrange(i, j);
        let rest = split_from(s, p, j + p.len());
        lemma_join_cons(x, rest, p);
        assert(s.subrange(j, j + p.len()) == p);
        assert(x + p + s.subrange(j + p.len(), s.len() as int) =~= s.subrange(i, s.len() as int));
    }
}

/// Joining the pieces that a text is split into, with the (non-empty) separator between them,
/// gives back the text.
pub proof fn law_split_then_join(s: Seq<char>, p: Seq<char>)
    requires
        p.len() > 0,
    ensures
        join_seqs(split_pieces(s, p), p) == s,
{
    lemma_split_join_from(s, p, 0);
    assert(s.subrange(0, s.len() as int) =~= s);
}

/// Whether `p` stands anywhere in `x`.
pub open spec fn holds_text(x: Seq<char>, p: Seq<char>) -> bool {
    exists|t: int| occurs_at(x, p, t)
}

proof fn lemma_find_first(s: Seq<char>, p: Seq<char>, i: int, m: int)
    requires
        0 <= i <= m,
        find_from(s, p, i) < 0 || m < find_from(s, p, i),
    ensures
        !occurs_at(s, p, m),
    decreases s.len() + 1 - i,
{
    if i + p.len() <= s.len() && !occurs_at(s, p, i) && i < m {
        lemma_find_first(s, p, i + 1, m);
    }
}

proof fn lemma_split_no_sep_from(s: Seq<char>, p: Seq<char>, i: int)
    requires
        p.len() > 0,
        0 <= i <= s.len(),
    ensures
        forall|k: int| 0 <= k < split_from(s, p, i).len() ==> !holds_text(#[trigger] split_from(s, p, i)[k], p),
    decreases s.len() + 1 - i,
{
    let j = find_from(s, p, i);
    lemma_find_occurs(s, p, i);
    let r = split_from(s, p, i);
    let x = if j < i || j + p.len() > s.len() { s.subrange(i, s.len() as int) } else { s.subrange(i, j) };
    assert(r[0] == x);
    assert(!holds_text(x, p)) by {
        if holds_text(x, p) {
            let t = choose|t: int| occurs_at(x, p, t);
            assert(x.subrange(t, t + p.len()) =~= s.subrange(i + t, i + t + p.len()));
            assert(occurs_at(s, p, i + t));
            lemma_find_first(s, p, i, i + t);
        }
    }
    if !(j < i || j + p.len() > s.len()) {
        lemma_split_no_sep_from(s, p, j + p.len());
        let rest = split_from(s, p, j + p.len());
        assert forall|k: int| 0 <= k < r.len() implies !holds_text(#[trigger] r[k], p) by {
            if k > 0 {
                assert(r[k] == rest[k - 1]);
            }
        }
    }
}

/// Splitting a text on a non-empty separator and joining the pieces with it gives the text
/// back, and no piece holds the separator: stated over what `split` and `join_with` give.
pub proof fn law_split_then_join_with(s: Seq<char>, p: Seq<char>)
    requires
        p.len() > 0,
    ensures
        split_s(seq![VData::String(s), VData::String(p)]) == Ok::<VData, ()>(VData::List(text_list(split_pieces(s, p)))),
        join_with_s(seq![VData::String(p), VData::List(text_list(split_pieces(s, p)))]) == Ok::<VData, ()>(VData::String(s)),
        forall|k: int| 0 <= k < split_pieces(s, p).len() ==> !holds_text(#[trigger] split_pieces(s, p)[k], p),
{
    law_split_then_join(s, p);
    lemma_split_no_sep_from(s, p, 0);
    let ps = split_pieces(s, p);
    let a = seq![VData::String(s), VData::String(p)];
    assert(a[1] is String && a[1]->String_0 == p);
    assert(text_list(ps).map_values(|d: VData| v_display(d)) =~= ps);
}

/// `split` with only a text, or with a second argument that is not a text, cuts the text at
/// new lines: it gives what splitting at `"\n"` gives, no piece holds a new line, and joining
/// the pieces with new lines gives the text back.
pub proof fn law_split_defaults_to_lines(s: Seq<char>, y: VData)
    ensures
        split_s(seq![VData::String(s)]) == split_s(seq![VData::String(s), VData::String(seq!['\n'])]),
        !(y is String) ==> split_s(seq![VData::String(s), y]) == split_s(seq![VData::String(s)]),
        split_s(seq![VData::String(s)]) == Ok::<VData, ()>(VData::List(text_list(split_pieces(s, seq!['\n'])))),
        forall|k: int| 0 <= k < split_pieces(s, seq!['\n']).len()
            ==> !holds_text(#[trigger] split_pieces(s, seq!['\n'])[k], seq!['\n']),
        join_seqs(split_pieces(s, seq!['\n']), seq!['\n']) == s,
{
    law_split_then_join_with(s, seq!['\n']);
    law_split_then_join(s, seq!['\n']);
    let a = seq![VData::String(s), VData::String(seq!['\n'])];
    assert(a[1] is String && a[1]->String_0 == seq!['\n']);
    assert(seq![VData::String(s)][0] == VData::String(s));
    assert(seq![VData::String(s), y][0] == VData::String(s));
    assert(seq![VData::String(s), y][1] == y);
}

proof fn lemma_replace_from(s: Seq<char>, p: Seq<char>, r: Seq<char>, i: int)
    requires
        p.len() > 0,
        0 <= i <= s.len(),
    ensures
        replace_from(s, p, r, i) == join_seqs(split_from(s, p, i), r),
    decreases s.len() + 1 - i,
{
    let j = find_from(s, p, i);
    lemma_find_occurs(s, p, i);
    if j < i || j + p.len() > s.len() {
        assert(join_seqs(seq![s.subrange(i, s.len() as int)], r) == s.subrange(i, s.len() as int));
    } else {
        lemma_replace_from(s, p, r, j + p.len());
        lemma_split_join_from(s, p, j + p.len());
        lemma_join_cons(s.subrange(i, j), split_from(s, p, j + p.len()), r);
    }
}

/// `str_replace` with a non-empty pattern is splitting at the pattern and joining the pieces
/// with the replacement: every occurrence, taken from the left without overlap, is replaced.
pub proof fn law_replace_is_split_then_join(s: Seq<char>, p: Seq<char>, r: Seq<char>)
    requires
        p.len() > 0,
    ensures
        replace_s(seq![VData::String(s), VData::String(p), VData::String(r)])
            == Ok::<VData, ()>(VData::String(join_seqs(split_pieces(s, p), r))),
{
    lemma_replace_from(s, p, r, 0);
    let a = seq![VData::String(s), VData::String(p), VData::String(r)];
    assert(a[0] == VData::String(s) && a[1] == VData::String(p) && a[2] == VData::String(r));
}

/// `str_contains` on two texts tells whether the second stands anywhere in the first.
pub proof fn law_contains_finds(s: Seq<char>, p: Seq<char>)
    ensures
        contains_s(seq![VData::String(s), VData::String(p)]) == Ok::<VData, ()>(VData::Bool(holds_text(s, p))),
{
    let a = seq![VData::String(s), VData::String(p)];
    assert(a[0] == VData::String(s) && a[1] == VData::String(p));
    lemma_find_occurs(s, p, 0);
    if holds_text(s, p) {
        let t = choose|t: int| occurs_at(s, p, t);
        if find_from(s, p, 0) < 0 {
            lemma_find_first(s, p, 0, t);
        }
        assert(find_from(v_display(a[0]), v_display(a[1]), 0) >= 0);
    } else {
        if find_from(s, p, 0) >= 0 {
            assert(occurs_at(s, p, find_from(s, p, 0)));
        }
    }
}

/// `cat` of two texts is the first followed by the second.
pub proof fn law_cat_joins(a: Seq<char>, b: Seq<char>)
    ensures
        concat_display(seq![VData::String(a), VData::String(b)]) == a + b,
{
    let l = seq![VData::String(a), VData::String(b)];
    assert(l.drop_last() =~= seq![VData::String(a)]);
    assert(seq![VData::String(a)].drop_last() =~= Seq::<VData>::empty());
    assert(seq![VData::String(a)].last() == VData::String(a));
    assert(l.last() == VData::String(b));
    assert(concat_display(Seq::<VData>::empty()) == Seq::<char>::empty());
    assert(concat_display(seq![VData::String(a)]) =~= a);
}

/// `select` picks among its later arguments by its first: true picks the first of them, false
/// the second, a number `n` the one after `n` others, and a number past them all fails.
/// `first` gives the first argument that is not null.
pub proof fn law_select_and_first<FM: FuncManager>(fm: FM, tms: TempsV, depth: nat, x: VData, y: VData, n: usize, sc: ScopeV)
    ensures
        sem_command(fm, tms, depth, select_name(), seq![VPipe::Lit(VData::Bool(true)), VPipe::Lit(x), VPipe::Lit(y)], sc) == Ok::<VData, ()>(x),
        sem_command(fm, tms, depth, select_name(), seq![VPipe::Lit(VData::Bool(false)), VPipe::Lit(x), VPipe::Lit(y)], sc) == Ok::<VData, ()>(y),
        n == 0 ==> sem_command(fm, tms, depth, select_name(), seq![VPipe::Lit(VData::UInt(n)), VPipe::Lit(x), VPipe::Lit(y)], sc) == Ok::<VData, ()>(x),
        n == 1 ==> sem_command(fm, tms, depth, select_name(), seq![VPipe::Lit(VData::UInt(n)), VPipe::Lit(x), VPipe::Lit(y)], sc) == Ok::<VData, ()>(y),
        n >= 2 ==> sem_command(fm, tms, depth, select_name(), seq![VPipe::Lit(VData::UInt(n)), VPipe::Lit(x), VPipe::Lit(y)], sc) is Err,
        sem_command(fm, tms, depth, first_name(), seq![VPipe::Lit(VData::Null), VPipe::Lit(x)], sc) == Ok::<VData, ()>(if x == VData::Null { VData::Null } else { x }),
        x != VData::Null ==> sem_command(fm, tms, depth, first_name(), seq![VPipe::Lit(x), VPipe::Lit(y)], sc) == Ok::<VData, ()>(x),
{
    assert(select_name() != run_name());
    assert(first_name() != run_name());
    assert(select_name() != first_name());
    let t = seq![VPipe::Lit(VData::Bool(true)), VPipe::Lit(x), VPipe::Lit(y)];
    let f = seq![VPipe::Lit(VData::Bool(false)), VPipe::Lit(x), VPipe::Lit(y)];
    let u = seq![VPipe::Lit(VData::UInt(n)), VPipe::Lit(x), VPipe::Lit(y)];
    assert(t[0] == VPipe::Lit(VData::Bool(true)) && t[1] == VPipe::Lit(x) && t[2] == VPipe::Lit(y));
    assert(f[0] == VPipe::Lit(VData::Bool(false)) && f[1] == VPipe::Lit(x) && f[2] == VPipe::Lit(y));
    assert(u[0] == VPipe::Lit(VData::UInt(n)) && u[1] == VPipe::Lit(x) && u[2] == VPipe::Lit(y));
    let a = seq![VPipe::Lit(VData::Null), VPipe::Lit(x)];
    assert(a[0] == VPipe::Lit(VData::Null) && a[1] == VPipe::Lit(x));
    assert(sem_first(fm, tms, depth, a, 2, sc) == Ok::<VData, ()>(VData::Null));
    assert(sem_first(fm, tms, depth, a, 1, sc) == Ok::<VData, ()>(if x == VData::Null { VData::Null } else { x })) by {
        if x == VData::Null {
            assert(crate::tdata::v_eq(x, VData::Null));
        } else {
            assert(!crate::tdata::v_eq(x, VData::Null));
        }
    }
    assert(crate::tdata::v_eq(VData::Null, VData::Null));
    let b = seq![VPipe::Lit(x), VPipe::Lit(y)];
    assert(b[0] == VPipe::Lit(x));
    if x != VData::Null {
        assert(!crate::tdata::v_eq(x, VData::Null));
    }
}

/// The elements of a list of lists, one list after another.
pub open spec fn flatten_lists(s: Seq<VData>) -> Seq<VData>
    decreases s.len(),
{
    if s.len() == 0 {
        seq![]
    } else {
        let head = match s[0] {
            VData::List(l) => l,
            v => seq![v],
        };
        head + flatten_lists(s.drop_first())
    }
}

/// Putting the groups of a list back together gives the list.
pub proof fn law_groups_flatten(l: Seq<VData>, g: nat)
    requires
        g >= 1,
    ensures
        flatten_lists(chunks(l, g)) == l,
    decreases l.len(),
{
    assert(flatten_lists(Seq::<VData>::empty()) == Seq::<VData>::empty());
    if l.len() == 0 {
        assert(l =~= Seq::<VData>::empty());
    } else if l.len() <= g {
        assert(chunks(l, g) == seq![VData::List(l)]);
        assert(seq![VData::List(l)].drop_first() =~= Seq::<VData>::empty());
        assert(l + Seq::<VData>::empty() =~= l);
    } else {
        law_groups_flatten(l.skip(g as int), g);
        let c = seq![VData::List(l.take(g as int))] + chunks(l.skip(g as int), g);
        assert(c[0] == VData::List(l.take(g as int)));
        assert(c.drop_first() =~= chunks(l.skip(g as int), g));
        assert(chunks(l, g) == c);
        assert(l.take(g as int) + l.skip(g as int) =~= l);
    }
}

/// A non-empty list cut into groups of `g` gives `(len - 1) / g + 1` groups, each holding
/// `g` elements but the last, which holds the rest (at least one).
pub proof fn law_groups_count(l: Seq<VData>, g: nat)
    requires
        g >= 1,
        l.len() > 0,
    ensures
        chunks(l, g).len() == (l.len() - 1) / (g as int) + 1,
        forall|i: int| 0 <= i < chunks(l, g).len() - 1 ==> (#[trigger] chunks(l, g)[i] matches VData::List(x) && x.len() == g),
        chunks(l, g).last() matches VData::List(x) && 1 <= x.len() <= g,
    decreases l.len(),
{
    if l.len() > g {
        let r = l.skip(g as int);
        law_groups_count(r, g);
        let c = seq![VData::List(l.take(g as int))] + chunks(r, g);
        assert(chunks(l, g) == c);
        assert((l.len() - 1) / (g as int) == (r.len() - 1) / (g as int) + 1) by (nonlinear_arith)
            requires
                r.len() == l.len() - g,
                r.len() >= 1,
                g >= 1,
        ;
        assert forall|i: int| 0 <= i < c.len() - 1 implies (#[trigger] c[i] matches VData::List(x) && x.len() == g) by {
            if i > 0 {
                assert(c[i] == chunks(r, g)[i - 1]);
            }
        }
    } else {
        assert((l.len() - 1) / (g as int) == 0) by (nonlinear_arith)
            requires
                l.len() <= g,
                l.len() >= 1,
        ;
    }
}

/// Text escaped for HTML holds no `<` and no `>`.
pub proof fn law_html_escape_has_no_tags(t: Seq<char>)
    ensures
        forall|i: int| 0 <= i < html_text(t).len() ==> html_text(t)[i] != '<' && html_text(t)[i] != '>',
    decreases t.len(),
{
    reveal_strlit("&amp;");
    reveal_strlit("&lt;");
    reveal_strlit("&gt;");
    reveal_strlit("&quot;");
    reveal_strlit("&#39;");
    if t.len() > 0 {
        law_html_escape_has_no_tags(t.drop_last());
        let a = html_text(t.drop_last());
        let b = html_char(t.last());
        assert forall|i: int| 0 <= i < b.len() implies b[i] != '<' && b[i] != '>' by {
            let c = t.last();
            if c == '&' { assert("&amp;"@ =~= seq!['&', 'a', 'm', 'p', ';']); }
            else if c == '<' { assert("&lt;"@ =~= seq!['&', 'l', 't', ';']); }
            else if c == '>' { assert("&gt;"@ =~= seq!['&', 'g', 't', ';']); }
            else if c == '"' { assert("&quot;"@ =~= seq!['&', 'q', 'u', 'o', 't', ';']); }
            else if c == '\'' { assert("&#39;"@ =~= seq!['&', '#', '3', '9', ';']); }
        }
        assert forall|i: int| 0 <= i < (a + b).len() implies (a + b)[i] != '<' && (a + b)[i] != '>' by {
            if i < a.len() {
                assert((a + b)[i] == a[i]);
            } else {
                assert((a + b)[i] == b[i - a.len()]);
            }
        }
    }
}

} // verus!
