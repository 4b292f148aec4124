//! Sorting lists, and searching sorted lists, by the order of values or by criteria.
use vstd::prelude::*;
use core::cmp::Ordering;
use crate::err::{ea_str, Error};
use crate::eval::data_agrees;
use crate::grammar::comparator_s;
use crate::num::{nz, uz, zu};
use crate::order::{data_order, flip_order};
use crate::parse::read_comparator;
use crate::template::{path_v, VPart, VarPart};
use crate::tdata::{clone_data, data_v, datas_v, get_path_from, lemma_datas_v_index, lemma_datas_v_len, lemma_datas_v_map, v_get_path, TData, VData};

verus! {

/// A sort criterion: a path into each item, and whether the order is descending.
pub struct Comparator {
    pub down: bool,
    pub v: Vec<VarPart>,
}

/// The model of a [`Comparator`].
pub struct VComparator {
    pub down: bool,
    pub v: Seq<VPart>,
}

impl View for Comparator {
    type V = VComparator;

    open spec fn view(&self) -> VComparator {
        VComparator { down: self.down, v: path_v(self.v@) }
    }
}

/// The models of a sequence of criteria.
pub open spec fn comps_v(s: Seq<Comparator>) -> Seq<VComparator> {
    s.map_values(|c: Comparator| c@)
}

/// The order of two values, `Equal` where they have none.
pub open spec fn value_order(a: VData, b: VData) -> Ordering {
    match data_order(a, b) {
        Some(o) => o,
        None => Ordering::Equal,
    }
}

/// An order, reversed when `down` holds.
pub open spec fn flip_when(o: Ordering, down: bool) -> Ordering {
    if down {
        flip_order(o)
    } else {
        o
    }
}

/// Reverses an order when `b` holds.
pub fn o_flip(o: Ordering, b: bool) -> (r: Ordering)
    ensures
        r == flip_when(o, b),
{
    match (o, b) {
        (Ordering::Greater, false) | (Ordering::Less, true) => Ordering::Greater,
        (Ordering::Equal, _) => Ordering::Equal,
        (Ordering::Greater, true) | (Ordering::Less, false) => Ordering::Less,
    }
}

/// The order one criterion gives two items: by the values at its path, an item that has one
/// after an item that has none, and by the items themselves where neither has one.
pub open spec fn criterion_order(c: VComparator, a: VData, b: VData) -> Ordering {
    flip_when(
        match (v_get_path(a, c.v), v_get_path(b, c.v)) {
            (Some(x), Some(y)) => value_order(x, y),
            (Some(_), None) => Ordering::Greater,
            (None, Some(_)) => Ordering::Less,
            (None, None) => value_order(a, b),
        },
        c.down,
    )
}

/// The order the first criterion that tells two items apart gives; `Equal` where none does.
pub open spec fn criteria_order(cs: Seq<VComparator>, a: VData, b: VData) -> Ordering
    decreases cs.len(),
{
    if cs.len() == 0 {
        Ordering::Equal
    } else if criterion_order(cs[0], a, b) != Ordering::Equal {
        criterion_order(cs[0], a, b)
    } else {
        criteria_order(cs.drop_first(), a, b)
    }
}

/// The order items are sorted by: that of the values themselves, or that of criteria.
pub open spec fn item_order(cs: Option<Seq<VComparator>>, a: VData, b: VData) -> Ordering {
    match cs {
        None => value_order(a, b),
        Some(c) => criteria_order(c, a, b),
    }
}

/// Whether `a` comes strictly before `b` in the order items are sorted by.
pub open spec fn precedes(cs: Option<Seq<VComparator>>, a: VData, b: VData) -> bool {
    item_order(cs, a, b) == Ordering::Less
}

/// A sorted sequence with `x` put after every element that it does not come before.
pub open spec fn inserted(s: Seq<VData>, x: VData, cs: Option<Seq<VComparator>>) -> Seq<VData>
    decreases s.len(),
{
    if s.len() == 0 {
        seq![x]
    } else if precedes(cs, x, s.last()) {
        inserted(s.drop_last(), x, cs).push(s.last())
    } else {
        s.push(x)
    }
}

/// A sequence stably sorted: each element in turn put after every earlier one it does not come
/// before. For an order that ranks all values consistently this is the one stable sort.
pub open spec fn sorted_items(s: Seq<VData>, cs: Option<Seq<VComparator>>) -> Seq<VData>
    decreases s.len(),
{
    if s.len() == 0 {
        seq![]
    } else {
        inserted(sorted_items(s.drop_last(), cs), s.last(), cs)
    }
}

/// The order of two values, `Equal` where they have none.
fn value_order_x(a: &TData, b: &TData) -> (r: Ordering)
    ensures
        r == value_order(a@, b@),
{
    match a.compare_values(b) {
        Some(o) => o,
        None => Ordering::Equal,
    }
}

/// The order one criterion gives two items.
fn criterion_order_x(c: &Comparator, a: &TData, b: &TData) -> (r: Ordering)
    ensures
        r == criterion_order(c@, a@, b@),
{
    assert(path_v(c.v@).skip(0) == path_v(c.v@));
    let o = match (get_path_from(a, c.v.as_slice(), 0), get_path_from(b, c.v.as_slice(), 0)) {
        (Some(x), Some(y)) => value_order_x(&x, &y),
        (Some(_), None) => Ordering::Greater,
        (None, Some(_)) => Ordering::Less,
        (None, None) => value_order_x(a, b),
    };
    o_flip(o, c.down)
}

/// The order the first criterion that tells two items apart gives.
fn criteria_order_x(cs: &Vec<Comparator>, a: &TData, b: &TData) -> (r: Ordering)
    ensures
        r == criteria_order(comps_v(cs@), a@, b@),
{
    let ghost all = comps_v(cs@);
    assert(all.skip(0) =~= all);
    let mut i: usize = 0;
    while i < cs.len()
        invariant
            i <= cs.len(),
            all == comps_v(cs@),
            criteria_order(all, a@, b@) == criteria_order(all.skip(uz(i)), a@, b@),
        decreases cs.len() - i,
    {
        let o = criterion_order_x(&cs[i], a, b);
        assert(all.skip(uz(i))[0] == cs@[uz(i)]@);
        assert(criteria_order(all.skip(uz(i)), a@, b@) == (if o != Ordering::Equal { o } else { criteria_order(all.skip(uz(i)).drop_first(), a@, b@) }));
        match o {
            Ordering::Equal => {},
            _ => { return o; },
        }
        assert(all.skip(uz(i)).drop_first() == all.skip(uz(i) + 1));
        i = i + 1;
    }
    assert(all.skip(uz(i)).len() == 0);
    Ordering::Equal
}

/// The order items are sorted by.
fn item_order_x(cs: &Option<Vec<Comparator>>, a: &TData, b: &TData) -> (r: Ordering)
    ensures
        r == item_order(opt_comps_v(*cs), a@, b@),
{
    match cs {
        None => value_order_x(a, b),
        Some(c) => criteria_order_x(c, a, b),
    }
}

/// Whether `a` comes strictly before `b` in the order items are sorted by.
fn comes_before(cs: &Option<Vec<Comparator>>, a: &TData, b: &TData) -> (r: bool)
    ensures
        r == precedes(opt_comps_v(*cs), a@, b@),
{
    let o = item_order_x(cs, a, b);
    match o {
        Ordering::Less => true,
        _ => false,
    }
}

/// The model of optional criteria.
pub open spec fn opt_comps_v(cs: Option<Vec<Comparator>>) -> Option<Seq<VComparator>> {
    match cs {
        None => None,
        Some(c) => Some(comps_v(c@)),
    }
}

proof fn lemma_datas_v_insert(s: Seq<TData>, k: int, x: TData)
    requires
        0 <= k <= s.len(),
    ensures
        datas_v(s.insert(k, x)) == datas_v(s).insert(k, data_v(x)),
{
    lemma_datas_v_map(s);
    lemma_datas_v_map(s.insert(k, x));
    assert(s.insert(k, x).map_values(|d: TData| data_v(d)) =~= s.map_values(|d: TData| data_v(d)).insert(k, data_v(x)));
}

/// Puts `x` into a sorted vector after every element that it does not come before.
fn insert_sorted(res: &mut Vec<TData>, x: TData, cs: &Option<Vec<Comparator>>)
    ensures
        datas_v(final(res)@) == inserted(datas_v(old(res)@), x@, opt_comps_v(*cs)),
{
    let ghost ds = datas_v(res@);
    let ghost c = opt_comps_v(*cs);
    proof { lemma_datas_v_len(res@); }
    let mut k: usize = res.len();
    assert(ds.take(k as int) =~= ds);
    assert(ds.skip(k as int) =~= Seq::<VData>::empty());
    loop
        invariant
            k <= res@.len(),
            ds == datas_v(res@),
            ds.len() == res@.len(),
            c == opt_comps_v(*cs),
            inserted(ds, x@, c) == inserted(ds.take(k as int), x@, c) + ds.skip(k as int),
        ensures
            k <= res@.len(),
            ds == datas_v(res@),
            ds.len() == res@.len(),
            inserted(ds, x@, c) == ds.take(k as int).push(x@) + ds.skip(k as int),
        decreases k,
    {
        if k == 0 {
            assert(inserted(ds.take(0), x@, c) == seq![x@]);
            assert(ds.take(0).push(x@) == seq![x@]);
            break;
        }
        proof { lemma_datas_v_index(res@, k - 1); }
        let b = comes_before(cs, &x, &res[k - 1]);
        assert(ds.take(k as int).last() == ds[k - 1]);
        assert(ds.take(k as int).drop_last() == ds.take(k - 1));
        if !b {
            break;
        }
        assert(seq![ds[k - 1]] + ds.skip(k as int) == ds.skip(k - 1));
        assert(inserted(ds.take(k - 1), x@, c).push(ds[k - 1]) + ds.skip(k as int)
            == inserted(ds.take(k - 1), x@, c) + ds.skip(k - 1));
        k = k - 1;
    }
    proof { lemma_datas_v_insert(res@, k as int, x); }
    res.insert(k, x);
    assert(ds.insert(k as int, x@) == ds.take(k as int).push(x@) + ds.skip(k as int));
}

/// The items stably sorted by the order given.
fn sort_items(l: &Vec<TData>, cs: &Option<Vec<Comparator>>) -> (r: Vec<TData>)
    ensures
        datas_v(r@) == sorted_items(datas_v(l@), opt_comps_v(*cs)),
{
    let ghost ds = datas_v(l@);
    proof { lemma_datas_v_len(l@); }
    let mut r: Vec<TData> = Vec::new();
    assert(datas_v(r@) == Seq::<VData>::empty());
    let mut i: usize = 0;
    while i < l.len()
        invariant
            i <= l.len(),
            ds == datas_v(l@),
            ds.len() == l.len(),
            datas_v(r@) == sorted_items(ds.take(i as int), opt_comps_v(*cs)),
        decreases l.len() - i,
    {
        proof { lemma_datas_v_index(l@, i as int); }
        assert(ds.take(i + 1).drop_last() == ds.take(i as int));
        assert(ds.take(i + 1).last() == ds[i as int]);
        insert_sorted(&mut r, clone_data(&l[i]), cs);
        i = i + 1;
    }
    assert(ds.take(l.len() as int) == ds);
    r
}

/// The items of the list values among the arguments, one list after another.
pub open spec fn list_items(a: Seq<VData>) -> Seq<VData>
    decreases a.len(),
{
    if a.len() == 0 {
        seq![]
    } else {
        match a.last() {
            VData::List(l) => list_items(a.drop_last()) + l,
            _ => list_items(a.drop_last()),
        }
    }
}

/// `sort`: the items of all the list arguments, stably sorted by the order of values.
pub open spec fn sort_s(a: Seq<VData>) -> VData {
    VData::List(sorted_items(list_items(a), None))
}

/// The items of all the list arguments, stably sorted by the order of values.
pub fn sort(args: &[TData]) -> (r: Result<TData, Error>)
    ensures
        r matches Ok(d) && d@ == sort_s(datas_v(args@)),
{
    let ghost a = datas_v(args@);
    proof { lemma_datas_v_len(args@); }
    let mut items: Vec<TData> = Vec::new();
    assert(datas_v(items@) == Seq::<VData>::empty());
    let mut i: usize = 0;
    while i < args.len()
        invariant
            i <= args.len(),
            a == datas_v(args@),
            a.len() == args.len(),
            datas_v(items@) == list_items(a.take(i as int)),
        decreases args.len() - i,
    {
        proof { lemma_datas_v_index(args@, i as int); }
        assert(a.take(i + 1).drop_last() == a.take(i as int));
        assert(a.take(i + 1).last() == a[i as int]);
        match &args[i] {
            TData::List(l) => {
                let ghost before = items@;
                proof { lemma_datas_v_len(l@); }
                let mut j: usize = 0;
                while j < l.len()
                    invariant
                        j <= l.len(),
                        datas_v(l@).len() == l.len(),
                        datas_v(items@) == datas_v(before) + datas_v(l@).take(j as int),
                    decreases l.len() - j,
                {
                    proof { lemma_datas_v_index(l@, j as int); }
                    let c = clone_data(&l[j]);
                    proof { crate::tdata::lemma_datas_v_push(items@, c); }
                    items.push(c);
                    assert(datas_v(l@).take(j + 1) == datas_v(l@).take(j as int).push(datas_v(l@)[j as int]));
                    j = j + 1;
                }
                assert(datas_v(l@).take(l.len() as int) == datas_v(l@));
            },
            _ => {},
        }
        i = i + 1;
    }
    assert(a.take(args.len() as int) == a);
    let none: Option<Vec<Comparator>> = None;
    Ok(TData::List(sort_items(&items, &none)))
}

/// The criteria read from texts; `None` where an argument is no text or no criterion.
pub open spec fn comparators_s(a: Seq<VData>) -> Option<Seq<VComparator>>
    decreases a.len(),
{
    if a.len() == 0 {
        Some(seq![])
    } else {
        match (comparators_s(a.drop_last()), a.last()) {
            (Some(cs), VData::String(t)) => match comparator_s(t) {
                Some((d, p)) => Some(cs.push(VComparator { down: d, v: p })),
                None => None,
            },
            _ => None,
        }
    }
}

/// Reads the criteria of `args` from position `from` on.
fn build_comparator(args: &[TData], from: usize) -> (r: Result<Vec<Comparator>, Error>)
    requires
        from <= args.len(),
    ensures
        match comparators_s(datas_v(args@).skip(from as int)) {
            Some(cs) => r matches Ok(v) && comps_v(v@) == cs,
            None => r is Err,
        },
{
    let ghost a = datas_v(args@).skip(from as int);
    proof { lemma_datas_v_len(args@); }
    let mut comps: Vec<Comparator> = Vec::new();
    assert(comps_v(comps@) =~= Seq::<VComparator>::empty());
    let mut i: usize = from;
    while i < args.len()
        invariant
            from <= i <= args.len(),
            datas_v(args@).len() == args.len(),
            a == datas_v(args@).skip(from as int),
            comparators_s(a.take(i - from)) == Some(comps_v(comps@)),
        decreases args.len() - i,
    {
        proof { lemma_datas_v_index(args@, i as int); }
        assert(a.take(i + 1 - from).drop_last() == a.take(i - from));
        assert(a.take(i + 1 - from).last() == datas_v(args@)[i as int]);
        match &args[i] {
            TData::String(t) => match read_comparator(t.as_str()) {
                Some((down, v)) => {
                    let c = Comparator { down, v };
                    comps.push(c);
                    assert(comps_v(comps@) =~= comps_v(comps@.drop_last()).push(c@));
                },
                None => {
                    proof { lemma_comparators_none(a, i + 1 - from); }
                    return Err(ea_str("Not a comparator string"));
                },
            },
            _ => {
                proof { lemma_comparators_none(a, i + 1 - from); }
                return Err(ea_str("Sort On must have strings for idents"));
            },
        }
        i = i + 1;
    }
    assert(a.take(args.len() - from) =~= a);
    Ok(comps)
}

/// Once a prefix of the arguments holds something that is no criterion, so do they all.
proof fn lemma_comparators_none(a: Seq<VData>, n: int)
    requires
        0 <= n <= a.len(),
        comparators_s(a.take(n)) is None,
    ensures
        comparators_s(a) is None,
    decreases a.len() - n,
{
    if n < a.len() {
        assert(a.take(n + 1).drop_last() == a.take(n));
        lemma_comparators_none(a, n + 1);
    } else {
        assert(a.take(n) == a);
    }
}

/// `sort_on`: the first argument's items stably sorted by the criteria in the texts after it.
pub open spec fn sort_on_s(a: Seq<VData>) -> Result<VData, ()> {
    if a.len() < 2 {
        Err(())
    } else {
        match comparators_s(a.skip(1)) {
            None => Err(()),
            Some(cs) => match a[0] {
                VData::List(l) => Ok(VData::List(sorted_items(l, Some(cs)))),
                _ => Err(()),
            },
        }
    }
}

/// The first argument's items stably sorted by the criteria in the texts after it.
pub fn sort_on(args: &[TData]) -> (r: Result<TData, Error>)
    ensures
        data_agrees(r, sort_on_s(datas_v(args@))),
{
    proof { lemma_datas_v_len(args@); }
    if args.len() < 2 {
        return Err(ea_str("Sort requires a List<Map> and then at least one string"));
    }
    let comps = match build_comparator(args, 1) {
        Ok(c) => c,
        Err(e) => { return Err(e); },
    };
    proof { lemma_datas_v_index(args@, 0); }
    match &args[0] {
        TData::List(l) => {
            let cs = Some(comps);
            Ok(TData::List(sort_items(l, &cs)))
        },
        _ => Err(ea_str("Sort requires a List<Map> and then at least one string")),
    }
}

/// The rank of an order: less, equal, greater.
pub open spec fn order_rank(o: Ordering) -> int {
    match o {
        Ordering::Less => 0,
        Ordering::Equal => 1,
        Ordering::Greater => 2,
    }
}

/// How a list's item compares to the item searched for.
pub open spec fn key_at(l: Seq<VData>, item: VData, cs: Seq<VComparator>, i: int) -> Ordering {
    criteria_order(cs, l[i], item)
}

/// Whether a list is sorted for a search: the items before the item searched for come first,
/// then those equal to it, then those after it.
pub open spec fn search_ready(l: Seq<VData>, item: VData, cs: Seq<VComparator>) -> bool {
    forall|i: int, j: int| 0 <= i <= j < l.len() ==>
        order_rank(#[trigger] key_at(l, item, cs, i)) <= order_rank(#[trigger] key_at(l, item, cs, j))
}

/// Whether some item of the list compares equal to the item searched for.
pub open spec fn has_match(l: Seq<VData>, item: VData, cs: Seq<VComparator>) -> bool {
    exists|i: int| 0 <= i < l.len() && key_at(l, item, cs, i) == Ordering::Equal
}

/// Whether the position found by a search is right: it holds an item that compares equal;
/// and for a list sorted for the search, it is the first such item, and there is one
/// whenever the list has one.
pub open spec fn search_found(l: Seq<VData>, item: VData, cs: Seq<VComparator>, r: Option<int>) -> bool {
    &&& (r matches Some(n) ==> 0 <= n < l.len() && key_at(l, item, cs, n) == Ordering::Equal)
    &&& (search_ready(l, item, cs) ==> (r is Some <==> has_match(l, item, cs)))
    &&& (search_ready(l, item, cs) && r is Some ==> forall|j: int| 0 <= j < r->Some_0 ==> key_at(l, item, cs, j) != Ordering::Equal)
}

/// The first position from `lo` to `hi` that binary search takes for one that does not come
/// before the item searched for: it halves the range, keeping the upper half where the middle
/// item comes before it.
pub open spec fn lower_bound(l: Seq<VData>, item: VData, cs: Seq<VComparator>, lo: int, hi: int) -> int
    decreases hi - lo,
{
    if lo >= hi {
        lo
    } else {
        let mid = lo + (hi - lo) / 2;
        if key_at(l, item, cs, mid) == Ordering::Less {
            lower_bound(l, item, cs, mid + 1, hi)
        } else {
            lower_bound(l, item, cs, lo, mid)
        }
    }
}

/// The position a search reports: the one binary search stops at, where its item compares
/// equal to the item searched for.
pub open spec fn search_pos(l: Seq<VData>, item: VData, cs: Seq<VComparator>) -> Option<int> {
    let p = lower_bound(l, item, cs, 0, nz(l.len()));
    if p < l.len() && key_at(l, item, cs, p) == Ordering::Equal {
        Some(p)
    } else {
        None
    }
}

/// Searches a list by binary search for the first position that does not come before the
/// item; the position if its item compares equal.
fn search(l: &Vec<TData>, item: &TData, cs: &Vec<Comparator>) -> (r: Option<usize>)
    ensures
        search_found(datas_v(l@), item@, comps_v(cs@), match r { Some(n) => Some(uz(n)), None => None }),
        search_pos(datas_v(l@), item@, comps_v(cs@)) == match r { Some(n) => Some(uz(n)), None => None },
{
    let ghost ls = datas_v(l@);
    let ghost c = comps_v(cs@);
    let ghost ready = search_ready(ls, item@, c);
    proof { lemma_datas_v_len(l@); }
    let mut lo: usize = 0;
    let mut hi: usize = l.len();
    while lo < hi
        invariant
            lo <= hi <= l.len(),
            ls == datas_v(l@),
            ls.len() == l.len(),
            c == comps_v(cs@),
            ready == search_ready(ls, item@, c),
            lower_bound(ls, item@, c, 0, nz(ls.len())) == lower_bound(ls, item@, c, uz(lo), uz(hi)),
            ready ==> forall|j: int| 0 <= j < lo ==> #[trigger] key_at(ls, item@, c, j) == Ordering::Less,
            ready ==> forall|j: int| hi <= j < ls.len() ==> #[trigger] key_at(ls, item@, c, j) != Ordering::Less,
        decreases hi - lo,
    {
        let mid = lo + (hi - lo) / 2;
        proof { lemma_datas_v_index(l@, uz(mid)); }
        let o = criteria_order_x(cs, &l[mid], item);
        assert(o == key_at(ls, item@, c, uz(mid)));
        match o {
            Ordering::Less => {
                proof {
                    if ready {
                        assert forall|j: int| 0 <= j <= mid implies #[trigger] key_at(ls, item@, c, j) == Ordering::Less by {
                            assert(order_rank(key_at(ls, item@, c, j)) <= order_rank(key_at(ls, item@, c, uz(mid))));
                        }
                    }
                }
                lo = mid + 1;
            },
            _ => {
                proof {
                    if ready {
                        assert forall|j: int| mid <= j < ls.len() implies #[trigger] key_at(ls, item@, c, j) != Ordering::Less by {
                            assert(order_rank(key_at(ls, item@, c, uz(mid))) <= order_rank(key_at(ls, item@, c, j)));
                        }
                    }
                }
                hi = mid;
            },
        }
    }
    if lo < l.len() {
        proof { lemma_datas_v_index(l@, uz(lo)); }
        let o = criteria_order_x(cs, &l[lo], item);
        assert(o == key_at(ls, item@, c, uz(lo)));
        match o {
            Ordering::Equal => { return Some(lo); },
            _ => {
                proof {
                    if ready {
                        assert forall|j: int| 0 <= j < ls.len() implies #[trigger] key_at(ls, item@, c, j) != Ordering::Equal by {
                            if j >= lo {
                                assert(order_rank(key_at(ls, item@, c, uz(lo))) <= order_rank(key_at(ls, item@, c, j)));
                            }
                        }
                    }
                }
                return None;
            },
        }
    }
    None
}

/// The list, the item searched for and the criteria of a search's arguments; `None` where
/// they are not a list, an item and at least one criterion text.
pub open spec fn search_args(a: Seq<VData>) -> Option<(Seq<VData>, VData, Seq<VComparator>)> {
    if a.len() < 3 {
        None
    } else {
        match (a[0], comparators_s(a.skip(2))) {
            (VData::List(l), Some(cs)) => Some((l, a[1], cs)),
            _ => None,
        }
    }
}

/// The list, the item and the criteria of a search; an error where the arguments are wrong.
fn search_setup(args: &[TData]) -> (r: Result<(&Vec<TData>, Vec<Comparator>), Error>)
    ensures
        match search_args(datas_v(args@)) {
            None => r is Err,
            Some((l, item, cs)) => r matches Ok((v, c)) && datas_v(v@) == l && comps_v(c@) == cs
                && args@.len() >= 3 && args@[1]@ == item,
        },
{
    proof { lemma_datas_v_len(args@); }
    if args.len() < 3 {
        return Err(ea_str("Bin Search needs a List<Map> an Item, and at least one sort criteria"));
    }
    proof {
        lemma_datas_v_index(args@, 0);
        lemma_datas_v_index(args@, 1);
    }
    let list = match &args[0] {
        TData::List(l) => l,
        _ => { return Err(ea_str("First Item must be a list")); },
    };
    match build_comparator(args, 2) {
        Ok(c) => Ok((list, c)),
        Err(e) => Err(e),
    }
}

/// `bin_search`: the position [`search_pos`] reports, or null.
pub open spec fn bin_search_s(a: Seq<VData>) -> Result<VData, ()> {
    match search_args(a) {
        None => Err(()),
        Some((l, item, cs)) => Ok(match search_pos(l, item, cs) {
            Some(n) => VData::UInt(zu(n)),
            None => VData::Null,
        }),
    }
}

/// `bin_get`: the item at the position [`search_pos`] reports, or null.
pub open spec fn bin_get_s(a: Seq<VData>) -> Result<VData, ()> {
    match search_args(a) {
        None => Err(()),
        Some((l, item, cs)) => Ok(match search_pos(l, item, cs) {
            Some(n) => l[n],
            None => VData::Null,
        }),
    }
}

/// `bin_search`: the position of an item that compares equal to the second argument under
/// the criteria, found by binary search of the sorted first argument; `null` where there is
/// none.
pub fn bin_search(args: &[TData]) -> (r: Result<TData, Error>)
    ensures
        data_agrees(r, bin_search_s(datas_v(args@))),
        match search_args(datas_v(args@)) {
            None => r is Err,
            Some((l, item, cs)) => r matches Ok(d) && match d@ {
                VData::UInt(n) => search_found(l, item, cs, Some(uz(n))),
                VData::Null => search_found(l, item, cs, None),
                _ => false,
            },
        },
{
    let (list, comps) = match search_setup(args) {
        Ok(x) => x,
        Err(e) => { return Err(e); },
    };
    match search(list, &args[1], &comps) {
        Some(n) => Ok(TData::UInt(n)),
        None => Ok(TData::Null),
    }
}

/// `bin_get`: the item that [`bin_search`] finds, or `null` where it finds none.
pub fn bin_get(args: &[TData]) -> (r: Result<TData, Error>)
    ensures
        data_agrees(r, bin_get_s(datas_v(args@))),
        match search_args(datas_v(args@)) {
            None => r is Err,
            Some((l, item, cs)) => r matches Ok(d) && (
                (d@ == VData::Null && search_found(l, item, cs, None))
                || exists|n: int| #![trigger l[n]] search_found(l, item, cs, Some(n)) && d@ == l[n]),
        },
{
    let (list, comps) = match search_setup(args) {
        Ok(x) => x,
        Err(e) => { return Err(e); },
    };
    match search(list, &args[1], &comps) {
        Some(n) => {
            proof {
                lemma_datas_v_len(list@);
                lemma_datas_v_index(list@, uz(n));
            }
            Ok(clone_data(&list[n]))
        },
        None => Ok(TData::Null),
    }
}

proof fn lemma_inserted_items(s: Seq<VData>, x: VData, cs: Option<Seq<VComparator>>)
    ensures
        inserted(s, x, cs).to_multiset() == s.to_multiset().insert(x),
    decreases s.len(),
{
    broadcast use vstd::seq_lib::group_to_multiset_ensures;
    if s.len() == 0 {
        assert(seq![x] == Seq::<VData>::empty().push(x));
    } else {
        assert(s == s.drop_last().push(s.last()));
        if precedes(cs, x, s.last()) {
            lemma_inserted_items(s.drop_last(), x, cs);
        }
    }
}

/// Sorting keeps the items: the result holds each item as many times as the input does.
pub proof fn law_sort_keeps_items(s: Seq<VData>, cs: Option<Seq<VComparator>>)
    ensures
        sorted_items(s, cs).to_multiset() == s.to_multiset(),
    decreases s.len(),
{
    broadcast use vstd::seq_lib::group_to_multiset_ensures;
    if s.len() > 0 {
        law_sort_keeps_items(s.drop_last(), cs);
        lemma_inserted_items(sorted_items(s.drop_last(), cs), s.last(), cs);
        assert(s == s.drop_last().push(s.last()));
    }
}

/// Sorting a list that is already in order (no item comes before the one in front of it)
/// leaves it as it is.
pub proof fn law_sort_ordered_unchanged(s: Seq<VData>, cs: Option<Seq<VComparator>>)
    requires
        forall|i: int| 0 < i < s.len() ==> !precedes(cs, #[trigger] s[i], s[i - 1]),
    ensures
        sorted_items(s, cs) == s,
    decreases s.len(),
{
    if s.len() > 0 {
        let d = s.drop_last();
        assert forall|i: int| 0 < i < d.len() implies !precedes(cs, #[trigger] d[i], d[i - 1]) by {
            assert(d[i] == s[i] && d[i - 1] == s[i - 1]);
        }
        law_sort_ordered_unchanged(d, cs);
        if d.len() > 0 {
            assert(s[s.len() - 1] == s.last() && s[s.len() - 2] == d.last());
        }
        assert(s == d.push(s.last()));
    }
}

/// Sorting twice gives what sorting once does, for any order in which no two items come each
/// before the other and coming before passes on (a strict weak order).
pub proof fn law_sort_idempotent(s: Seq<VData>, cs: Option<Seq<VComparator>>)
    requires
        forall|a: VData, b: VData| precedes(cs, a, b) ==> !precedes(cs, b, a),
        forall|a: VData, b: VData, c: VData| !precedes(cs, a, b) && !precedes(cs, b, c) ==> !precedes(cs, a, c),
    ensures
        sorted_items(sorted_items(s, cs), cs) == sorted_items(s, cs),
{
    law_sort_sorted(s, cs);
    law_sort_ordered_unchanged(sorted_items(s, cs), cs);
}

proof fn lemma_inserted_in_order(s: Seq<VData>, x: VData, cs: Option<Seq<VComparator>>)
    requires
        forall|a: VData, b: VData| precedes(cs, a, b) ==> !precedes(cs, b, a),
        forall|a: VData, b: VData, c: VData| !precedes(cs, a, b) && !precedes(cs, b, c) ==> !precedes(cs, a, c),
        forall|i: int| 0 < i < s.len() ==> !precedes(cs, #[trigger] s[i], s[i - 1]),
    ensures
        forall|i: int| 0 < i < inserted(s, x, cs).len() ==> !precedes(cs, #[trigger] inserted(s, x, cs)[i], inserted(s, x, cs)[i - 1]),
        inserted(s, x, cs).len() == s.len() + 1,
        s.len() > 0 ==> (inserted(s, x, cs).last() == s.last() || inserted(s, x, cs).last() == x),
    decreases s.len(),
{
    if s.len() > 0 {
        let d = s.drop_last();
        if precedes(cs, x, s.last()) {
            assert forall|i: int| 0 < i < d.len() implies !precedes(cs, #[trigger] d[i], d[i - 1]) by {
                assert(d[i] == s[i] && d[i - 1] == s[i - 1]);
            }
            lemma_inserted_in_order(d, x, cs);
            let t = inserted(d, x, cs);
            let r = t.push(s.last());
            assert forall|i: int| 0 < i < r.len() implies !precedes(cs, #[trigger] r[i], r[i - 1]) by {
                if i < r.len() - 1 {
                    assert(r[i] == t[i] && r[i - 1] == t[i - 1]);
                } else {
                    assert(r[i] == s.last());
                    assert(r[i - 1] == t.last());
                    if d.len() > 0 {
                        if t.last() == d.last() {
                            assert(d.last() == s[s.len() - 2]);
                            assert(s.last() == s[s.len() - 1]);
                        }
                    }
                }
            }
        }
    }
}

/// Sorted items are in order: no item comes before the one in front of it, and there are as
/// many as before, for any order in which no two items come each before the other and coming
/// before passes on (a strict weak order).
pub proof fn law_sort_sorted(s: Seq<VData>, cs: Option<Seq<VComparator>>)
    requires
        forall|a: VData, b: VData| precedes(cs, a, b) ==> !precedes(cs, b, a),
        forall|a: VData, b: VData, c: VData| !precedes(cs, a, b) && !precedes(cs, b, c) ==> !precedes(cs, a, c),
    ensures
        forall|i: int| 0 < i < sorted_items(s, cs).len() ==> !precedes(cs, #[trigger] sorted_items(s, cs)[i], sorted_items(s, cs)[i - 1]),
        sorted_items(s, cs).len() == s.len(),
    decreases s.len(),
{
    if s.len() > 0 {
        law_sort_sorted(s.drop_last(), cs);
        lemma_inserted_in_order(sorted_items(s.drop_last(), cs), s.last(), cs);
    }
}

} // verus!
