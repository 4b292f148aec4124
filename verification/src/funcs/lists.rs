//! Functions on lists.
use vstd::prelude::*;
use crate::err::{ea_str, Error};
use crate::eval::data_agrees;
use crate::num::{to_usize_wrapping, wrap_usize};
use crate::tdata::{clone_data, clone_list, datas_v, dict_get, dict_lookup, entries_v, lemma_datas_v_index, lemma_datas_v_len, lemma_datas_v_map, lemma_entries_v_len, v_as_usize, v_eq, TData, VData};

verus! {

/// How much a value counts for `len`: the length of a list or map, else one.
pub open spec fn len_of(d: VData) -> int {
    match d {
        VData::List(l) => l.len() as int,
        VData::Dict(m) => m.len() as int,
        _ => 1,
    }
}

/// The counts of the values, added up.
pub open spec fn len_sum(l: Seq<VData>) -> int
    decreases l.len(),
{
    if l.len() == 0 { 0 } else { len_sum(l.drop_last()) + len_of(l.last()) }
}

/// `len`: the lengths of the lists and maps among the arguments, with one for anything else,
/// added up.
pub open spec fn len_s(l: Seq<VData>) -> Result<VData, ()> {
    if len_sum(l) <= usize::MAX { Ok(VData::UInt(len_sum(l) as usize)) } else { Err(()) }
}

/// The arguments as one list.
pub fn list(args: &[TData]) -> (r: Result<TData, Error>)
    ensures
        r matches Ok(x) && x@ == VData::List(datas_v(args@)),
{
    let mut v: Vec<TData> = Vec::new();
    let mut i: usize = 0;
    while i < args.len()
        invariant
            i <= args.len(),
            v@.len() == i,
            forall|j: int| 0 <= j < i ==> (#[trigger] v@[j])@ == args@[j]@,
        decreases args.len() - i,
    {
        v.push(clone_data(&args[i]));
        i = i + 1;
    }
    proof {
        lemma_datas_v_map(v@);
        lemma_datas_v_map(args@);
        assert(datas_v(v@) =~= datas_v(args@));
    }
    Ok(TData::List(v))
}

/// The lengths of the list and map arguments (one for any other), added up.
pub fn len(args: &[TData]) -> (r: Result<TData, Error>)
    ensures
        data_agrees(r, len_s(datas_v(args@))),
{
    let ghost ls = datas_v(args@);
    proof { lemma_datas_v_len(args@); }
    let mut total: usize = 0;
    let mut i: usize = 0;
    while i < args.len()
        invariant
            i <= args.len(),
            ls == datas_v(args@),
            ls.len() == args.len(),
            total == len_sum(ls.take(i as int)),
        decreases args.len() - i,
    {
        proof {
            lemma_datas_v_index(args@, i as int);
            assert(ls.take(i + 1).drop_last() == ls.take(i as int));
        }
        let n: usize = match &args[i] {
            TData::List(l) => {
                proof { lemma_datas_v_len(l@); }
                l.len()
            },
            TData::Dict(m) => {
                proof { lemma_entries_v_len(m@); }
                m.len()
            },
            _ => 1,
        };
        match total.checked_add(n) {
            Some(t) => { total = t; },
            None => {
                proof { lemma_len_sum_grows(ls, i as int + 1); }
                return Err(ea_str("Length too big"));
            },
        }
        i = i + 1;
    }
    assert(ls.take(ls.len() as int) == ls);
    Ok(TData::UInt(total))
}

proof fn lemma_len_sum_grows(l: Seq<VData>, n: int)
    requires
        0 <= n <= l.len(),
    ensures
        len_sum(l.take(n)) <= len_sum(l),
    decreases l.len() - n,
{
    if n < l.len() {
        lemma_len_sum_grows(l, n + 1);
        assert(l.take(n + 1).drop_last() == l.take(n));
    } else {
        assert(l.take(n) == l);
    }
}

/// A slice of a string by byte positions, when both ends fall on characters
/// (std's `str::get` with a range).
pub uninterp spec fn str_range(s: Seq<char>, start: usize, end: usize) -> Option<Seq<char>>;

/// The rest of a string from a byte position, when it falls on a character
/// (std's `str::get` with a range from `start`).
pub uninterp spec fn str_from(s: Seq<char>, start: usize) -> Option<Seq<char>>;

/// std's `str::get(start..end)`.
///
/// Claims of std: the answer is a function of the string and the two positions.
#[verifier::external_body]
fn str_get_range(s: &str, start: usize, end: usize) -> (r: Option<String>)
    ensures
        match str_range(s@, start, end) {
            Some(t) => r matches Some(u) && u@ == t,
            None => r is None,
        },
{
    s.get(start..end).map(|t| t.to_string())
}

/// std's `str::get(start..)`.
///
/// Claims of std: the answer is a function of the string and the position.
#[verifier::external_body]
fn str_get_from(s: &str, start: usize) -> (r: Option<String>)
    ensures
        match str_from(s@, start) {
            Some(t) => r matches Some(u) && u@ == t,
            None => r is None,
        },
{
    s.get(start..).map(|t| t.to_string())
}

/// `slice`: part of a list (by positions) or of a text (by byte positions), from the second
/// argument to the third (or the end).
pub open spec fn slice_s(a: Seq<VData>) -> Result<VData, ()> {
    if a.len() < 2 || v_as_usize(a[1]) is None {
        Err(())
    } else {
        let start = v_as_usize(a[1])->Some_0;
        let end = if a.len() >= 3 { v_as_usize(a[2]) } else { None };
        match (a[0], end) {
            (VData::List(l), Some(e)) => if start <= e <= l.len() { Ok(VData::List(l.subrange(start as int, e as int))) } else { Err(()) },
            (VData::List(l), None) => if start <= l.len() { Ok(VData::List(l.subrange(start as int, l.len() as int))) } else { Err(()) },
            (VData::String(s), Some(e)) => match str_range(s, start, e) {
                Some(t) => Ok(VData::String(t)),
                None => Err(()),
            },
            (VData::String(s), None) => match str_from(s, start) {
                Some(t) => Ok(VData::String(t)),
                None => Err(()),
            },
            _ => Err(()),
        }
    }
}

fn sub_list(l: &Vec<TData>, a: usize, b: usize) -> (r: Vec<TData>)
    requires
        a <= b <= l.len(),
    ensures
        datas_v(r@) == datas_v(l@).subrange(a as int, b as int),
{
    let mut v: Vec<TData> = Vec::new();
    let mut i = a;
    while i < b
        invariant
            a <= i <= b,
            b <= l.len(),
            v@.len() == i - a,
            forall|j: int| 0 <= j < v@.len() ==> (#[trigger] v@[j])@ == l@[a + j]@,
        decreases b - i,
    {
        v.push(clone_data(&l[i]));
        i = i + 1;
    }
    proof {
        lemma_datas_v_map(v@);
        lemma_datas_v_map(l@);
        assert(datas_v(v@) =~= datas_v(l@).subrange(a as int, b as int));
    }
    v
}

/// Part of a list or text, from a start position to an end position or the end.
pub fn slice(args: &[TData]) -> (r: Result<TData, Error>)
    ensures
        data_agrees(r, slice_s(datas_v(args@))),
{
    proof { lemma_datas_v_len(args@); }
    if args.len() < 2 {
        return Err(ea_str("slice: no start point?"));
    }
    proof {
        lemma_datas_v_index(args@, 0);
        lemma_datas_v_index(args@, 1);
    }
    let start = match args[1].as_usize() {
        Some(s) => s,
        None => { return Err(ea_str("slice: no start point?")); },
    };
    let end: Option<usize> = if args.len() >= 3 {
        proof { lemma_datas_v_index(args@, 2); }
        args[2].as_usize()
    } else {
        None
    };
    match &args[0] {
        TData::List(l) => {
            proof { lemma_datas_v_len(l@); }
            let e = match end { Some(e) => e, None => l.len() };
            if start <= e && e <= l.len() {
                Ok(TData::List(sub_list(l, start, e)))
            } else {
                Err(ea_str("slice out of range"))
            }
        },
        TData::String(s) => {
            let t = match end {
                Some(e) => str_get_range(s.as_str(), start, e),
                None => str_get_from(s.as_str(), start),
            };
            match t {
                Some(t) => Ok(TData::String(t)),
                None => Err(ea_str("slice out of range")),
            }
        },
        _ => Err(ea_str("Slice requires List Num Num?")),
    }
}

/// The position argument of `get`: a signed number is reinterpreted as unsigned.
pub open spec fn get_pos(d: VData) -> VData {
    match d {
        VData::Int(i) => VData::UInt(wrap_usize(i)),
        v => v,
    }
}

/// `get`: the element of a list at a position (null past the end), the character of a text at
/// a byte position, or the value of a map under a key (null when missing).
pub open spec fn get_s(a: Seq<VData>) -> Result<VData, ()> {
    if a.len() != 2 {
        Err(())
    } else {
        match (a[0], get_pos(a[1])) {
            (VData::List(l), VData::UInt(u)) => Ok(if u < l.len() { l[u as int] } else { VData::Null }),
            (VData::String(s), VData::UInt(u)) => match str_from(s, u) {
                Some(t) => if t.len() > 0 { Ok(VData::String(seq![t[0]])) } else { Err(()) },
                None => Err(()),
            },
            (VData::Dict(m), VData::String(k)) => Ok(match dict_get(m, k) {
                Some(v) => v,
                None => VData::Null,
            }),
            _ => Err(()),
        }
    }
}

/// The element of a list at a position, the character of a text at a byte position, or the
/// value of a map under a key.
pub fn get(args: &[TData]) -> (r: Result<TData, Error>)
    ensures
        data_agrees(r, get_s(datas_v(args@))),
        args.len() < 2 ==> (r matches Err(e) && e.msg() == "Get requires List and Number"@),
        args.len() > 2 ==> (r matches Err(e) && e.msg()
            == "Get requires List and exactly 1 Position marker. Multiple markers may be allowed in the future"@),
{
    proof { lemma_datas_v_len(args@); }
    if args.len() < 2 {
        return Err(ea_str("Get requires List and Number"));
    }
    if args.len() > 2 {
        return Err(ea_str("Get requires List and exactly 1 Position marker. Multiple markers may be allowed in the future"));
    }
    proof {
        lemma_datas_v_index(args@, 0);
        lemma_datas_v_index(args@, 1);
    }
    let pos = match &args[1] {
        TData::Int(i) => TData::UInt(to_usize_wrapping(*i)),
        v => clone_data(v),
    };
    match (&args[0], &pos) {
        (TData::List(l), TData::UInt(u)) => {
            proof { lemma_datas_v_len(l@); }
            if *u < l.len() {
                proof { lemma_datas_v_index(l@, *u as int); }
                Ok(clone_data(&l[*u]))
            } else {
                Ok(TData::Null)
            }
        },
        (TData::String(s), TData::UInt(u)) => match str_get_from(s.as_str(), *u) {
            Some(t) => {
                let cs = crate::strs::chars_of(t.as_str());
                if cs.len() > 0 {
                    let mut one = String::new();
                    crate::strs::push_char(&mut one, cs[0]);
                    assert(one@ =~= seq![cs@[0]]);
                    Ok(TData::String(one))
                } else {
                    Err(ea_str("No char at that point"))
                }
            },
            None => Err(ea_str("No char at that point")),
        },
        (TData::Dict(m), TData::String(k)) => match dict_lookup(m, k.as_str()) {
            Some(v) => Ok(v),
            None => Ok(TData::Null),
        },
        _ => Err(ea_str("get requires either List and Int or Map and String")),
    }
}

/// The elements of list arguments, and other arguments themselves, in one list.
pub open spec fn append_all(a: Seq<VData>) -> Seq<VData>
    decreases a.len(),
{
    if a.len() == 0 {
        seq![]
    } else {
        append_all(a.drop_last()) + match a.last() {
            VData::List(l) => l,
            v => seq![v],
        }
    }
}

/// The elements of the list arguments and the other arguments, in order, in one list.
pub fn append(args: &[TData]) -> (r: Result<TData, Error>)
    ensures
        r matches Ok(x) && x@ == VData::List(append_all(datas_v(args@))),
{
    let ghost ls = datas_v(args@);
    proof { lemma_datas_v_len(args@); }
    let mut out: Vec<TData> = Vec::new();
    let mut i: usize = 0;
    assert(datas_v(out@) =~= Seq::<VData>::empty());
    while i < args.len()
        invariant
            i <= args.len(),
            ls == datas_v(args@),
            ls.len() == args.len(),
            datas_v(out@) == append_all(ls.take(i as int)),
        decreases args.len() - i,
    {
        proof {
            lemma_datas_v_index(args@, i as int);
            assert(ls.take(i + 1).drop_last() == ls.take(i as int));
        }
        match &args[i] {
            TData::List(l) => {
                let ghost o0 = out@;
                let mut c = clone_list(l);
                let ghost c0 = c@;
                out.append(&mut c);
                proof {
                    assert(out@ == o0 + c0);
                    lemma_datas_v_map(out@);
                    lemma_datas_v_map(o0);
                    lemma_datas_v_map(c0);
                    assert(datas_v(out@) =~= datas_v(o0) + datas_v(c0));
                }
            },
            v => {
                let ghost o0 = out@;
                let d = clone_data(v);
                proof { crate::tdata::lemma_datas_v_push(o0, d); }
                out.push(d);
            },
        }
        i = i + 1;
    }
    assert(ls.take(ls.len() as int) == ls);
    Ok(TData::List(out))
}

/// A list cut into groups of `g` elements (the last may be shorter).
pub open spec fn chunks(l: Seq<VData>, g: nat) -> Seq<VData>
    decreases l.len(),
{
    if l.len() == 0 || g == 0 {
        seq![]
    } else if l.len() <= g {
        seq![VData::List(l)]
    } else {
        seq![VData::List(l.take(g as int))] + chunks(l.skip(g as int), g)
    }
}

/// `groups`: the list of the second argument cut into groups of the first argument's size
/// (at least one).
pub open spec fn groups_s(a: Seq<VData>) -> Result<VData, ()> {
    if a.len() == 0 || v_as_usize(a[0]) is None || a.len() < 2 {
        Err(())
    } else {
        let n = v_as_usize(a[0])->Some_0;
        let g: nat = if n == 0 { 1 } else { n as nat };
        match a[1] {
            VData::List(l) => Ok(VData::List(chunks(l, g))),
            _ => Err(()),
        }
    }
}

/// The list of the second argument cut into groups of the first argument's size.
pub fn groups(args: &[TData]) -> (r: Result<TData, Error>)
    ensures
        data_agrees(r, groups_s(datas_v(args@))),
{
    proof { lemma_datas_v_len(args@); }
    if args.len() == 0 {
        return Err(ea_str("'groups' requires an int and a list"));
    }
    proof { lemma_datas_v_index(args@, 0); }
    let n = match args[0].as_usize() {
        Some(n) => n,
        None => { return Err(ea_str("'groups' requires an int and a list")); },
    };
    let g: usize = if n == 0 { 1 } else { n };
    if args.len() < 2 {
        return Err(ea_str("'groups' requires an int and a list"));
    }
    proof { lemma_datas_v_index(args@, 1); }
    let l = match &args[1] {
        TData::List(l) => l,
        _ => { return Err(ea_str("'groups' second arg must be a list")); },
    };
    proof { lemma_datas_v_len(l@); }
    let ghost ls = datas_v(l@);
    let mut res: Vec<TData> = Vec::new();
    let mut start: usize = 0;
    assert(datas_v(res@) =~= Seq::<VData>::empty());
    assert(ls.skip(0) == ls);
    while start < l.len()
        invariant
            start <= l.len(),
            g >= 1,
            ls == datas_v(l@),
            ls.len() == l.len(),
            chunks(ls, g as nat) == datas_v(res@) + chunks(ls.skip(start as int), g as nat),
        decreases l.len() - start,
    {
        let end: usize = if l.len() - start <= g { l.len() } else { start + g };
        let part = sub_list(l, start, end);
        let ghost r0 = datas_v(res@);
        proof {
            let rest = ls.skip(start as int);
            assert(rest.take(g as int) =~= ls.subrange(start as int, end as int) || rest.len() <= g);
            if rest.len() <= g {
                assert(rest =~= ls.subrange(start as int, end as int));
            } else {
                assert(rest.skip(g as int) =~= ls.skip(end as int));
            }
            crate::tdata::lemma_datas_v_push(res@, TData::List(part));
        }
        res.push(TData::List(part));
        start = end;
    }
    assert(ls.skip(ls.len() as int) =~= Seq::<VData>::empty());
    assert(datas_v(res@) + Seq::<VData>::empty() == datas_v(res@));
    Ok(TData::List(res))
}

/// The position of the first element of a list equal to a needle, or null.
pub fn index_of(args: &[TData]) -> (r: Result<TData, Error>)
    ensures
        args.len() < 2 ==> r is Err,
        args.len() >= 2 ==> (r matches Ok(x) && match args@[1]@ {
            VData::List(l) => match x@ {
                VData::UInt(k) => k < l.len() && v_eq(l[k as int], args@[0]@)
                    && forall|j: int| 0 <= j < k ==> !v_eq(#[trigger] l[j], args@[0]@),
                VData::Null => forall|j: int| 0 <= j < l.len() ==> !v_eq(#[trigger] l[j], args@[0]@),
                _ => false,
            },
            _ => x@ == VData::Null,
        }),
{
    if args.len() < 2 {
        return Err(ea_str("index_of requires 'needle' then 'haystack'"));
    }
    match &args[1] {
        TData::List(l) => {
            let ghost ls = datas_v(l@);
            proof { lemma_datas_v_len(l@); }
            let mut k: usize = 0;
            while k < l.len()
                invariant
                    k <= l.len(),
                    args.len() >= 2,
                    args@[1] == TData::List(*l),
                    ls == datas_v(l@),
                    ls.len() == l.len(),
                    forall|j: int| 0 <= j < k ==> !v_eq(#[trigger] ls[j], args@[0]@),
                decreases l.len() - k,
            {
                proof { lemma_datas_v_index(l@, k as int); }
                if l[k].equals(&args[0]) {
                    return Ok(TData::UInt(k));
                }
                k = k + 1;
            }
            Ok(TData::Null)
        },
        _ => Ok(TData::Null),
    }
}

/// `len` of one argument counts the elements of a list and the entries of a map, and one for
/// any other value; over two arguments the counts add up.
pub proof fn law_len_counts(l: Seq<VData>, m: Seq<(Seq<char>, VData)>, x: VData, y: VData)
    requires
        l.len() <= usize::MAX,
        m.len() <= usize::MAX,
    ensures
        len_s(seq![VData::List(l)]) matches Ok(VData::UInt(n)) && n == l.len(),
        len_s(seq![VData::Dict(m)]) matches Ok(VData::UInt(n)) && n == m.len(),
        !(x is List) && !(x is Dict) ==> len_s(seq![x]) == Ok::<VData, ()>(VData::UInt(1)),
        len_s(seq![x]) is Ok && len_s(seq![y]) is Ok
            && len_s(seq![x])->Ok_0->UInt_0 + len_s(seq![y])->Ok_0->UInt_0 <= usize::MAX
            ==> (len_s(seq![x, y]) matches Ok(VData::UInt(c))
                && c == len_s(seq![x])->Ok_0->UInt_0 + len_s(seq![y])->Ok_0->UInt_0),
{
    lemma_len_one(VData::List(l));
    lemma_len_one(VData::Dict(m));
    lemma_len_one(x);
    lemma_len_one(y);
    assert(seq![x, y].drop_last() =~= seq![x]);
    assert(seq![x, y].last() == y);
    assert(len_sum(seq![x, y]) == len_of(x) + len_of(y));
}

proof fn lemma_len_one(x: VData)
    ensures
        len_sum(seq![x]) == len_of(x),
{
    assert(seq![x].drop_last() =~= Seq::<VData>::empty());
    assert(seq![x].last() == x);
    assert(len_sum(Seq::<VData>::empty()) == 0);
}

/// `get` on a list gives the element at the position, or null past the end; a signed position
/// that is not negative means the same position.
pub proof fn law_get_list(l: Seq<VData>, u: usize, i: isize)
    ensures
        u < l.len() ==> get_s(seq![VData::List(l), VData::UInt(u)]) == Ok::<VData, ()>(l[u as int]),
        u >= l.len() ==> get_s(seq![VData::List(l), VData::UInt(u)]) == Ok::<VData, ()>(VData::Null),
        i >= 0 ==> get_s(seq![VData::List(l), VData::Int(i)]) == get_s(seq![VData::List(l), VData::UInt(i as usize)]),
{
    assert(crate::num::wrap_usize(i) == i as usize || i < 0);
}

/// `slice` of a list from `s` to `e` gives the `e - s` elements from position `s` on, and
/// without an end it runs to the end of the list; positions out of order or past the end fail.
pub proof fn law_slice_list(l: Seq<VData>, s: usize, e: usize)
    ensures
        s <= e <= l.len() ==> (slice_s(seq![VData::List(l), VData::UInt(s), VData::UInt(e)]) matches Ok(VData::List(t))
            && t.len() == e - s && forall|j: int| 0 <= j < t.len() ==> #[trigger] t[j] == l[s + j]),
        !(s <= e <= l.len()) ==> slice_s(seq![VData::List(l), VData::UInt(s), VData::UInt(e)]) is Err,
        s <= l.len() ==> (slice_s(seq![VData::List(l), VData::UInt(s)]) matches Ok(VData::List(t))
            && t.len() == l.len() - s && forall|j: int| 0 <= j < t.len() ==> #[trigger] t[j] == l[s + j]),
        s > l.len() ==> slice_s(seq![VData::List(l), VData::UInt(s)]) is Err,
{
}

/// `append` puts the elements of list arguments, and other arguments themselves, one after
/// another: two lists give the first list's elements followed by the second's.
pub proof fn law_append_lists(a: Seq<VData>, b: Seq<VData>, x: VData)
    ensures
        append_all(seq![VData::List(a), VData::List(b)]) == a + b,
        !(x is List) ==> append_all(seq![VData::List(a), x]) == a.push(x),
        !(x is List) ==> append_all(seq![x, VData::List(b)]) == seq![x] + b,
{
    assert(seq![VData::List(a), VData::List(b)].drop_last() =~= seq![VData::List(a)]);
    assert(seq![VData::List(a), x].drop_last() =~= seq![VData::List(a)]);
    assert(seq![x, VData::List(b)].drop_last() =~= seq![x]);
    assert(seq![VData::List(a)].drop_last() =~= Seq::<VData>::empty());
    assert(seq![x].drop_last() =~= Seq::<VData>::empty());
    assert(append_all(Seq::<VData>::empty()) == Seq::<VData>::empty());
    assert(seq![VData::List(a)].last() == VData::List(a));
    assert(seq![x].last() == x);
    assert(Seq::<VData>::empty() + a =~= a);
    assert(Seq::<VData>::empty() + seq![x] =~= seq![x]);
    assert(append_all(seq![VData::List(a)]) =~= a);
    if !(x is List) {
        assert(append_all(seq![x]) =~= seq![x]);
    }
    assert(seq![VData::List(a), VData::List(b)].last() == VData::List(b));
    assert(seq![VData::List(a), x].last() == x);
    assert(seq![x, VData::List(b)].last() == VData::List(b));
    assert(a + seq![x] =~= a.push(x));
}

} // verus!
