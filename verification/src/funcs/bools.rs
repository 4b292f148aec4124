//! Comparisons and logic on values.
use vstd::prelude::*;
use core::cmp::Ordering;
use crate::err::{ea_str, Error};
use crate::eval::data_agrees;
use crate::order::{calendar_before, data_order, law_dates_in_calendar_order};
use crate::tdata::{datas_v, lemma_datas_v_index, lemma_datas_v_len, v_as_bool, v_eq, TData, VData};
use crate::show::v_display;

verus! {

/// `eq`: whether every later argument equals the first.
pub open spec fn eq_s(l: Seq<VData>) -> Result<VData, ()> {
    if l.len() == 0 {
        Err(())
    } else {
        Ok(VData::Bool(forall|i: int| 1 <= i < l.len() ==> v_eq(#[trigger] l[i], l[0])))
    }
}

/// `neq`: whether every later argument differs from the first.
pub open spec fn neq_s(l: Seq<VData>) -> Result<VData, ()> {
    if l.len() == 0 {
        Err(())
    } else {
        Ok(VData::Bool(forall|i: int| 1 <= i < l.len() ==> !v_eq(#[trigger] l[i], l[0])))
    }
}

/// `eq_any`: whether some later argument equals the first.
pub open spec fn eq_any_s(l: Seq<VData>) -> Result<VData, ()> {
    if l.len() == 0 {
        Err(())
    } else {
        Ok(VData::Bool(exists|i: int| 1 <= i < l.len() && v_eq(#[trigger] l[i], l[0])))
    }
}

/// Whether the first argument stands in one of the allowed orders to every later argument.
pub open spec fn all_ordered(l: Seq<VData>, less: bool, equal: bool, greater: bool) -> bool {
    forall|i: int| 1 <= i < l.len() ==> match #[trigger] data_order(l[0], l[i]) {
        Some(Ordering::Less) => less,
        Some(Ordering::Equal) => equal,
        Some(Ordering::Greater) => greater,
        None => false,
    }
}

/// `gt`, `gte`, `lt`, `lte`: the first argument compared with every later one.
pub open spec fn order_s(l: Seq<VData>, less: bool, equal: bool, greater: bool) -> Result<VData, ()> {
    if l.len() == 0 {
        Err(())
    } else {
        Ok(VData::Bool(all_ordered(l, less, equal, greater)))
    }
}

/// `and`: every argument is true.
pub open spec fn all_true(l: Seq<VData>) -> bool {
    forall|i: int| 0 <= i < l.len() ==> v_as_bool(#[trigger] l[i]) == Some(true)
}

/// `or`: some argument is true.
pub open spec fn any_true(l: Seq<VData>) -> bool {
    exists|i: int| 0 <= i < l.len() && v_as_bool(#[trigger] l[i]) == Some(true)
}

/// The name of a value's kind.
pub open spec fn kind_name(d: VData) -> Seq<char> {
    match d {
        VData::Bool(_) => "bool"@,
        VData::String(_) => "string"@,
        VData::Int(_) => "int"@,
        VData::UInt(_) => "uint"@,
        VData::Float(_) => "float"@,
        VData::List(_) => "list"@,
        VData::Dict(_) => "map"@,
        VData::Template(_) => "template"@,
        VData::Null => "null"@,
        VData::Date(_) => "date"@,
        VData::Bytes(_) => "bytes"@,
    }
}

/// `type_of`: the kind of the first argument, or whether it is the kind the second names.
pub open spec fn type_of_s(l: Seq<VData>) -> Result<VData, ()> {
    if l.len() == 0 {
        Err(())
    } else if l.len() >= 2 {
        Ok(VData::Bool(kind_name(l[0]) == v_display(l[1])))
    } else {
        Ok(VData::String(kind_name(l[0])))
    }
}

/// Whether all later arguments equal the first.
pub fn eq(l: &[TData]) -> (r: Result<TData, Error>)
    ensures
        data_agrees(r, eq_s(datas_v(l@))),
{
    let ghost ls = datas_v(l@);
    proof { lemma_datas_v_len(l@); }
    if l.len() == 0 {
        return Err(ea_str("Not enough args for eq"));
    }
    proof { lemma_datas_v_index(l@, 0); }
    let mut i: usize = 1;
    while i < l.len()
        invariant
            1 <= i <= l.len(),
            ls == datas_v(l@),
            ls.len() == l.len(),
            ls[0] == l@[0]@,
            forall|j: int| 1 <= j < i ==> v_eq(#[trigger] ls[j], ls[0]),
        decreases l.len() - i,
    {
        proof { lemma_datas_v_index(l@, i as int); }
        if !l[i].equals(&l[0]) {
            return Ok(TData::Bool(false));
        }
        i = i + 1;
    }
    Ok(TData::Bool(true))
}

/// Whether every later argument differs from the first.
pub fn neq(l: &[TData]) -> (r: Result<TData, Error>)
    ensures
        data_agrees(r, neq_s(datas_v(l@))),
{
    let ghost ls = datas_v(l@);
    proof { lemma_datas_v_len(l@); }
    if l.len() == 0 {
        return Err(ea_str("Not enough args for neq"));
    }
    proof { lemma_datas_v_index(l@, 0); }
    let mut i: usize = 1;
    while i < l.len()
        invariant
            1 <= i <= l.len(),
            ls == datas_v(l@),
            ls.len() == l.len(),
            ls[0] == l@[0]@,
            forall|j: int| 1 <= j < i ==> !v_eq(#[trigger] ls[j], ls[0]),
        decreases l.len() - i,
    {
        proof { lemma_datas_v_index(l@, i as int); }
        if l[i].equals(&l[0]) {
            return Ok(TData::Bool(false));
        }
        i = i + 1;
    }
    Ok(TData::Bool(true))
}

/// Whether some later argument equals the first.
pub fn eq_any(l: &[TData]) -> (r: Result<TData, Error>)
    ensures
        data_agrees(r, eq_any_s(datas_v(l@))),
{
    let ghost ls = datas_v(l@);
    proof { lemma_datas_v_len(l@); }
    if l.len() == 0 {
        return Err(ea_str("Not enough args for eq"));
    }
    proof { lemma_datas_v_index(l@, 0); }
    let mut i: usize = 1;
    while i < l.len()
        invariant
            1 <= i <= l.len(),
            ls == datas_v(l@),
            ls.len() == l.len(),
            ls[0] == l@[0]@,
            forall|j: int| 1 <= j < i ==> !v_eq(#[trigger] ls[j], ls[0]),
        decreases l.len() - i,
    {
        proof { lemma_datas_v_index(l@, i as int); }
        if l[i].equals(&l[0]) {
            return Ok(TData::Bool(true));
        }
        i = i + 1;
    }
    Ok(TData::Bool(false))
}

fn ordered(l: &[TData], less: bool, equal: bool, greater: bool) -> (r: Result<TData, Error>)
    ensures
        data_agrees(r, order_s(datas_v(l@), less, equal, greater)),
{
    let ghost ls = datas_v(l@);
    proof { lemma_datas_v_len(l@); }
    if l.len() == 0 {
        return Err(ea_str("Not enough args to compare"));
    }
    proof { lemma_datas_v_index(l@, 0); }
    let mut i: usize = 1;
    while i < l.len()
        invariant
            1 <= i <= l.len(),
            ls == datas_v(l@),
            ls.len() == l.len(),
            ls[0] == l@[0]@,
            forall|j: int| 1 <= j < i ==> match #[trigger] data_order(ls[0], ls[j]) {
                Some(Ordering::Less) => less,
                Some(Ordering::Equal) => equal,
                Some(Ordering::Greater) => greater,
                None => false,
            },
        decreases l.len() - i,
    {
        proof { lemma_datas_v_index(l@, crate::num::uz(i)); }
        let ok = match l[0].compare_values(&l[i]) {
            Some(Ordering::Less) => less,
            Some(Ordering::Equal) => equal,
            Some(Ordering::Greater) => greater,
            None => false,
        };
        if !ok {
            return Ok(TData::Bool(false));
        }
        i = i + 1;
    }
    Ok(TData::Bool(true))
}

/// Whether the first argument is greater than every later one.
pub fn gt(l: &[TData]) -> (r: Result<TData, Error>)
    ensures
        data_agrees(r, order_s(datas_v(l@), false, false, true)),
{
    ordered(l, false, false, true)
}

/// Whether the first argument is less than every later one.
pub fn lt(l: &[TData]) -> (r: Result<TData, Error>)
    ensures
        data_agrees(r, order_s(datas_v(l@), true, false, false)),
{
    ordered(l, true, false, false)
}

/// Whether the first argument is greater than or equal to every later one.
pub fn gte(l: &[TData]) -> (r: Result<TData, Error>)
    ensures
        data_agrees(r, order_s(datas_v(l@), false, true, true)),
{
    ordered(l, false, true, true)
}

/// Whether the first argument is less than or equal to every later one.
pub fn lte(l: &[TData]) -> (r: Result<TData, Error>)
    ensures
        data_agrees(r, order_s(datas_v(l@), true, true, false)),
{
    ordered(l, true, true, false)
}

fn all_true_x(l: &[TData]) -> (r: bool)
    ensures
        r == all_true(datas_v(l@)),
{
    let ghost ls = datas_v(l@);
    proof { lemma_datas_v_len(l@); }
    let mut i: usize = 0;
    while i < l.len()
        invariant
            i <= l.len(),
            ls == datas_v(l@),
            ls.len() == l.len(),
            forall|j: int| 0 <= j < i ==> v_as_bool(#[trigger] ls[j]) == Some(true),
        decreases l.len() - i,
    {
        proof { lemma_datas_v_index(l@, i as int); }
        match l[i].as_bool() {
            Some(true) => {},
            _ => { return false; },
        }
        i = i + 1;
    }
    true
}

fn any_true_x(l: &[TData]) -> (r: bool)
    ensures
        r == any_true(datas_v(l@)),
{
    let ghost ls = datas_v(l@);
    proof { lemma_datas_v_len(l@); }
    let mut i: usize = 0;
    while i < l.len()
        invariant
            i <= l.len(),
            ls == datas_v(l@),
            ls.len() == l.len(),
            forall|j: int| 0 <= j < i ==> v_as_bool(#[trigger] ls[j]) != Some(true),
        decreases l.len() - i,
    {
        proof { lemma_datas_v_index(l@, i as int); }
        match l[i].as_bool() {
            Some(true) => { return true; },
            _ => {},
        }
        i = i + 1;
    }
    false
}

/// Whether every argument is true.
pub fn and(l: &[TData]) -> (r: Result<TData, Error>)
    ensures
        r matches Ok(x) && x@ == VData::Bool(all_true(datas_v(l@))),
{
    Ok(TData::Bool(all_true_x(l)))
}

/// Whether some argument is not true.
pub fn nand(l: &[TData]) -> (r: Result<TData, Error>)
    ensures
        r matches Ok(x) && x@ == VData::Bool(!all_true(datas_v(l@))),
{
    Ok(TData::Bool(!all_true_x(l)))
}

/// Whether some argument is true.
pub fn or(l: &[TData]) -> (r: Result<TData, Error>)
    ensures
        r matches Ok(x) && x@ == VData::Bool(any_true(datas_v(l@))),
{
    Ok(TData::Bool(any_true_x(l)))
}

/// Whether no argument is true.
pub fn nor(l: &[TData]) -> (r: Result<TData, Error>)
    ensures
        r matches Ok(x) && x@ == VData::Bool(!any_true(datas_v(l@))),
{
    Ok(TData::Bool(!any_true_x(l)))
}

/// Whether the first argument is null.
pub fn is_null(l: &[TData]) -> (r: Result<TData, Error>)
    ensures
        l.len() == 0 ==> r is Err,
        l.len() > 0 ==> (r matches Ok(x) && x@ == VData::Bool(v_eq(l@[0]@, VData::Null))),
{
    if l.len() == 0 {
        return Err(ea_str("Is WHAT null? I need a parameter"));
    }
    Ok(TData::Bool(l[0].equals(&TData::Null)))
}

/// Whether the first argument is a number.
pub fn is_num(l: &[TData]) -> (r: Result<TData, Error>)
    ensures
        l.len() == 0 ==> r is Err,
        l.len() > 0 ==> (r matches Ok(x) && x@ == VData::Bool(crate::tdata::is_num(l@[0]@))),
{
    if l.len() == 0 {
        return Err(ea_str("Is WHAT num? I need a parameter"));
    }
    match &l[0] {
        TData::UInt(_) | TData::Int(_) | TData::Float(_) => Ok(TData::Bool(true)),
        _ => Ok(TData::Bool(false)),
    }
}

fn kind_name_x(d: &TData) -> (r: &'static str)
    ensures
        r@ == kind_name(d@),
{
    match d {
        TData::Bool(_) => "bool",
        TData::String(_) => "string",
        TData::Int(_) => "int",
        TData::UInt(_) => "uint",
        TData::Float(_) => "float",
        TData::List(_) => "list",
        TData::Dict(_) => "map",
        TData::Template(_) => "template",
        TData::Null => "null",
        TData::Date(_) => "date",
        TData::Bytes(_) => "bytes",
    }
}

/// The kind of the first argument, or whether it is the kind the second argument names.
pub fn type_of(l: &[TData]) -> (r: Result<TData, Error>)
    ensures
        data_agrees(r, type_of_s(datas_v(l@))),
{
    proof { lemma_datas_v_len(l@); }
    if l.len() == 0 {
        return Err(ea_str("missing params : type_of <item> <?match>"));
    }
    proof { lemma_datas_v_index(l@, 0); }
    let r = kind_name_x(&l[0]);
    if l.len() >= 2 {
        proof { lemma_datas_v_index(l@, 1); }
        let b = l[1].to_string();
        Ok(TData::Bool(crate::strs::str_eq(r, b.as_str())))
    } else {
        Ok(TData::String(crate::strs::string_from(r)))
    }
}

/// `gt` and `lt` on two dates follow the calendar: `gt a b` holds exactly when `b` is before
/// `a`, and `lt a b` exactly when `a` is before `b`; `gte` and `lte` also admit the same day.
pub proof fn law_compare_dates(a: crate::tdata::Date, b: crate::tdata::Date)
    ensures
        order_s(seq![VData::Date(a), VData::Date(b)], false, false, true) == Ok::<VData, ()>(VData::Bool(calendar_before(b, a))),
        order_s(seq![VData::Date(a), VData::Date(b)], true, false, false) == Ok::<VData, ()>(VData::Bool(calendar_before(a, b))),
        order_s(seq![VData::Date(a), VData::Date(b)], false, true, true) == Ok::<VData, ()>(VData::Bool(!calendar_before(a, b))),
        order_s(seq![VData::Date(a), VData::Date(b)], true, true, false) == Ok::<VData, ()>(VData::Bool(!calendar_before(b, a))),
{
    law_dates_in_calendar_order(a, b);
    let l = seq![VData::Date(a), VData::Date(b)];
    assert(l[0] == VData::Date(a) && l[1] == VData::Date(b));
    assert(all_ordered(l, false, false, true) == calendar_before(b, a));
    assert(all_ordered(l, true, false, false) == calendar_before(a, b));
    assert(all_ordered(l, false, true, true) == !calendar_before(a, b));
    assert(all_ordered(l, true, true, false) == !calendar_before(b, a));
}

/// `eq` on two values tells whether they are equal: texts, truth values and dates when they are
/// the same, whole numbers when they have the same value (a signed and an unsigned one too);
/// `neq` on two values is its opposite, and `eq_any` on two values agrees with it.
pub proof fn law_eq_two(x: VData, y: VData, a: Seq<char>, b: Seq<char>, u: usize, w: usize, i: isize, j: isize, p: bool, q: bool, d: crate::tdata::Date, e: crate::tdata::Date)
    ensures
        eq_s(seq![VData::String(a), VData::String(b)]) == Ok::<VData, ()>(VData::Bool(a == b)),
        eq_s(seq![VData::UInt(u), VData::UInt(w)]) == Ok::<VData, ()>(VData::Bool(u == w)),
        eq_s(seq![VData::Int(i), VData::Int(j)]) == Ok::<VData, ()>(VData::Bool(i == j)),
        u <= isize::MAX ==> eq_s(seq![VData::UInt(u), VData::Int(j)]) == Ok::<VData, ()>(VData::Bool(u == j)),
        eq_s(seq![VData::Bool(p), VData::Bool(q)]) == Ok::<VData, ()>(VData::Bool(p == q)),
        eq_s(seq![VData::Date(d), VData::Date(e)]) == Ok::<VData, ()>(VData::Bool(d == e)),
        eq_s(seq![x, y]) is Ok,
        neq_s(seq![x, y]) == Ok::<VData, ()>(VData::Bool(!eq_s(seq![x, y])->Ok_0->Bool_0)),
        eq_any_s(seq![x, y]) == eq_s(seq![x, y]),
{
    assert(seq![VData::String(a), VData::String(b)][1] == VData::String(b));
    assert(seq![VData::UInt(u), VData::UInt(w)][1] == VData::UInt(w));
    assert(seq![VData::Int(i), VData::Int(j)][1] == VData::Int(j));
    assert(seq![VData::UInt(u), VData::Int(j)][1] == VData::Int(j));
    assert(seq![VData::Bool(p), VData::Bool(q)][1] == VData::Bool(q));
    assert(seq![VData::Date(d), VData::Date(e)][1] == VData::Date(e));
    let l = seq![x, y];
    assert(l[0] == x && l[1] == y);
    if v_eq(y, x) {
        assert(exists|k: int| 1 <= k < l.len() && v_eq(#[trigger] l[k], l[0]));
    }
}

} // verus!
