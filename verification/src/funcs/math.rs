//! Arithmetic on numbers. Whole numbers are handled here; arithmetic that involves a float is
//! refused, and left to a function manager of the embedding program.
use vstd::prelude::*;
use crate::err::{ea_str, Error};
use crate::eval::data_agrees;
use crate::num::{to_isize_wrapping, wrap_isize};
use crate::tdata::{clone_data, datas_v, lemma_datas_v_index, lemma_datas_v_len, TData, VData};

verus! {

/// Two numbers brought to a common kind: both unsigned, both signed, or with a float among them
/// (held as the texts of the two numbers).
pub enum NumMatch {
    U(usize, usize),
    I(isize, isize),
    F(Seq<char>, Seq<char>),
}

/// The common kind of two values, when both are numbers. An unsigned number meeting a signed
/// one is reinterpreted as signed.
pub open spec fn num_match(a: VData, b: VData) -> Option<NumMatch> {
    match (a, b) {
        (VData::UInt(x), VData::UInt(y)) => Some(NumMatch::U(x, y)),
        (VData::UInt(x), VData::Int(y)) => Some(NumMatch::I(wrap_isize(x), y)),
        (VData::Int(x), VData::UInt(y)) => Some(NumMatch::I(x, wrap_isize(y))),
        (VData::Int(x), VData::Int(y)) => Some(NumMatch::I(x, y)),
        (VData::UInt(_), VData::Float(t)) => Some(NumMatch::F(crate::tdata::num_text(a), t)),
        (VData::Int(_), VData::Float(t)) => Some(NumMatch::F(crate::tdata::num_text(a), t)),
        (VData::Float(t), VData::UInt(_)) => Some(NumMatch::F(t, crate::tdata::num_text(b))),
        (VData::Float(t), VData::Int(_)) => Some(NumMatch::F(t, crate::tdata::num_text(b))),
        (VData::Float(s), VData::Float(t)) => Some(NumMatch::F(s, t)),
        _ => None,
    }
}

/// The arithmetic operations.
#[derive(Clone, Copy)]
pub enum Arith {
    Add,
    Sub,
    Mul,
    Div,
    Mod,
    Min,
    Max,
}

/// Division rounding toward zero.
pub open spec fn tdiv(a: int, b: int) -> int {
    let q = (if a >= 0 { a } else { -a }) / (if b >= 0 { b } else { -b });
    if (a >= 0) == (b >= 0) { q } else { -q }
}

/// The remainder that goes with [`tdiv`]: it has the sign of the dividend.
pub open spec fn trem(a: int, b: int) -> int {
    a - b * tdiv(a, b)
}

/// A signed result, when it fits.
pub open spec fn int_res(v: int) -> Result<VData, ()> {
    if isize::MIN <= v <= isize::MAX { Ok(VData::Int(v as isize)) } else { Err(()) }
}

/// An unsigned result, when it fits.
pub open spec fn uint_res(v: int) -> Result<VData, ()> {
    if 0 <= v <= usize::MAX { Ok(VData::UInt(v as usize)) } else { Err(()) }
}

/// One step of arithmetic on two values. Unsigned subtraction that would go below zero gives a
/// signed result; a result that does not fit, a division by zero, a float or a non-number is
/// an error.
pub open spec fn arith_s(op: Arith, a: VData, b: VData) -> Result<VData, ()> {
    match num_match(a, b) {
        Some(NumMatch::U(x, y)) => uarith_s(op, x, y),
        Some(NumMatch::I(x, y)) => iarith_s(op, x, y),
        _ => Err(()),
    }
}

/// Arithmetic on two unsigned numbers.
pub open spec fn uarith_s(op: Arith, x: usize, y: usize) -> Result<VData, ()> {
    match op {
        Arith::Add => uint_res(x + y),
        Arith::Sub => if x >= y { uint_res(x - y) } else { int_res(wrap_isize(x) - wrap_isize(y)) },
        Arith::Mul => uint_res(x * y),
        Arith::Div => if y == 0 { Err(()) } else { Ok(VData::UInt(x / y)) },
        Arith::Mod => if y == 0 { Err(()) } else { Ok(VData::UInt(x % y)) },
        Arith::Min => Ok(VData::UInt(if x <= y { x } else { y })),
        Arith::Max => Ok(VData::UInt(if x >= y { x } else { y })),
    }
}

/// Arithmetic on two signed numbers.
pub open spec fn iarith_s(op: Arith, x: isize, y: isize) -> Result<VData, ()> {
    match op {
        Arith::Add => int_res(x + y),
        Arith::Sub => int_res(x - y),
        Arith::Mul => int_res(x * y),
        Arith::Div => if y == 0 { Err(()) } else { int_res(tdiv(x as int, y as int)) },
        Arith::Mod => if y == 0 || int_res(tdiv(x as int, y as int)) is Err { Err(()) } else { int_res(trem(x as int, y as int)) },
        Arith::Min => Ok(VData::Int(if x <= y { x } else { y })),
        Arith::Max => Ok(VData::Int(if x >= y { x } else { y })),
    }
}

/// Folding the first `n` arguments from the left with an operation (the first taken as it is).
pub open spec fn fold_to(op: Arith, l: Seq<VData>, n: int) -> Result<VData, ()>
    decreases n,
{
    if n <= 1 {
        Ok(l[0])
    } else {
        match fold_to(op, l, n - 1) {
            Ok(acc) => arith_s(op, acc, l[n - 1]),
            Err(()) => Err(()),
        }
    }
}

/// An operation folded over all the arguments; no arguments is an error.
pub open spec fn fold_s(op: Arith, l: Seq<VData>) -> Result<VData, ()> {
    if l.len() == 0 {
        Err(())
    } else {
        fold_to(op, l, l.len() as int)
    }
}

/// `sub` with one argument negates it.
pub open spec fn negate_s(d: VData) -> Result<VData, ()> {
    match d {
        VData::UInt(n) => int_res(-(wrap_isize(n) as int)),
        VData::Int(n) => int_res(-(n as int)),
        _ => Err(()),
    }
}

fn tdiv_x(a: isize, b: isize) -> (r: Option<isize>)
    requires
        b != 0,
    ensures
        match int_res(tdiv(a as int, b as int)) {
            Ok(VData::Int(v)) => r == Some(v),
            _ => r is None,
        },
{
    let ua: u128 = if a >= 0 { a as u128 } else { (-(a as i128)) as u128 };
    let ub: u128 = if b >= 0 { b as u128 } else { (-(b as i128)) as u128 };
    let q: u128 = ua / ub;
    assert(q <= ua) by (nonlinear_arith)
        requires
            ub >= 1,
            q == ua / ub;
    if (a >= 0) == (b >= 0) {
        if q > isize::MAX as u128 {
            None
        } else {
            Some(q as isize)
        }
    } else {
        let nq: i128 = -(q as i128);
        if nq < isize::MIN as i128 {
            None
        } else {
            Some(nq as isize)
        }
    }
}

fn uarith_x(op: Arith, x: usize, y: usize) -> (r: Result<TData, Error>)
    ensures
        data_agrees(r, uarith_s(op, x, y)),
{
    match op {
        Arith::Add => match x.checked_add(y) {
            Some(v) => Ok(TData::UInt(v)),
            None => Err(ea_str("Number too big to add")),
        },
        Arith::Sub => if x >= y {
            Ok(TData::UInt(x - y))
        } else {
            match to_isize_wrapping(x).checked_sub(to_isize_wrapping(y)) {
                Some(v) => Ok(TData::Int(v)),
                None => Err(ea_str("Number too big to sub")),
            }
        },
        Arith::Mul => match x.checked_mul(y) {
            Some(v) => Ok(TData::UInt(v)),
            None => Err(ea_str("Number too big to mul")),
        },
        Arith::Div => if y == 0 { Err(ea_str("Division by zero")) } else { Ok(TData::UInt(x / y)) },
        Arith::Mod => if y == 0 { Err(ea_str("Division by zero")) } else { Ok(TData::UInt(x % y)) },
        Arith::Min => Ok(TData::UInt(if x <= y { x } else { y })),
        Arith::Max => Ok(TData::UInt(if x >= y { x } else { y })),
    }
}

fn iarith_x(op: Arith, x: isize, y: isize) -> (r: Result<TData, Error>)
    ensures
        data_agrees(r, iarith_s(op, x, y)),
{
    match op {
        Arith::Add => match x.checked_add(y) {
            Some(v) => Ok(TData::Int(v)),
            None => Err(ea_str("Number too big to add")),
        },
        Arith::Sub => match x.checked_sub(y) {
            Some(v) => Ok(TData::Int(v)),
            None => Err(ea_str("Number too big to sub")),
        },
        Arith::Mul => match x.checked_mul(y) {
            Some(v) => Ok(TData::Int(v)),
            None => Err(ea_str("Number too big to mul")),
        },
        Arith::Div => if y == 0 {
            Err(ea_str("Division by zero"))
        } else {
            match tdiv_x(x, y) {
                Some(v) => Ok(TData::Int(v)),
                None => Err(ea_str("Number too big to div")),
            }
        },
        Arith::Mod => if y == 0 {
            Err(ea_str("Division by zero"))
        } else {
            match tdiv_x(x, y) {
                Some(q) => {
                    let yi: i128 = y as i128;
                    let qi: i128 = q as i128;
                    assert(-0x4000_0000_0000_0000_0000_0000_0000_0000 <= yi * qi <= 0x4000_0000_0000_0000_0000_0000_0000_0000) by (nonlinear_arith)
                        requires
                            -0x8000_0000_0000_0000 <= yi <= 0x8000_0000_0000_0000,
                            -0x8000_0000_0000_0000 <= qi <= 0x8000_0000_0000_0000;
                    let m: i128 = (x as i128) - yi * qi;
                    assert(m == trem(x as int, y as int));
                    if m < isize::MIN as i128 || m > isize::MAX as i128 {
                        Err(ea_str("Number too big to mod"))
                    } else {
                        Ok(TData::Int(m as isize))
                    }
                },
                None => {
                    Err(ea_str("Number too big to mod"))
                },
            }
        },
        Arith::Min => Ok(TData::Int(if x <= y { x } else { y })),
        Arith::Max => Ok(TData::Int(if x >= y { x } else { y })),
    }
}

fn arith_x(op: Arith, a: &TData, b: &TData) -> (r: Result<TData, Error>)
    ensures
        data_agrees(r, arith_s(op, a@, b@)),
{
    match (a, b) {
        (TData::UInt(x), TData::UInt(y)) => uarith_x(op, *x, *y),
        (TData::UInt(x), TData::Int(y)) => iarith_x(op, to_isize_wrapping(*x), *y),
        (TData::Int(x), TData::UInt(y)) => iarith_x(op, *x, to_isize_wrapping(*y)),
        (TData::Int(x), TData::Int(y)) => iarith_x(op, *x, *y),
        _ => Err(ea_str("Arithmetic needs whole numbers")),
    }
}

fn fold_x(op: Arith, l: &[TData]) -> (r: Result<TData, Error>)
    ensures
        data_agrees(r, fold_s(op, datas_v(l@))),
{
    let ghost ls = datas_v(l@);
    proof { lemma_datas_v_len(l@); }
    if l.len() == 0 {
        return Err(ea_str("No arguments given"));
    }
    proof { lemma_datas_v_index(l@, 0); }
    let mut acc = clone_data(&l[0]);
    let mut i: usize = 1;
    while i < l.len()
        invariant
            1 <= i <= l.len(),
            ls == datas_v(l@),
            ls.len() == l.len(),
            fold_to(op, ls, i as int) == Ok::<VData, ()>(acc@),
        decreases l.len() - i,
    {
        proof { lemma_datas_v_index(l@, i as int); }
        match arith_x(op, &acc, &l[i]) {
            Ok(v) => { acc = v; },
            Err(e) => {
                proof { lemma_fold_err(op, ls, i as int + 1); }
                return Err(e);
            },
        }
        i = i + 1;
    }
    Ok(acc)
}

proof fn lemma_fold_err(op: Arith, l: Seq<VData>, n: int)
    requires
        1 <= n <= l.len(),
        fold_to(op, l, n) is Err,
    ensures
        fold_to(op, l, l.len() as int) is Err,
    decreases l.len() - n,
{
    if n < l.len() {
        lemma_fold_err(op, l, n + 1);
    }
}

/// The sum of the arguments.
pub fn add(l: &[TData]) -> (r: Result<TData, Error>)
    ensures
        data_agrees(r, fold_s(Arith::Add, datas_v(l@))),
{
    fold_x(Arith::Add, l)
}

/// The first argument less the later ones; a single argument is negated.
pub fn sub(l: &[TData]) -> (r: Result<TData, Error>)
    ensures
        datas_v(l@).len() == 1 ==> data_agrees(r, negate_s(datas_v(l@)[0])),
        datas_v(l@).len() != 1 ==> data_agrees(r, fold_s(Arith::Sub, datas_v(l@))),
{
    proof { lemma_datas_v_len(l@); }
    if l.len() == 1 {
        proof { lemma_datas_v_index(l@, 0); }
        return match &l[0] {
            TData::UInt(n) => {
                let m = to_isize_wrapping(*n);
                match 0isize.checked_sub(m) {
                    Some(v) => Ok(TData::Int(v)),
                    None => Err(ea_str("Number too big to negate")),
                }
            },
            TData::Int(n) => match 0isize.checked_sub(*n) {
                Some(v) => Ok(TData::Int(v)),
                None => Err(ea_str("Number too big to negate")),
            },
            _ => Err(ea_str("sub only works on whole numbers")),
        };
    }
    fold_x(Arith::Sub, l)
}

/// The product of the arguments.
pub fn mul(l: &[TData]) -> (r: Result<TData, Error>)
    ensures
        data_agrees(r, fold_s(Arith::Mul, datas_v(l@))),
{
    fold_x(Arith::Mul, l)
}

/// The first argument divided by the later ones in turn.
pub fn div(l: &[TData]) -> (r: Result<TData, Error>)
    ensures
        data_agrees(r, fold_s(Arith::Div, datas_v(l@))),
{
    fold_x(Arith::Div, l)
}

/// The remainder of the first argument by the later ones in turn.
pub fn modulo(l: &[TData]) -> (r: Result<TData, Error>)
    ensures
        data_agrees(r, fold_s(Arith::Mod, datas_v(l@))),
{
    fold_x(Arith::Mod, l)
}

/// The least argument.
pub fn min(l: &[TData]) -> (r: Result<TData, Error>)
    ensures
        data_agrees(r, fold_s(Arith::Min, datas_v(l@))),
{
    fold_x(Arith::Min, l)
}

/// The greatest argument.
pub fn max(l: &[TData]) -> (r: Result<TData, Error>)
    ensures
        data_agrees(r, fold_s(Arith::Max, datas_v(l@))),
{
    fold_x(Arith::Max, l)
}

/// An operation on two arguments is the operation on the pair.
proof fn lemma_fold_two(op: Arith, a: VData, b: VData)
    ensures
        fold_s(op, seq![a, b]) == arith_s(op, a, b),
{
    let l = seq![a, b];
    assert(fold_to(op, l, 1) == Ok::<VData, ()>(a));
    assert(l[1] == b);
}

/// The size of an integer.
pub open spec fn abs_int(v: int) -> int {
    if v < 0 { -v } else { v }
}

/// Arithmetic on two unsigned numbers: `add`, `mul` and `sub` give the exact result, which for
/// `sub` below zero is signed, and fail exactly when it does not fit; `div` and `mod` give a
/// quotient and remainder with `q * y + m == x` and `m < y`, and fail on zero; `min` gives
/// the one of the two that is no larger than either, `max` the one no smaller.
pub proof fn law_unsigned_arith(x: usize, y: usize)
    ensures
        (fold_s(Arith::Add, seq![VData::UInt(x), VData::UInt(y)]) is Ok) == (x + y <= usize::MAX),
        x + y <= usize::MAX ==> (fold_s(Arith::Add, seq![VData::UInt(x), VData::UInt(y)]) matches Ok(VData::UInt(z)) && z == x + y),
        (fold_s(Arith::Mul, seq![VData::UInt(x), VData::UInt(y)]) is Ok) == (x * y <= usize::MAX),
        x * y <= usize::MAX ==> (fold_s(Arith::Mul, seq![VData::UInt(x), VData::UInt(y)]) matches Ok(VData::UInt(z)) && z == x * y),
        x >= y ==> (fold_s(Arith::Sub, seq![VData::UInt(x), VData::UInt(y)]) matches Ok(VData::UInt(z)) && z == x - y),
        x < y && y <= isize::MAX ==> (fold_s(Arith::Sub, seq![VData::UInt(x), VData::UInt(y)]) matches Ok(VData::Int(z)) && z == x - y),
        y == 0 ==> fold_s(Arith::Div, seq![VData::UInt(x), VData::UInt(y)]) is Err,
        y == 0 ==> fold_s(Arith::Mod, seq![VData::UInt(x), VData::UInt(y)]) is Err,
        y != 0 ==> (fold_s(Arith::Div, seq![VData::UInt(x), VData::UInt(y)]) matches Ok(VData::UInt(q))
            && fold_s(Arith::Mod, seq![VData::UInt(x), VData::UInt(y)]) matches Ok(VData::UInt(m))
            && q * y + m == x && m < y),
        fold_s(Arith::Min, seq![VData::UInt(x), VData::UInt(y)]) matches Ok(VData::UInt(z))
            && z <= x && z <= y && (z == x || z == y),
        fold_s(Arith::Max, seq![VData::UInt(x), VData::UInt(y)]) matches Ok(VData::UInt(z))
            && z >= x && z >= y && (z == x || z == y),
{
    lemma_fold_two(Arith::Add, VData::UInt(x), VData::UInt(y));
    lemma_fold_two(Arith::Sub, VData::UInt(x), VData::UInt(y));
    lemma_fold_two(Arith::Mul, VData::UInt(x), VData::UInt(y));
    lemma_fold_two(Arith::Div, VData::UInt(x), VData::UInt(y));
    lemma_fold_two(Arith::Mod, VData::UInt(x), VData::UInt(y));
    lemma_fold_two(Arith::Min, VData::UInt(x), VData::UInt(y));
    lemma_fold_two(Arith::Max, VData::UInt(x), VData::UInt(y));
    if y != 0 {
        vstd::arithmetic::div_mod::lemma_fundamental_div_mod(x as int, y as int);
        vstd::arithmetic::div_mod::lemma_mod_pos_bound(x as int, y as int);
        assert((x / y) as int * y + (x % y) as int == x) by (nonlinear_arith)
            requires x as int == y as int * (x as int / y as int) + (x as int % y as int);
    }
    if x < y && y <= isize::MAX {
        assert(wrap_isize(x) == x && wrap_isize(y) == y);
    }
}

proof fn lemma_trunc(a: int, b: int)
    requires
        b != 0,
    ensures
        tdiv(a, b) * b + trem(a, b) == a,
        abs_int(trem(a, b)) < abs_int(b),
        trem(a, b) == 0 || (trem(a, b) < 0) == (a < 0),
        abs_int(tdiv(a, b) * b) <= abs_int(a),
{
    let x = abs_int(a);
    let y = abs_int(b);
    assert(tdiv(a, b) * b == b * tdiv(a, b)) by (nonlinear_arith);
    vstd::arithmetic::div_mod::lemma_fundamental_div_mod(x, y);
    vstd::arithmetic::div_mod::lemma_mod_pos_bound(x, y);
    let q = x / y;
    let r = x % y;
    assert(q >= 0) by (nonlinear_arith) requires x >= 0, y > 0, q == x / y;
    assert(y * q >= 0) by (nonlinear_arith) requires y > 0, q >= 0;
    assert(b * q == y * q || b * q == -(y * q)) by (nonlinear_arith) requires y == abs_int(b), abs_int(b) == (if b < 0 { -b } else { b });
    if (a >= 0) == (b >= 0) {
        assert(tdiv(a, b) == q);
        assert(tdiv(a, b) * b == b * q) by (nonlinear_arith) requires tdiv(a, b) == q;
        if a >= 0 {
            assert(b * q == y * q);
        } else {
            assert(b * q == -(y * q)) by (nonlinear_arith) requires b < 0, y == -b;
        }
    } else {
        assert(tdiv(a, b) == -q);
        assert(tdiv(a, b) * b == -(b * q)) by (nonlinear_arith) requires tdiv(a, b) == -q;
        if a >= 0 {
            assert(b * q == -(y * q)) by (nonlinear_arith) requires b < 0, y == -b;
        } else {
            assert(b * q == y * q);
        }
    }
}

proof fn lemma_tdiv_fits(a: int, b: int)
    requires
        isize::MIN <= a <= isize::MAX,
        isize::MIN <= b <= isize::MAX,
        b != 0,
        !(a == isize::MIN && b == -1),
    ensures
        isize::MIN <= tdiv(a, b) <= isize::MAX,
{
    let x = abs_int(a);
    let y = abs_int(b);
    vstd::arithmetic::div_mod::lemma_fundamental_div_mod(x, y);
    vstd::arithmetic::div_mod::lemma_mod_pos_bound(x, y);
    let q = x / y;
    assert(0 <= q <= x) by (nonlinear_arith) requires x >= 0, y >= 1, x == y * q + x % y, x % y >= 0;
    assert(x <= 0x8000_0000_0000_0000);
    if (a >= 0) == (b >= 0) {
        if y == 1 {
            assert(q == x) by (nonlinear_arith) requires x == y * q + x % y, 0 <= x % y < y, y == 1;
            if a < 0 {
                assert(b == -1);
            }
        } else {
            assert(2 * q <= x) by (nonlinear_arith) requires y >= 2, q >= 0, x == y * q + x % y, x % y >= 0;
        }
    }
}

/// Arithmetic on two signed numbers: `add`, `sub` and `mul` give the exact result and fail
/// exactly when it does not fit; `div` and `mod` fail on zero and otherwise, when the quotient
/// fits, give the quotient rounded toward zero and the remainder: `q * j + m == i`, the
/// remainder smaller in size than `j` and of the sign of `i`, and `q * j` no larger in size
/// than `i`; `min` gives the one of the two that is no larger than either, `max` the one no
/// smaller.
pub proof fn law_signed_arith(i: isize, j: isize)
    ensures
        (fold_s(Arith::Add, seq![VData::Int(i), VData::Int(j)]) is Ok) == (isize::MIN <= i + j <= isize::MAX),
        isize::MIN <= i + j <= isize::MAX ==> (fold_s(Arith::Add, seq![VData::Int(i), VData::Int(j)]) matches Ok(VData::Int(z)) && z == i + j),
        (fold_s(Arith::Sub, seq![VData::Int(i), VData::Int(j)]) is Ok) == (isize::MIN <= i - j <= isize::MAX),
        isize::MIN <= i - j <= isize::MAX ==> (fold_s(Arith::Sub, seq![VData::Int(i), VData::Int(j)]) matches Ok(VData::Int(z)) && z == i - j),
        (fold_s(Arith::Mul, seq![VData::Int(i), VData::Int(j)]) is Ok) == (isize::MIN <= i * j <= isize::MAX),
        isize::MIN <= i * j <= isize::MAX ==> (fold_s(Arith::Mul, seq![VData::Int(i), VData::Int(j)]) matches Ok(VData::Int(z)) && z == i * j),
        j == 0 ==> fold_s(Arith::Div, seq![VData::Int(i), VData::Int(j)]) is Err,
        j == 0 ==> fold_s(Arith::Mod, seq![VData::Int(i), VData::Int(j)]) is Err,
        fold_s(Arith::Div, seq![VData::Int(i), VData::Int(j)]) matches Ok(VData::Int(q)) ==> (
            fold_s(Arith::Mod, seq![VData::Int(i), VData::Int(j)]) matches Ok(VData::Int(m))
            && q * j + m == i
            && abs_int(m as int) < abs_int(j as int)
            && (m == 0 || (m < 0) == (i < 0))
            && abs_int(q * j) <= abs_int(i as int)),
        j != 0 && !(i == isize::MIN && j == -1) ==> fold_s(Arith::Div, seq![VData::Int(i), VData::Int(j)]) is Ok,
        fold_s(Arith::Min, seq![VData::Int(i), VData::Int(j)]) matches Ok(VData::Int(z))
            && z <= i && z <= j && (z == i || z == j),
        fold_s(Arith::Max, seq![VData::Int(i), VData::Int(j)]) matches Ok(VData::Int(z))
            && z >= i && z >= j && (z == i || z == j),
{
    lemma_fold_two(Arith::Add, VData::Int(i), VData::Int(j));
    lemma_fold_two(Arith::Sub, VData::Int(i), VData::Int(j));
    lemma_fold_two(Arith::Mul, VData::Int(i), VData::Int(j));
    lemma_fold_two(Arith::Div, VData::Int(i), VData::Int(j));
    lemma_fold_two(Arith::Mod, VData::Int(i), VData::Int(j));
    lemma_fold_two(Arith::Min, VData::Int(i), VData::Int(j));
    lemma_fold_two(Arith::Max, VData::Int(i), VData::Int(j));
    if j != 0 {
        lemma_trunc(i as int, j as int);
        let q = tdiv(i as int, j as int);
        let m = trem(i as int, j as int);
        if !(i == isize::MIN && j == -1) {
            lemma_tdiv_fits(i as int, j as int);
        }
    }
}

/// Whether the result of `min` (or `max` when `big`) over the first `n` values is right: one of
/// them, and no larger (no smaller) than any of them.
pub open spec fn extreme_of(l: Seq<VData>, n: int, r: VData, big: bool) -> bool {
    &&& exists|k: int| 0 <= k < n && #[trigger] l[k] == r
    &&& forall|k: int| 0 <= k < n ==> match (#[trigger] l[k], r) {
        (VData::UInt(a), VData::UInt(z)) => if big { a <= z } else { z <= a },
        (VData::Int(a), VData::Int(z)) => if big { a <= z } else { z <= a },
        _ => false,
    }
}

proof fn lemma_fold_extreme(op: Arith, l: Seq<VData>, n: int, unsigned: bool)
    requires
        op == Arith::Min || op == Arith::Max,
        1 <= n <= l.len(),
        forall|k: int| 0 <= k < l.len() ==> if unsigned { #[trigger] l[k] is UInt } else { l[k] is Int },
    ensures
        fold_to(op, l, n) matches Ok(r) && extreme_of(l, n, r, op == Arith::Max),
    decreases n,
{
    if n == 1 {
        assert(l[0] == l[0]);
        assert(fold_to(op, l, 1) == Ok::<VData, ()>(l[0]));
        assert(exists|k: int| 0 <= k < 1 && #[trigger] l[k] == l[0]);
    } else {
        lemma_fold_extreme(op, l, n - 1, unsigned);
        let acc = fold_to(op, l, n - 1)->Ok_0;
        let last = l[n - 1];
        let r = fold_to(op, l, n)->Ok_0;
        assert(fold_to(op, l, n) == arith_s(op, acc, last));
        let k0 = choose|k: int| 0 <= k < n - 1 && l[k] == acc;
        if unsigned {
            assert(acc is UInt && last is UInt);
        } else {
            assert(acc is Int && last is Int);
        }
        if r == acc {
            assert(0 <= k0 < n && l[k0] == r);
        } else {
            assert(r == last);
            assert(0 <= n - 1 < n && l[n - 1] == r);
        }
        assert forall|k: int| 0 <= k < n implies match (#[trigger] l[k], r) {
            (VData::UInt(a), VData::UInt(z)) => if op == Arith::Max { a <= z } else { z <= a },
            (VData::Int(a), VData::Int(z)) => if op == Arith::Max { a <= z } else { z <= a },
            _ => false,
        } by {
            if k < n - 1 {
                assert(match (l[k], acc) {
                    (VData::UInt(a), VData::UInt(z)) => if op == Arith::Max { a <= z } else { z <= a },
                    (VData::Int(a), VData::Int(z)) => if op == Arith::Max { a <= z } else { z <= a },
                    _ => false,
                });
            }
        }
    }
}

/// `min` over any number of unsigned numbers, or of signed numbers, gives one of them that is
/// no larger than any of them; `max` gives one that is no smaller than any of them.
pub proof fn law_min_max_many(l: Seq<VData>, unsigned: bool)
    requires
        l.len() >= 1,
        forall|k: int| 0 <= k < l.len() ==> if unsigned { #[trigger] l[k] is UInt } else { l[k] is Int },
    ensures
        fold_s(Arith::Min, l) matches Ok(r) && extreme_of(l, l.len() as int, r, false),
        fold_s(Arith::Max, l) matches Ok(r) && extreme_of(l, l.len() as int, r, true),
{
    lemma_fold_extreme(Arith::Min, l, l.len() as int, unsigned);
    lemma_fold_extreme(Arith::Max, l, l.len() as int, unsigned);
}

} // verus!
