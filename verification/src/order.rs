//! Orderings on the models of values: text, numbers, decimal texts and dates.
use vstd::prelude::*;
use core::cmp::Ordering;
use vstd::std_specs::cmp::PartialOrdSpecImpl;
use crate::num::{iz, nz, uz};
use crate::tdata::{TData, VData};

verus! {

/// The order of two integers.
pub open spec fn int_order(a: int, b: int) -> Ordering {
    if a < b {
        Ordering::Less
    } else if a == b {
        Ordering::Equal
    } else {
        Ordering::Greater
    }
}

/// Lexicographic order of two character sequences (by code point).
pub open spec fn lex_order(a: Seq<char>, b: Seq<char>) -> Ordering
    decreases a.len(),
{
    if a.len() == 0 && b.len() == 0 {
        Ordering::Equal
    } else if a.len() == 0 {
        Ordering::Less
    } else if b.len() == 0 {
        Ordering::Greater
    } else if a[0] < b[0] {
        Ordering::Less
    } else if a[0] > b[0] {
        Ordering::Greater
    } else {
        lex_order(a.drop_first(), b.drop_first())
    }
}

/// The reverse of an ordering.
pub open spec fn flip_order(o: Ordering) -> Ordering {
    match o {
        Ordering::Less => Ordering::Greater,
        Ordering::Equal => Ordering::Equal,
        Ordering::Greater => Ordering::Less,
    }
}

/// Whether a float text stands for zero.
pub open spec fn is_zero_text(t: Seq<char>) -> bool {
    t == seq!['0'] || t == seq!['-', '0']
}

/// Whether a float text stands for a negative value.
pub open spec fn is_neg_text(t: Seq<char>) -> bool {
    t.len() > 0 && t[0] == '-'
}

/// The text without its sign.
pub open spec fn magnitude(t: Seq<char>) -> Seq<char> {
    if is_neg_text(t) {
        t.drop_first()
    } else {
        t
    }
}

/// The position of the first `.` in a text, or its length when there is none.
pub open spec fn dot_pos(t: Seq<char>) -> nat
    decreases t.len(),
{
    if t.len() == 0 {
        0
    } else if t[0] == '.' {
        0
    } else {
        1 + dot_pos(t.drop_first())
    }
}

/// The digits before the point.
pub open spec fn int_digits(m: Seq<char>) -> Seq<char> {
    m.take(nz(dot_pos(m)))
}

/// The digits after the point.
pub open spec fn frac_digits(m: Seq<char>) -> Seq<char> {
    if dot_pos(m) < m.len() {
        m.skip(nz(dot_pos(m)) + 1)
    } else {
        seq![]
    }
}

/// The order of two unsigned magnitudes written in decimal without leading or trailing zeros
/// (`inf` above every finite one).
pub open spec fn mag_order(a: Seq<char>, b: Seq<char>) -> Ordering {
    let ia = a == seq!['i', 'n', 'f'];
    let ib = b == seq!['i', 'n', 'f'];
    if ia && ib {
        Ordering::Equal
    } else if ia {
        Ordering::Greater
    } else if ib {
        Ordering::Less
    } else {
        let da = int_digits(a);
        let db = int_digits(b);
        if da.len() != db.len() {
            int_order(nz(da.len()), nz(db.len()))
        } else {
            match lex_order(da, db) {
                Ordering::Equal => lex_order(frac_digits(a), frac_digits(b)),
                o => o,
            }
        }
    }
}

/// The sign of a float text: -1, 0 or 1.
pub open spec fn text_sign(t: Seq<char>) -> int {
    if is_zero_text(t) {
        0
    } else if is_neg_text(t) {
        -1
    } else {
        1
    }
}

/// The numeric order of two float texts as Rust prints them; `None` when either is `NaN`.
pub open spec fn dec_order(a: Seq<char>, b: Seq<char>) -> Option<Ordering> {
    if a == seq!['N', 'a', 'N'] || b == seq!['N', 'a', 'N'] {
        None
    } else if text_sign(a) != text_sign(b) {
        Some(int_order(text_sign(a), text_sign(b)))
    } else if text_sign(a) == 0 {
        Some(Ordering::Equal)
    } else if text_sign(a) > 0 {
        Some(mag_order(magnitude(a), magnitude(b)))
    } else {
        Some(flip_order(mag_order(magnitude(a), magnitude(b))))
    }
}

/// Equality of two float texts as IEEE equality of the values they print: `NaN` equals nothing,
/// and the two zeros are equal.
pub open spec fn float_eq(a: Seq<char>, b: Seq<char>) -> bool {
    (is_zero_text(a) && is_zero_text(b)) || (a == b && a != seq!['N', 'a', 'N'])
}

/// Lexicographic order of two character vectors.
pub fn lex_order_exec(a: &Vec<char>, b: &Vec<char>) -> (r: Ordering)
    ensures
        r == lex_order(a@, b@),
{
    let mut i: usize = 0;
    assert(a@.skip(0) == a@ && b@.skip(0) == b@);
    while i < a.len() && i < b.len()
        invariant
            i <= a.len(),
            i <= b.len(),
            lex_order(a@, b@) == lex_order(a@.skip(uz(i)), b@.skip(uz(i))),
        decreases a.len() - i,
    {
        assert(a@.skip(uz(i)).drop_first() == a@.skip(i + 1));
        assert(b@.skip(uz(i)).drop_first() == b@.skip(i + 1));
        if a[i] < b[i] {
            return Ordering::Less;
        }
        if a[i] > b[i] {
            return Ordering::Greater;
        }
        i = i + 1;
    }
    if i == a.len() && i == b.len() {
        Ordering::Equal
    } else if i == a.len() {
        Ordering::Less
    } else {
        Ordering::Greater
    }
}

/// The order of two `usize` values.
pub fn usize_order(a: usize, b: usize) -> (r: Ordering)
    ensures
        r == int_order(uz(a), uz(b)),
{
    if a < b {
        Ordering::Less
    } else if a == b {
        Ordering::Equal
    } else {
        Ordering::Greater
    }
}

/// The order of two `isize` values.
pub fn isize_order(a: isize, b: isize) -> (r: Ordering)
    ensures
        r == int_order(iz(a), iz(b)),
{
    if a < b {
        Ordering::Less
    } else if a == b {
        Ordering::Equal
    } else {
        Ordering::Greater
    }
}

} // verus!

verus! {

proof fn lemma_dot_pos(t: Seq<char>, i: int)
    requires
        0 <= i <= t.len(),
        forall|j: int| 0 <= j < i ==> t[j] != '.',
        i == t.len() || t[i] == '.',
    ensures
        dot_pos(t) == i,
    decreases i,
{
    if i > 0 {
        lemma_dot_pos(t.drop_first(), i - 1);
    }
}

/// The position of the first `.`, or the length.
fn dot_pos_exec(t: &Vec<char>) -> (r: usize)
    ensures
        r == dot_pos(t@),
        r <= t@.len(),
{
    let mut i: usize = 0;
    while i < t.len() && t[i] != '.'
        invariant
            i <= t.len(),
            forall|j: int| 0 <= j < i ==> t@[j] != '.',
        decreases t.len() - i,
    {
        i = i + 1;
    }
    proof {
        lemma_dot_pos(t@, uz(i));
    }
    i
}

/// The numeric order of two unsigned decimal magnitudes (see [`mag_order`]).
fn mag_order_exec(a: &Vec<char>, b: &Vec<char>) -> (r: Ordering)
    ensures
        r == mag_order(a@, b@),
{
    let ia = crate::strs::chars_eq_str(a, "inf");
    let ib = crate::strs::chars_eq_str(b, "inf");
    proof {
        reveal_strlit("inf");
        assert("inf"@ == seq!['i', 'n', 'f']);
    }
    if ia && ib {
        return Ordering::Equal;
    } else if ia {
        return Ordering::Greater;
    } else if ib {
        return Ordering::Less;
    }
    let pa = dot_pos_exec(a);
    let pb = dot_pos_exec(b);
    assert(int_digits(a@).len() == pa);
    assert(int_digits(b@).len() == pb);
    if pa != pb {
        return usize_order(pa, pb);
    }
    let da = crate::strs::sub_chars(a, 0, pa);
    let db = crate::strs::sub_chars(b, 0, pb);
    assert(da@ == int_digits(a@));
    assert(db@ == int_digits(b@));
    let o = lex_order_exec(&da, &db);
    match o {
        Ordering::Equal => {
            let fa = if pa < a.len() { crate::strs::sub_chars(a, pa + 1, a.len()) } else { Vec::new() };
            let fb = if pb < b.len() { crate::strs::sub_chars(b, pb + 1, b.len()) } else { Vec::new() };
            assert(fa@ == frac_digits(a@));
            assert(fb@ == frac_digits(b@));
            lex_order_exec(&fa, &fb)
        },
        o => o,
    }
}

/// The sign of a float text.
fn text_sign_exec(t: &Vec<char>) -> (r: i8)
    ensures
        r == text_sign(t@),
{
    let z1 = crate::strs::chars_eq_str(t, "0");
    let z2 = crate::strs::chars_eq_str(t, "-0");
    proof {
        reveal_strlit("0");
        reveal_strlit("-0");
        assert("0"@ == seq!['0']);
        assert("-0"@ == seq!['-', '0']);
    }
    if z1 || z2 {
        0
    } else if t.len() > 0 && t[0] == '-' {
        -1
    } else {
        1
    }
}

/// The numeric order of two float texts (see [`dec_order`]).
pub fn dec_order_exec(a: &Vec<char>, b: &Vec<char>) -> (r: Option<Ordering>)
    ensures
        r == dec_order(a@, b@),
{
    let na = crate::strs::chars_eq_str(a, "NaN");
    let nb = crate::strs::chars_eq_str(b, "NaN");
    proof {
        reveal_strlit("NaN");
        assert("NaN"@ == seq!['N', 'a', 'N']);
    }
    if na || nb {
        return None;
    }
    let sa = text_sign_exec(a);
    let sb = text_sign_exec(b);
    if sa != sb {
        return Some(if sa < sb { Ordering::Less } else { Ordering::Greater });
    }
    if sa == 0 {
        return Some(Ordering::Equal);
    }
    let ma = if a.len() > 0 && a[0] == '-' { crate::strs::sub_chars(a, 1, a.len()) } else { crate::strs::sub_chars(a, 0, a.len()) };
    let mb = if b.len() > 0 && b[0] == '-' { crate::strs::sub_chars(b, 1, b.len()) } else { crate::strs::sub_chars(b, 0, b.len()) };
    assert(ma@ == magnitude(a@));
    assert(mb@ == magnitude(b@));
    let o = mag_order_exec(&ma, &mb);
    if sa > 0 {
        Some(o)
    } else {
        Some(match o {
            Ordering::Less => Ordering::Greater,
            Ordering::Equal => Ordering::Equal,
            Ordering::Greater => Ordering::Less,
        })
    }
}

/// IEEE equality of two float texts (see [`float_eq`]).
pub fn float_eq_exec(a: &Vec<char>, b: &Vec<char>) -> (r: bool)
    ensures
        r == float_eq(a@, b@),
{
    let za = text_sign_exec(a) == 0;
    let zb = text_sign_exec(b) == 0;
    let nan = crate::strs::chars_eq_str(a, "NaN");
    proof {
        reveal_strlit("NaN");
        assert("NaN"@ == seq!['N', 'a', 'N']);
    }
    (za && zb) || (crate::strs::chars_eq(a, b) && !nan)
}

} // verus!

verus! {

/// The order of two dates: by year, then month, then day.
pub open spec fn date_order(a: crate::tdata::Date, b: crate::tdata::Date) -> Ordering {
    if a.year != b.year {
        int_order(crate::num::i32z(a.year), crate::num::i32z(b.year))
    } else if a.month != b.month {
        int_order(crate::num::u32z(a.month), crate::num::u32z(b.month))
    } else {
        int_order(crate::num::u32z(a.day), crate::num::u32z(b.day))
    }
}

/// The partial order of values: numbers by value, texts and dates in their own order,
/// anything else by the rank of its kind.
pub open spec fn data_order(a: VData, b: VData) -> Option<Ordering> {
    match (a, b) {
        (VData::UInt(x), VData::UInt(y)) => Some(int_order(uz(x), uz(y))),
        (VData::UInt(x), VData::Int(y)) => Some(int_order(iz(crate::num::wrap_isize(x)), iz(y))),
        (VData::Int(x), VData::UInt(y)) => Some(int_order(iz(x), iz(crate::num::wrap_isize(y)))),
        (VData::Int(x), VData::Int(y)) => Some(int_order(iz(x), iz(y))),
        _ => if crate::tdata::is_num(a) && crate::tdata::is_num(b) {
            dec_order(crate::tdata::num_text(a), crate::tdata::num_text(b))
        } else {
            match (a, b) {
                (VData::String(x), VData::String(y)) => Some(lex_order(x, y)),
                (VData::Date(x), VData::Date(y)) => Some(date_order(x, y)),
                _ => Some(int_order(uz(crate::tdata::v_rank(a)), uz(crate::tdata::v_rank(b)))),
            }
        },
    }
}

fn date_order_exec(a: &crate::tdata::Date, b: &crate::tdata::Date) -> (r: Ordering)
    ensures
        r == date_order(*a, *b),
{
    if a.year != b.year {
        if a.year < b.year { Ordering::Less } else { Ordering::Greater }
    } else if a.month != b.month {
        if a.month < b.month { Ordering::Less } else { Ordering::Greater }
    } else if a.day < b.day {
        Ordering::Less
    } else if a.day == b.day {
        Ordering::Equal
    } else {
        Ordering::Greater
    }
}

impl PartialOrd for TData {
    /// The partial order of values (see [`data_order`]).
    fn partial_cmp(&self, other: &TData) -> (r: Option<Ordering>) {
        self.compare_values(other)
    }
}

impl PartialOrdSpecImpl for TData {
    open spec fn obeys_partial_cmp_spec() -> bool {
        true
    }

    open spec fn partial_cmp_spec(&self, other: &TData) -> Option<Ordering> {
        data_order(self@, other@)
    }
}

impl TData {
    /// The partial order of values (see [`data_order`]).
    pub fn compare_values(&self, other: &TData) -> (r: Option<Ordering>)
        ensures
            r == data_order(self@, other@),
    {
        match (self, other) {
            (TData::UInt(x), TData::UInt(y)) => Some(usize_order(*x, *y)),
            (TData::UInt(x), TData::Int(y)) => Some(isize_order(crate::num::to_isize_wrapping(*x), *y)),
            (TData::Int(x), TData::UInt(y)) => Some(isize_order(*x, crate::num::to_isize_wrapping(*y))),
            (TData::Int(x), TData::Int(y)) => Some(isize_order(*x, *y)),
            (TData::UInt(_), TData::Float(_)) | (TData::Int(_), TData::Float(_))
            | (TData::Float(_), TData::UInt(_)) | (TData::Float(_), TData::Int(_))
            | (TData::Float(_), TData::Float(_)) => {
                let a = crate::tdata::num_text_exec(self);
                let b = crate::tdata::num_text_exec(other);
                dec_order_exec(&a, &b)
            },
            (TData::String(x), TData::String(y)) => {
                let a = crate::strs::chars_of(x.as_str());
                let b = crate::strs::chars_of(y.as_str());
                Some(lex_order_exec(&a, &b))
            },
            (TData::Date(x), TData::Date(y)) => Some(date_order_exec(x, y)),
            _ => Some(usize_order(self.mode_rank(), other.mode_rank())),
        }
    }
}

/// Whether date `a` comes before date `b` in the calendar: an earlier year, or the same year
/// and an earlier month, or the same year and month and an earlier day.
pub open spec fn calendar_before(a: crate::tdata::Date, b: crate::tdata::Date) -> bool {
    a.year < b.year || (a.year == b.year && a.month < b.month) || (a.year == b.year && a.month == b.month && a.day < b.day)
}

/// Dates compare as the calendar runs: the year decides first, then the month, then the day.
pub proof fn law_dates_in_calendar_order(a: crate::tdata::Date, b: crate::tdata::Date)
    ensures
        (data_order(VData::Date(a), VData::Date(b)) == Some(Ordering::Less)) == calendar_before(a, b),
        (data_order(VData::Date(a), VData::Date(b)) == Some(Ordering::Greater)) == calendar_before(b, a),
        (data_order(VData::Date(a), VData::Date(b)) == Some(Ordering::Equal))
            == (a.year == b.year && a.month == b.month && a.day == b.day),
{
}

/// Whole numbers compare by value: unsigned with unsigned, and signed with signed.
pub proof fn law_whole_numbers_in_order(x: usize, y: usize, i: isize, j: isize)
    ensures
        (data_order(VData::UInt(x), VData::UInt(y)) == Some(Ordering::Less)) == (x < y),
        (data_order(VData::UInt(x), VData::UInt(y)) == Some(Ordering::Equal)) == (x == y),
        (data_order(VData::UInt(x), VData::UInt(y)) == Some(Ordering::Greater)) == (x > y),
        (data_order(VData::Int(i), VData::Int(j)) == Some(Ordering::Less)) == (i < j),
        (data_order(VData::Int(i), VData::Int(j)) == Some(Ordering::Equal)) == (i == j),
        (data_order(VData::Int(i), VData::Int(j)) == Some(Ordering::Greater)) == (i > j),
{
}

/// Whether text `a` comes before text `b`: at the first position where they differ `a` has the
/// smaller character, or `a` is a proper beginning of `b`.
pub open spec fn text_before(a: Seq<char>, b: Seq<char>) -> bool {
    exists|i: int| 0 <= i <= a.len() && i <= b.len() && #[trigger] a.take(i) == b.take(i)
        && ((i == a.len() && i < b.len()) || (i < a.len() && i < b.len() && a[i] < b[i]))
}

proof fn lemma_before_step(a: Seq<char>, b: Seq<char>)
    requires
        a.len() > 0,
        b.len() > 0,
        a[0] == b[0],
    ensures
        text_before(a, b) == text_before(a.drop_first(), b.drop_first()),
{
    let a1 = a.drop_first();
    let b1 = b.drop_first();
    if text_before(a, b) {
        let i = choose|i: int| 0 <= i <= a.len() && i <= b.len() && #[trigger] a.take(i) == b.take(i)
            && ((i == a.len() && i < b.len()) || (i < a.len() && i < b.len() && a[i] < b[i]));
        if i == 0 {
            assert(a[0] < b[0] || a.len() == 0);
        }
        assert(i >= 1);
        assert(a1.take(i - 1) =~= a.take(i).drop_first());
        assert(b1.take(i - 1) =~= b.take(i).drop_first());
        assert(a1.take(i - 1) == b1.take(i - 1));
        if i < a.len() && i < b.len() {
            assert(a1[i - 1] == a[i] && b1[i - 1] == b[i]);
        }
    }
    if text_before(a1, b1) {
        let i = choose|i: int| 0 <= i <= a1.len() && i <= b1.len() && #[trigger] a1.take(i) == b1.take(i)
            && ((i == a1.len() && i < b1.len()) || (i < a1.len() && i < b1.len() && a1[i] < b1[i]));
        assert(a.take(i + 1) =~= seq![a[0]] + a1.take(i));
        assert(b.take(i + 1) =~= seq![b[0]] + b1.take(i));
        if i < a1.len() && i < b1.len() {
            assert(a1[i] == a[i + 1] && b1[i] == b[i + 1]);
        }
        assert(a.take(i + 1) == b.take(i + 1));
    }
}

proof fn lemma_before_first(a: Seq<char>, b: Seq<char>)
    requires
        a.len() > 0,
        b.len() > 0,
        a[0] < b[0],
    ensures
        text_before(a, b),
        !text_before(b, a),
{
    assert(a.take(0) =~= b.take(0));
    if text_before(b, a) {
        let i = choose|i: int| 0 <= i <= b.len() && i <= a.len() && #[trigger] b.take(i) == a.take(i)
            && ((i == b.len() && i < a.len()) || (i < b.len() && i < a.len() && b[i] < a[i]));
        if i > 0 {
            assert(b.take(i)[0] == a.take(i)[0]);
        }
    }
}

proof fn lemma_lex(a: Seq<char>, b: Seq<char>)
    ensures
        (lex_order(a, b) == Ordering::Less) == text_before(a, b),
        (lex_order(a, b) == Ordering::Greater) == text_before(b, a),
        (lex_order(a, b) == Ordering::Equal) == (a == b),
    decreases a.len(),
{
    if a.len() == 0 && b.len() == 0 {
        assert(a =~= b);
        if text_before(a, b) {
            let i = choose|i: int| 0 <= i <= a.len() && i <= b.len() && #[trigger] a.take(i) == b.take(i)
                && ((i == a.len() && i < b.len()) || (i < a.len() && i < b.len() && a[i] < b[i]));
        }
    } else if a.len() == 0 {
        assert(a.take(0) =~= b.take(0));
        assert(text_before(a, b));
        if text_before(b, a) {
            let i = choose|i: int| 0 <= i <= b.len() && i <= a.len() && #[trigger] b.take(i) == a.take(i)
                && ((i == b.len() && i < a.len()) || (i < b.len() && i < a.len() && b[i] < a[i]));
        }
    } else if b.len() == 0 {
        assert(b.take(0) =~= a.take(0));
        assert(text_before(b, a));
        if text_before(a, b) {
            let i = choose|i: int| 0 <= i <= a.len() && i <= b.len() && #[trigger] a.take(i) == b.take(i)
                && ((i == a.len() && i < b.len()) || (i < a.len() && i < b.len() && a[i] < b[i]));
        }
    } else if a[0] < b[0] {
        lemma_before_first(a, b);
    } else if a[0] > b[0] {
        lemma_before_first(b, a);
    } else {
        lemma_lex(a.drop_first(), b.drop_first());
        lemma_before_step(a, b);
        lemma_before_step(b, a);
        if a.drop_first() == b.drop_first() {
            assert(a =~= seq![a[0]] + a.drop_first());
            assert(b =~= seq![b[0]] + b.drop_first());
        }
    }
}

/// Texts compare by their characters: one comes before another exactly when, at the first
/// position where they differ, it has the smaller character, or it is a proper beginning of
/// the other; they compare equal exactly when they are the same text.
pub proof fn law_texts_in_order(a: Seq<char>, b: Seq<char>)
    ensures
        (data_order(VData::String(a), VData::String(b)) == Some(Ordering::Less)) == text_before(a, b),
        (data_order(VData::String(a), VData::String(b)) == Some(Ordering::Greater)) == text_before(b, a),
        (data_order(VData::String(a), VData::String(b)) == Some(Ordering::Equal)) == (a == b),
{
    lemma_lex(a, b);
}

} // verus!
