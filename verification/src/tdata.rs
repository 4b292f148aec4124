//! The data values that templates work on.
use vstd::prelude::*;
use vstd::std_specs::cmp::PartialEqSpecImpl;
use crate::template::{clone_template, items_v, TreeTemplate, VItem, VPart, VarPart};

verus! {

/// A calendar date (proleptic Gregorian), as year, month and day.
#[derive(Clone, Copy, Debug, PartialEq, Eq)]
pub struct Date {
    pub year: i32,
    pub month: u32,
    pub day: u32,
}

/// Key-value pairs of a map value, in the order they were first inserted.
pub type TMap = Vec<(String, TData)>;

/// The values passed around by templates.
///
/// A float is held as the text that Rust prints for it (`Display` of the `f64`);
/// arithmetic on floats is left to the embedding program.
#[derive(Debug)]
pub enum TData {
    Bool(bool),
    String(String),
    Int(isize),
    UInt(usize),
    Float(String),
    List(Vec<TData>),
    Dict(TMap),
    Template(TreeTemplate),
    Null,
    Date(Date),
    Bytes(Vec<u8>),
}

/// The mathematical model of a [`TData`] value.
pub enum VData {
    Bool(bool),
    String(Seq<char>),
    Int(isize),
    UInt(usize),
    Float(Seq<char>),
    List(Seq<VData>),
    Dict(Seq<(Seq<char>, VData)>),
    Template(Seq<VItem>),
    Null,
    Date(Date),
    Bytes(Seq<u8>),
}

/// The model of a value.
pub open spec fn data_v(d: TData) -> VData
    decreases d, 1nat,
{
    match d {
        TData::Bool(b) => VData::Bool(b),
        TData::String(s) => VData::String(s@),
        TData::Int(i) => VData::Int(i),
        TData::UInt(u) => VData::UInt(u),
        TData::Float(f) => VData::Float(f@),
        TData::List(l) => VData::List(datas_v(l@)),
        TData::Dict(m) => VData::Dict(entries_v(m@)),
        TData::Template(t) => VData::Template(items_v(t.v@)),
        TData::Null => VData::Null,
        TData::Date(x) => VData::Date(x),
        TData::Bytes(b) => VData::Bytes(b@),
    }
}

/// The models of a sequence of values.
pub open spec fn datas_v(s: Seq<TData>) -> Seq<VData>
    decreases s, 0nat,
{
    if s.len() == 0 {
        seq![]
    } else {
        datas_v(s.subrange(0, s.len() - 1)).push(data_v(s[s.len() - 1]))
    }
}

/// The models of the entries of a map value.
pub open spec fn entries_v(s: Seq<(String, TData)>) -> Seq<(Seq<char>, VData)>
    decreases s, 0nat,
{
    if s.len() == 0 {
        seq![]
    } else {
        entries_v(s.subrange(0, s.len() - 1)).push((s[s.len() - 1].0@, data_v(s[s.len() - 1].1)))
    }
}

impl View for TData {
    type V = VData;

    open spec fn view(&self) -> VData {
        data_v(*self)
    }
}

pub proof fn lemma_datas_v_len(s: Seq<TData>)
    ensures
        datas_v(s).len() == s.len(),
    decreases s.len(),
{
    if s.len() > 0 {
        lemma_datas_v_len(s.subrange(0, s.len() - 1));
    }
}

pub proof fn lemma_datas_v_index(s: Seq<TData>, i: int)
    requires
        0 <= i < s.len(),
    ensures
        datas_v(s)[i] == data_v(s[i]),
    decreases s.len(),
{
    lemma_datas_v_len(s.subrange(0, s.len() - 1));
    if i < s.len() - 1 {
        lemma_datas_v_index(s.subrange(0, s.len() - 1), i);
    }
}

/// The models of a sequence of values are the value models taken one by one.
pub proof fn lemma_datas_v_map(s: Seq<TData>)
    ensures
        datas_v(s) == s.map_values(|d: TData| data_v(d)),
{
    lemma_datas_v_len(s);
    assert forall|i: int| 0 <= i < s.len() implies datas_v(s)[i] == data_v(s[i]) by {
        lemma_datas_v_index(s, i);
    }
    assert(datas_v(s) =~= s.map_values(|d: TData| data_v(d)));
}


/// The models of a sequence with an element in front.
pub proof fn lemma_datas_v_cons(x: TData, s: Seq<TData>)
    ensures
        datas_v(seq![x] + s) == seq![data_v(x)] + datas_v(s),
{
    let t = seq![x] + s;
    lemma_datas_v_len(t);
    lemma_datas_v_len(s);
    assert forall|i: int| 0 <= i < t.len() implies datas_v(t)[i] == (seq![data_v(x)] + datas_v(s))[i] by {
        lemma_datas_v_index(t, i);
        if i > 0 {
            lemma_datas_v_index(s, i - 1);
        }
    }
    assert(datas_v(t) =~= seq![data_v(x)] + datas_v(s));
}


/// The models of a sequence with an element in front.
pub proof fn lemma_entries_v_cons(x: (String, TData), s: Seq<(String, TData)>)
    ensures
        entries_v(seq![x] + s) == seq![(x.0@, data_v(x.1))] + entries_v(s),
{
    let t = seq![x] + s;
    lemma_entries_v_len(t);
    lemma_entries_v_len(s);
    assert forall|i: int| 0 <= i < t.len() implies entries_v(t)[i] == (seq![(x.0@, data_v(x.1))] + entries_v(s))[i] by {
        lemma_entries_v_index(t, i);
        if i > 0 {
            lemma_entries_v_index(s, i - 1);
        }
    }
    assert(entries_v(t) =~= seq![(x.0@, data_v(x.1))] + entries_v(s));
}

pub proof fn lemma_datas_v_push(s: Seq<TData>, d: TData)
    ensures
        datas_v(s.push(d)) == datas_v(s).push(data_v(d)),
{
    assert(s.push(d).subrange(0, s.len() as int) == s);
}

pub proof fn lemma_entries_v_len(s: Seq<(String, TData)>)
    ensures
        entries_v(s).len() == s.len(),
    decreases s.len(),
{
    if s.len() > 0 {
        lemma_entries_v_len(s.subrange(0, s.len() - 1));
    }
}

pub proof fn lemma_entries_v_index(s: Seq<(String, TData)>, i: int)
    requires
        0 <= i < s.len(),
    ensures
        entries_v(s)[i] == (s[i].0@, data_v(s[i].1)),
    decreases s.len(),
{
    lemma_entries_v_len(s.subrange(0, s.len() - 1));
    if i < s.len() - 1 {
        lemma_entries_v_index(s.subrange(0, s.len() - 1), i);
    }
}

pub proof fn lemma_entries_v_push(s: Seq<(String, TData)>, e: (String, TData))
    ensures
        entries_v(s.push(e)) == entries_v(s).push((e.0@, data_v(e.1))),
{
    assert(s.push(e).subrange(0, s.len() as int) == s);
}

/// A copy of a list of values.
pub fn clone_list(l: &Vec<TData>) -> (r: Vec<TData>)
    ensures
        datas_v(r@) == datas_v(l@),
    decreases l, 0nat,
{
    let mut r: Vec<TData> = Vec::new();
    for i in 0..l.len()
        invariant
            datas_v(r@) == datas_v(l@.take(i as int)),
    {
        assert(decreases_to!(l => l@[i as int]));
        let d = clone_data(&l[i]);
        proof {
            lemma_datas_v_push(r@, d);
            lemma_datas_v_push(l@.take(i as int), l@[i as int]);
            assert(l@.take(i + 1) == l@.take(i as int).push(l@[i as int]));
        }
        r.push(d);
    }
    assert(l@.take(l.len() as int) == l@);
    r
}

/// A copy of the entries of a map value.
pub fn clone_map(m: &TMap) -> (r: TMap)
    ensures
        entries_v(r@) == entries_v(m@),
    decreases m, 0nat,
{
    let mut r: TMap = Vec::new();
    for i in 0..m.len()
        invariant
            entries_v(r@) == entries_v(m@.take(i as int)),
    {
        assert(decreases_to!(m => m@[i as int].1));
        let d = clone_data(&m[i].1);
        let e = (m[i].0.clone(), d);
        proof {
            lemma_entries_v_push(r@, e);
            lemma_entries_v_push(m@.take(i as int), m@[i as int]);
            assert(m@.take(i + 1) == m@.take(i as int).push(m@[i as int]));
        }
        r.push(e);
    }
    assert(m@.take(m.len() as int) == m@);
    r
}

/// A copy of a byte vector.
pub fn clone_bytes(b: &Vec<u8>) -> (r: Vec<u8>)
    ensures
        r@ == b@,
{
    let mut r: Vec<u8> = Vec::new();
    for i in 0..b.len()
        invariant
            r@ == b@.take(i as int),
    {
        r.push(b[i]);
        assert(b@.take(i + 1) == b@.take(i as int).push(b@[i as int]));
    }
    assert(b@.take(b.len() as int) == b@);
    r
}

/// A copy of a value.
pub fn clone_data(d: &TData) -> (r: TData)
    ensures
        r@ == d@,
    decreases d, 1nat,
{
    match d {
        TData::Bool(b) => TData::Bool(*b),
        TData::String(s) => TData::String(s.clone()),
        TData::Int(i) => TData::Int(*i),
        TData::UInt(u) => TData::UInt(*u),
        TData::Float(f) => TData::Float(f.clone()),
        TData::List(l) => TData::List(clone_list(l)),
        TData::Dict(m) => TData::Dict(clone_map(m)),
        TData::Template(t) => TData::Template(clone_template(t)),
        TData::Null => TData::Null,
        TData::Date(x) => TData::Date(*x),
        TData::Bytes(b) => TData::Bytes(clone_bytes(b)),
    }
}

impl Clone for TData {
    fn clone(&self) -> (r: Self)
        ensures
            r@ == self@,
    {
        clone_data(self)
    }
}

} // verus!

verus! {

/// The truth value of a value, where it has one.
pub open spec fn v_as_bool(d: VData) -> Option<bool> {
    match d {
        VData::Bool(b) => Some(b),
        VData::String(s) => Some(s.len() > 0),
        VData::UInt(u) => Some(u > 0),
        VData::Int(i) => Some(i != 0),
        VData::Float(t) => Some(!crate::order::is_zero_text(t)),
        VData::List(l) => Some(l.len() > 0),
        VData::Dict(m) => Some(m.len() > 0),
        VData::Null => Some(false),
        _ => None,
    }
}

/// The index value of a value: an unsigned, or a non-negative signed integer.
pub open spec fn v_as_usize(d: VData) -> Option<usize> {
    match d {
        VData::UInt(u) => Some(u),
        VData::Int(i) => if i >= 0 { Some(i as usize) } else { None },
        _ => None,
    }
}

/// The rank of a value's kind, used to order values of different kinds.
pub open spec fn v_rank(d: VData) -> usize {
    match d {
        VData::Null => 0,
        VData::Template(_) => 1,
        VData::Dict(_) => 2,
        VData::List(_) => 3,
        VData::Bool(_) => 4,
        VData::Int(_) => 5,
        VData::UInt(_) => 6,
        VData::Date(_) => 7,
        VData::Float(_) => 8,
        VData::String(_) => 9,
        VData::Bytes(_) => 10,
    }
}

/// The position of the first entry with key `k`, or -1.
pub open spec fn key_index(m: Seq<(Seq<char>, VData)>, k: Seq<char>) -> int
    decreases m.len(),
{
    if m.len() == 0 {
        -1
    } else if m[0].0 == k {
        0
    } else {
        let r = key_index(m.drop_first(), k);
        if r < 0 { -1 } else { r + 1 }
    }
}

/// The value stored under a key.
pub open spec fn dict_get(m: Seq<(Seq<char>, VData)>, k: Seq<char>) -> Option<VData> {
    let i = key_index(m, k);
    if i >= 0 { Some(m[i].1) } else { None }
}

/// The entries after storing `v` under `k`: an existing key keeps its place, a new one goes last.
pub open spec fn dict_insert(m: Seq<(Seq<char>, VData)>, k: Seq<char>, v: VData) -> Seq<(Seq<char>, VData)> {
    let i = key_index(m, k);
    if i >= 0 { m.update(i, (k, v)) } else { m.push((k, v)) }
}

pub proof fn lemma_key_index(m: Seq<(Seq<char>, VData)>, k: Seq<char>, i: int)
    requires
        0 <= i <= m.len(),
        forall|j: int| 0 <= j < i ==> m[j].0 != k,
        i == m.len() || m[i].0 == k,
    ensures
        key_index(m, k) == if i < m.len() { i } else { -1 },
    decreases i,
{
    if i > 0 {
        lemma_key_index(m.drop_first(), k, i - 1);
    }
}

pub proof fn lemma_key_index_bounds(m: Seq<(Seq<char>, VData)>, k: Seq<char>)
    ensures
        -1 <= key_index(m, k) < m.len(),
        key_index(m, k) >= 0 ==> m[key_index(m, k)].0 == k,
        key_index(m, k) < 0 ==> forall|j: int| 0 <= j < m.len() ==> m[j].0 != k,
    decreases m.len(),
{
    if m.len() > 0 {
        lemma_key_index_bounds(m.drop_first(), k);
        if m[0].0 != k && key_index(m.drop_first(), k) < 0 {
            assert forall|j: int| 0 <= j < m.len() implies m[j].0 != k by {
                if j > 0 {
                    assert(m[j] == m.drop_first()[j - 1]);
                }
            }
        }
    }
}

/// The value found by following a path into a value (the `TParam` lookup of a value).
pub open spec fn v_get_path(d: VData, p: Seq<VPart>) -> Option<VData>
    decreases p.len(),
{
    if p.len() == 0 {
        Some(d)
    } else {
        match (d, p[0]) {
            (VData::Dict(m), VPart::Id(k)) => match dict_get(m, k) {
                Some(x) => v_get_path(x, p.drop_first()),
                None => None,
            },
            (VData::List(l), VPart::Num(n)) => if n < l.len() {
                v_get_path(l[n as int], p.drop_first())
            } else {
                None
            },
            _ => None,
        }
    }
}

/// Equality of values: numbers by value across kinds, texts, truth values, dates and nulls;
/// lists, maps, templates and bytes are never equal.
pub open spec fn v_eq(a: VData, b: VData) -> bool {
    match (a, b) {
        (VData::UInt(x), VData::UInt(y)) => x == y,
        (VData::UInt(x), VData::Int(y)) => crate::num::wrap_isize(x) == y,
        (VData::Int(x), VData::UInt(y)) => x == crate::num::wrap_isize(y),
        (VData::Int(x), VData::Int(y)) => x == y,
        (VData::UInt(x), VData::Float(t)) => crate::order::float_eq(crate::strs::nat_text(x as nat), t),
        (VData::Int(x), VData::Float(t)) => crate::order::float_eq(crate::strs::int_text(x as int), t),
        (VData::Float(t), VData::UInt(y)) => crate::order::float_eq(t, crate::strs::nat_text(y as nat)),
        (VData::Float(t), VData::Int(y)) => crate::order::float_eq(t, crate::strs::int_text(y as int)),
        (VData::Float(s), VData::Float(t)) => crate::order::float_eq(s, t),
        (VData::String(x), VData::String(y)) => x == y,
        (VData::Bool(x), VData::Bool(y)) => x == y,
        (VData::Date(x), VData::Date(y)) => x == y,
        (VData::Null, VData::Null) => true,
        _ => false,
    }
}

/// The text of a value that is a number, used when comparing it with a float.
pub open spec fn num_text(d: VData) -> Seq<char> {
    match d {
        VData::UInt(x) => crate::strs::nat_text(x as nat),
        VData::Int(x) => crate::strs::int_text(x as int),
        VData::Float(t) => t,
        _ => seq![],
    }
}

/// Whether a value is a number.
pub open spec fn is_num(d: VData) -> bool {
    d is UInt || d is Int || d is Float
}

} // verus!

verus! {

/// The text of a number value (digits of an integer, or a float's text).
pub fn num_text_exec(d: &TData) -> (v: Vec<char>)
    requires
        is_num(d@),
    ensures
        v@ == num_text(d@),
{
    match d {
        TData::UInt(x) => crate::strs::u64_digits(*x as u64),
        TData::Int(x) => {
            let s = crate::strs::isize_text(*x);
            crate::strs::chars_of(s.as_str())
        },
        TData::Float(t) => crate::strs::chars_of(t.as_str()),
        _ => Vec::new(),
    }
}

impl PartialEq for TData {
    /// Equality of values (see [`v_eq`]): numbers by value across kinds; lists, maps,
    /// templates and bytes are never equal.
    fn eq(&self, other: &TData) -> (r: bool) {
        self.equals(other)
    }
}

impl PartialEqSpecImpl for TData {
    open spec fn obeys_eq_spec() -> bool {
        true
    }

    open spec fn eq_spec(&self, other: &TData) -> bool {
        v_eq(self@, other@)
    }
}

impl TData {
    /// Equality of values (see [`v_eq`]).
    pub fn equals(&self, other: &TData) -> (r: bool)
        ensures
            r == v_eq(self@, other@),
    {
        match (self, other) {
            (TData::UInt(x), TData::UInt(y)) => *x == *y,
            (TData::UInt(x), TData::Int(y)) => crate::num::to_isize_wrapping(*x) == *y,
            (TData::Int(x), TData::UInt(y)) => *x == crate::num::to_isize_wrapping(*y),
            (TData::Int(x), TData::Int(y)) => *x == *y,
            (TData::UInt(_), TData::Float(_)) | (TData::Int(_), TData::Float(_))
            | (TData::Float(_), TData::UInt(_)) | (TData::Float(_), TData::Int(_))
            | (TData::Float(_), TData::Float(_)) => {
                let a = num_text_exec(self);
                let b = num_text_exec(other);
                crate::order::float_eq_exec(&a, &b)
            },
            (TData::String(x), TData::String(y)) => crate::strs::str_eq(x.as_str(), y.as_str()),
            (TData::Bool(x), TData::Bool(y)) => *x == *y,
            (TData::Date(x), TData::Date(y)) => x.year == y.year && x.month == y.month && x.day == y.day,
            (TData::Null, TData::Null) => true,
            _ => false,
        }
    }

    /// The truth value, where the value has one.
    pub fn as_bool(&self) -> (r: Option<bool>)
        ensures
            r == v_as_bool(self@),
    {
        match self {
            TData::Bool(b) => Some(*b),
            TData::String(s) => Some(!s.as_str().is_empty()),
            TData::UInt(u) => Some(*u > 0),
            TData::Int(i) => Some(*i != 0),
            TData::Float(t) => {
                let v = crate::strs::chars_of(t.as_str());
                let z1 = crate::strs::chars_eq_str(&v, "0");
                let z2 = crate::strs::chars_eq_str(&v, "-0");
                proof {
                    reveal_strlit("0");
                    reveal_strlit("-0");
                    assert("0"@ == seq!['0']);
                    assert("-0"@ == seq!['-', '0']);
                }
                Some(!(z1 || z2))
            },
            TData::List(l) => {
                proof { lemma_datas_v_len(l@); }
                Some(l.len() > 0)
            },
            TData::Dict(m) => {
                proof { lemma_entries_v_len(m@); }
                Some(m.len() > 0)
            },
            TData::Null => Some(false),
            _ => None,
        }
    }

    /// The value used for lookups and indexing: an unsigned, or a non-negative signed integer.
    pub fn as_usize(&self) -> (r: Option<usize>)
        ensures
            r == v_as_usize(self@),
    {
        match self {
            TData::UInt(b) => Some(*b),
            TData::Int(n) => if *n >= 0 { Some(*n as usize) } else { None },
            _ => None,
        }
    }

    /// The text, when the value is a string.
    pub fn as_str(&self) -> (r: Option<&str>)
        ensures
            match self@ {
                VData::String(s) => r matches Some(t) && t@ == s,
                _ => r is None,
            },
    {
        match self {
            TData::String(s) => Some(s.as_str()),
            _ => None,
        }
    }

    /// The rank of the value's kind (see [`v_rank`]).
    pub fn mode_rank(&self) -> (r: usize)
        ensures
            r == v_rank(self@),
    {
        match self {
            TData::Null => 0,
            TData::Template(_) => 1,
            TData::Dict(_) => 2,
            TData::List(_) => 3,
            TData::Bool(_) => 4,
            TData::Int(_) => 5,
            TData::UInt(_) => 6,
            TData::Date(_) => 7,
            TData::Float(_) => 8,
            TData::String(_) => 9,
            TData::Bytes(_) => 10,
        }
    }
}

/// The position of the first entry of `m` with key `k`.
pub fn dict_find(m: &TMap, k: &str) -> (r: Option<usize>)
    ensures
        match r {
            Some(i) => i as int == key_index(entries_v(m@), k@) && i < m@.len(),
            None => key_index(entries_v(m@), k@) < 0,
        },
{
    proof { lemma_entries_v_len(m@); }
    for i in 0..m.len()
        invariant
            entries_v(m@).len() == m@.len(),
            forall|j: int| 0 <= j < i ==> entries_v(m@)[j].0 != k@,
    {
        proof { lemma_entries_v_index(m@, i as int); }
        if crate::strs::str_eq(m[i].0.as_str(), k) {
            proof { lemma_key_index(entries_v(m@), k@, i as int); }
            return Some(i);
        }
    }
    proof { lemma_key_index(entries_v(m@), k@, m@.len() as int); }
    None
}

/// A copy of the value stored under `k`.
pub fn dict_lookup(m: &TMap, k: &str) -> (r: Option<TData>)
    ensures
        match dict_get(entries_v(m@), k@) {
            Some(x) => r matches Some(y) && y@ == x,
            None => r is None,
        },
{
    match dict_find(m, k) {
        Some(i) => {
            proof { lemma_entries_v_index(m@, i as int); }
            Some(clone_data(&m[i].1))
        },
        None => None,
    }
}

/// Stores `v` under `k`: an existing key keeps its place, a new one goes last.
pub fn dict_set(m: &mut TMap, k: String, v: TData)
    ensures
        entries_v(final(m)@) == dict_insert(entries_v(old(m)@), k@, v@),
{
    proof { lemma_entries_v_len(m@); }
    match dict_find(m, k.as_str()) {
        Some(i) => {
            let ghost old_m = m@;
            m.set(i, (k, v));
            proof {
                lemma_entries_v_len(m@);
                assert forall|j: int| 0 <= j < m@.len() implies entries_v(m@)[j] == entries_v(old_m).update(i as int, (k@, v@))[j] by {
                    lemma_entries_v_index(m@, j);
                    lemma_entries_v_index(old_m, j);
                }
                assert(entries_v(m@) =~= entries_v(old_m).update(i as int, (k@, v@)));
            }
        },
        None => {
            proof { lemma_entries_v_push(m@, (k, v)); }
            m.push((k, v));
        },
    }
}

} // verus!

verus! {

/// A copy of the value found by following `p` from position `i` into `d`.
pub fn get_path_from(d: &TData, p: &[VarPart], i: usize) -> (r: Option<TData>)
    requires
        i <= p@.len(),
    ensures
        match v_get_path(d@, crate::template::path_v(p@).skip(i as int)) {
            Some(x) => r matches Some(y) && y@ == x,
            None => r is None,
        },
    decreases p@.len() - i,
{
    let ghost rest = crate::template::path_v(p@).skip(i as int);
    if i == p.len() {
        assert(rest.len() == 0);
        return Some(clone_data(d));
    }
    assert(rest[0] == crate::template::part_v(p@[i as int]));
    assert(rest.drop_first() =~= crate::template::path_v(p@).skip(i + 1));
    match (d, &p[i]) {
        (TData::Dict(m), VarPart::Id(k)) => {
            match dict_find(m, k.as_str()) {
                Some(j) => {
                    proof { lemma_entries_v_index(m@, j as int); }
                    get_path_from(&m[j].1, p, i + 1)
                },
                None => None,
            }
        },
        (TData::List(l), VarPart::Num(n)) => {
            proof { lemma_datas_v_len(l@); }
            if *n < l.len() {
                proof { lemma_datas_v_index(l@, *n as int); }
                get_path_from(&l[*n], p, i + 1)
            } else {
                None
            }
        },
        _ => None,
    }
}

} // verus!

verus! {

proof fn lemma_key_index_char(m: Seq<(Seq<char>, VData)>, k: Seq<char>, x: int)
    requires
        -1 <= x < m.len(),
        x >= 0 ==> m[x].0 == k,
        forall|j: int| 0 <= j < m.len() && (x < 0 || j < x) ==> m[j].0 != k,
    ensures
        key_index(m, k) == x,
{
    if x >= 0 {
        lemma_key_index(m, k, x);
    } else {
        lemma_key_index(m, k, m.len() as int);
    }
}

proof fn lemma_key_index_first(m: Seq<(Seq<char>, VData)>, k: Seq<char>)
    ensures
        forall|j: int| 0 <= j < m.len() && (key_index(m, k) < 0 || j < key_index(m, k)) ==> m[j].0 != k,
    decreases m.len(),
{
    lemma_key_index_bounds(m, k);
    if m.len() > 0 {
        lemma_key_index_first(m.drop_first(), k);
        assert forall|j: int| 0 <= j < m.len() && (key_index(m, k) < 0 || j < key_index(m, k)) implies m[j].0 != k by {
            if j > 0 {
                assert(m[j] == m.drop_first()[j - 1]);
            }
        }
    }
}

/// After storing `v` under `k`, the key `k` gives `v`.
pub proof fn lemma_dict_insert_same(m: Seq<(Seq<char>, VData)>, k: Seq<char>, v: VData)
    ensures
        dict_get(dict_insert(m, k, v), k) == Some(v),
{
    lemma_key_index_bounds(m, k);
    lemma_key_index_first(m, k);
    let i = key_index(m, k);
    let m2 = dict_insert(m, k, v);
    if i >= 0 {
        lemma_key_index_char(m2, k, i);
    } else {
        lemma_key_index_char(m2, k, m.len() as int);
    }
}

/// Storing under `k` leaves every other key as it was.
pub proof fn lemma_dict_insert_other(m: Seq<(Seq<char>, VData)>, k: Seq<char>, v: VData, j: Seq<char>)
    requires
        j != k,
    ensures
        dict_get(dict_insert(m, k, v), j) == dict_get(m, j),
{
    lemma_key_index_bounds(m, k);
    lemma_key_index_bounds(m, j);
    lemma_key_index_first(m, j);
    let i = key_index(m, k);
    let x = key_index(m, j);
    let m2 = dict_insert(m, k, v);
    if i >= 0 {
        assert forall|y: int| 0 <= y < m.len() implies m2[y].0 == m[y].0 by {}
        lemma_key_index_char(m2, j, x);
    } else {
        lemma_key_index_char(m2, j, x);
    }
}

} // verus!
