//! Reading values out of text: literal values, and cards in card_format's notation.
use vstd::prelude::*;
use crate::err::{ea_str, Error};
use crate::eval::data_agrees;
use crate::grammar::{data_s, dict_of, skip_wn};
use crate::parse::read_data;
use crate::tdata::{data_v, datas_v, dict_insert, dict_set, entries_v, lemma_datas_v_index, lemma_datas_v_len, lemma_datas_v_push, lemma_entries_v_push, TData, TMap, VData};

verus! {

/// `r_json`: the literal value at the start of the first argument's text.
pub open spec fn r_json_s(a: Seq<VData>) -> Result<VData, ()> {
    if a.len() == 0 {
        Err(())
    } else {
        match a[0] {
            VData::String(s) => match data_s(s, skip_wn(s, 0)) {
                Some((d, _)) => Ok(d),
                None => Err(()),
            },
            _ => Err(()),
        }
    }
}

/// Reads the literal value (JSON among them) at the start of the first argument's text.
pub fn r_json(l: &[TData]) -> (r: Result<TData, Error>)
    ensures
        data_agrees(r, r_json_s(datas_v(l@))),
{
    proof { lemma_datas_v_len(l@); }
    if l.len() == 0 {
        return Err(ea_str("r_json requires a string argument"));
    }
    proof { lemma_datas_v_index(l@, 0); }
    match &l[0] {
        TData::String(s) => match read_data(s.as_str()) {
            Some(d) => Ok(d),
            None => Err(ea_str("r_json could not read the value")),
        },
        _ => Err(ea_str("r_json requires a single string argument")),
    }
}

#[verifier::external_type_specification]
#[verifier::external_body]
pub struct ExCData(card_format::CData);

/// A value in a card: a text, a number, a list or a map (in key order).
pub enum CardValue {
    S(String),
    N(isize),
    L(Vec<CardValue>),
    M(Vec<(String, CardValue)>),
}

/// The model of a [`CardValue`].
pub enum VCardValue {
    S(Seq<char>),
    N(isize),
    L(Seq<VCardValue>),
    M(Seq<(Seq<char>, VCardValue)>),
}

/// The model of a card value.
pub open spec fn card_v(c: CardValue) -> VCardValue
    decreases c, 1nat,
{
    match c {
        CardValue::S(s) => VCardValue::S(s@),
        CardValue::N(n) => VCardValue::N(n),
        CardValue::L(l) => VCardValue::L(cards_v(l@)),
        CardValue::M(m) => VCardValue::M(card_entries_v(m@)),
    }
}

/// The models of a sequence of card values.
pub open spec fn cards_v(s: Seq<CardValue>) -> Seq<VCardValue>
    decreases s, 0nat,
{
    if s.len() == 0 {
        seq![]
    } else {
        cards_v(s.subrange(0, s.len() - 1)).push(card_v(s[s.len() - 1]))
    }
}

/// The models of the entries of a card map.
pub open spec fn card_entries_v(s: Seq<(String, CardValue)>) -> Seq<(Seq<char>, VCardValue)>
    decreases s, 0nat,
{
    if s.len() == 0 {
        seq![]
    } else {
        card_entries_v(s.subrange(0, s.len() - 1)).push((s[s.len() - 1].0@, card_v(s[s.len() - 1].1)))
    }
}

proof fn lemma_cards_v_push(s: Seq<CardValue>, x: CardValue)
    ensures
        cards_v(s.push(x)) == cards_v(s).push(card_v(x)),
{
    assert(s.push(x).subrange(0, s.len() as int) == s);
}

proof fn lemma_card_entries_v_push(s: Seq<(String, CardValue)>, x: (String, CardValue))
    ensures
        card_entries_v(s.push(x)) == card_entries_v(s).push((x.0@, card_v(x.1))),
{
    assert(s.push(x).subrange(0, s.len() as int) == s);
}

/// A card: its number, its name and its properties in key order.
pub struct CardRecord {
    pub num: usize,
    pub name: String,
    pub data: Vec<(String, CardValue)>,
}

/// The model of a [`CardRecord`].
pub struct VCard {
    pub num: usize,
    pub name: Seq<char>,
    pub data: Seq<(Seq<char>, VCardValue)>,
}

/// The model of a card.
pub open spec fn card_record_v(c: CardRecord) -> VCard {
    VCard { num: c.num, name: c.name@, data: card_entries_v(c.data@) }
}

/// The cards card_format reads from a text, each value taken one for one; `None` when it
/// refuses the text.
pub uninterp spec fn cards_read(s: Seq<char>) -> Option<Seq<VCard>>;

/// A card_format value as a [`CardValue`], one for one (a map in its key order). Used by
/// `read_cards` alone; nothing is claimed of it on its own.
#[verifier::external_body]
fn card_value(c: &card_format::CData) -> CardValue {
    match c {
        card_format::CData::S(s) => CardValue::S(s.clone()),
        card_format::CData::N(n) => CardValue::N(*n),
        card_format::CData::L(l) => CardValue::L(l.iter().map(card_value).collect()),
        card_format::CData::M(m) => CardValue::M(m.iter().map(|(k, v)| (k.clone(), card_value(v))).collect()),
    }
}

/// `card_format::parse_cards`.
///
/// Claims of card_format: the cards read, and whether the text is accepted, are a function of
/// the text alone.
#[verifier::external_body]
fn read_cards(s: &str) -> (r: Option<Vec<CardRecord>>)
    ensures
        match cards_read(s@) {
            Some(c) => r matches Some(v) && v@.map_values(|x: CardRecord| card_record_v(x)) == c,
            None => r is None,
        },
{
    match card_format::parse_cards(s) {
        Ok(cs) => Some(cs.iter().map(|c| CardRecord {
            num: c.num,
            name: c.name.clone(),
            data: c.data.iter().map(|(k, v)| (k.clone(), card_value(v))).collect(),
        }).collect()),
        Err(_) => None,
    }
}

/// The value a card value becomes: a text, a signed number, a list, or a map.
pub open spec fn card_data_s(c: VCardValue) -> VData
    decreases c, 1nat,
{
    match c {
        VCardValue::S(s) => VData::String(s),
        VCardValue::N(n) => VData::Int(n),
        VCardValue::L(l) => VData::List(card_datas_s(l)),
        VCardValue::M(m) => VData::Dict(dict_of(card_dict_s(m))),
    }
}

/// The values a sequence of card values becomes.
pub open spec fn card_datas_s(s: Seq<VCardValue>) -> Seq<VData>
    decreases s, 0nat,
{
    if s.len() == 0 {
        seq![]
    } else {
        card_datas_s(s.subrange(0, s.len() - 1)).push(card_data_s(s[s.len() - 1]))
    }
}

/// The entries a card map's entries become.
pub open spec fn card_dict_s(s: Seq<(Seq<char>, VCardValue)>) -> Seq<(Seq<char>, VData)>
    decreases s, 0nat,
{
    if s.len() == 0 {
        seq![]
    } else {
        card_dict_s(s.subrange(0, s.len() - 1)).push((s[s.len() - 1].0, card_data_s(s[s.len() - 1].1)))
    }
}

proof fn lemma_card_datas_push(s: Seq<VCardValue>, x: VCardValue)
    ensures
        card_datas_s(s.push(x)) == card_datas_s(s).push(card_data_s(x)),
{
    assert(s.push(x).subrange(0, s.len() as int) == s);
}

proof fn lemma_card_dict_push(s: Seq<(Seq<char>, VCardValue)>, x: (Seq<char>, VCardValue))
    ensures
        card_dict_s(s.push(x)) == card_dict_s(s).push((x.0, card_data_s(x.1))),
{
    assert(s.push(x).subrange(0, s.len() as int) == s);
}

/// The map value a card becomes: its properties, then `Name` and `Num`.
pub open spec fn card_s(c: VCard) -> VData {
    VData::Dict(dict_insert(dict_insert(dict_of(card_dict_s(c.data)), "Name"@, VData::String(c.name)), "Num"@, VData::UInt(c.num)))
}

/// `r_card`: the cards read from the first argument's text, each as a map.
pub open spec fn r_card_s(a: Seq<VData>) -> Result<VData, ()> {
    if a.len() == 0 {
        Err(())
    } else {
        match a[0] {
            VData::String(s) => match cards_read(s) {
                Some(cs) => Ok(VData::List(cs.map_values(|c: VCard| card_s(c)))),
                None => Err(()),
            },
            _ => Err(()),
        }
    }
}

/// The value a card value becomes.
fn card_data(c: &CardValue) -> (r: TData)
    ensures
        r@ == card_data_s(card_v(*c)),
    decreases c, 1nat,
{
    match c {
        CardValue::S(s) => TData::String(s.clone()),
        CardValue::N(n) => TData::Int(*n),
        CardValue::L(l) => TData::List(card_list(l)),
        CardValue::M(m) => {
            let e = card_entries(m);
            let mut d: TMap = Vec::new();
            assert(entries_v(d@) =~= Seq::<(Seq<char>, VData)>::empty());
            let ghost es = entries_v(e@);
            proof { crate::tdata::lemma_entries_v_len(e@); }
            let mut i: usize = 0;
            while i < e.len()
                invariant
                    i <= e.len(),
                    es == entries_v(e@),
                    es.len() == e.len(),
                    entries_v(d@) == dict_of(es.take(i as int)),
                decreases e.len() - i,
            {
                proof {
                    crate::tdata::lemma_entries_v_index(e@, i as int);
                    assert(es.take(i + 1).drop_last() =~= es.take(i as int));
                }
                dict_set(&mut d, e[i].0.clone(), e[i].1.clone());
                i = i + 1;
            }
            assert(es.take(es.len() as int) =~= es);
            TData::Dict(d)
        },
    }
}

/// The values a list of card values becomes.
fn card_list(l: &Vec<CardValue>) -> (r: Vec<TData>)
    ensures
        datas_v(r@) == card_datas_s(cards_v(l@)),
    decreases l, 0nat,
{
    let mut r: Vec<TData> = Vec::new();
    for i in 0..l.len()
        invariant
            datas_v(r@) == card_datas_s(cards_v(l@.take(i as int))),
    {
        assert(decreases_to!(l => l@[i as int]));
        let d = card_data(&l[i]);
        proof {
            lemma_datas_v_push(r@, d);
            assert(l@.take(i + 1) == l@.take(i as int).push(l@[i as int]));
            lemma_cards_v_push(l@.take(i as int), l@[i as int]);
            lemma_card_datas_push(cards_v(l@.take(i as int)), card_v(l@[i as int]));
        }
        r.push(d);
    }
    assert(l@.take(l.len() as int) == l@);
    r
}

/// The entries a card map's entries become.
fn card_entries(m: &Vec<(String, CardValue)>) -> (r: TMap)
    ensures
        entries_v(r@) == card_dict_s(card_entries_v(m@)),
    decreases m, 0nat,
{
    let mut r: TMap = Vec::new();
    for i in 0..m.len()
        invariant
            entries_v(r@) == card_dict_s(card_entries_v(m@.take(i as int))),
    {
        assert(decreases_to!(m => m@[i as int].1));
        let e = (m[i].0.clone(), card_data(&m[i].1));
        proof {
            lemma_entries_v_push(r@, e);
            assert(m@.take(i + 1) == m@.take(i as int).push(m@[i as int]));
            lemma_card_entries_v_push(m@.take(i as int), m@[i as int]);
            lemma_card_dict_push(card_entries_v(m@.take(i as int)), (m@[i as int].0@, card_v(m@[i as int].1)));
        }
        r.push(e);
    }
    assert(m@.take(m.len() as int) == m@);
    r
}

/// The map value a card becomes: its properties, then `Name` and `Num`.
fn card_to_data(c: &CardRecord) -> (r: TData)
    ensures
        r@ == card_s(card_record_v(*c)),
{
    let e = card_entries(&c.data);
    let mut d: TMap = Vec::new();
    assert(entries_v(d@) =~= Seq::<(Seq<char>, VData)>::empty());
    let ghost es = entries_v(e@);
    proof { crate::tdata::lemma_entries_v_len(e@); }
    let mut i: usize = 0;
    while i < e.len()
        invariant
            i <= e.len(),
            es == entries_v(e@),
            es.len() == e.len(),
            entries_v(d@) == dict_of(es.take(i as int)),
        decreases e.len() - i,
    {
        proof {
            crate::tdata::lemma_entries_v_index(e@, i as int);
            assert(es.take(i + 1).drop_last() =~= es.take(i as int));
        }
        dict_set(&mut d, e[i].0.clone(), e[i].1.clone());
        i = i + 1;
    }
    assert(es.take(es.len() as int) =~= es);
    dict_set(&mut d, String::from_str("Name"), TData::String(c.name.clone()));
    dict_set(&mut d, String::from_str("Num"), TData::UInt(c.num));
    TData::Dict(d)
}

/// Reads the cards of the first argument's text, each as a map of its properties with its
/// `Name` and `Num`.
pub fn r_card(l: &[TData]) -> (r: Result<TData, Error>)
    ensures
        data_agrees(r, r_card_s(datas_v(l@))),
{
    proof { lemma_datas_v_len(l@); }
    if l.len() == 0 {
        return Err(ea_str("r_card requires a string argument"));
    }
    proof { lemma_datas_v_index(l@, 0); }
    let cards = match &l[0] {
        TData::String(s) => match read_cards(s.as_str()) {
            Some(c) => c,
            None => { return Err(ea_str("r_card could not read the cards")); },
        },
        _ => { return Err(ea_str("r_card requires a single string argument")); },
    };
    let ghost cs = cards@.map_values(|x: CardRecord| card_record_v(x));
    let mut out: Vec<TData> = Vec::new();
    let mut i: usize = 0;
    while i < cards.len()
        invariant
            i <= cards.len(),
            cs == cards@.map_values(|x: CardRecord| card_record_v(x)),
            out@.len() == i,
            forall|j: int| 0 <= j < i ==> #[trigger] data_v(out@[j]) == card_s(cs[j]),
        decreases cards.len() - i,
    {
        out.push(card_to_data(&cards[i]));
        i = i + 1;
    }
    proof {
        crate::tdata::lemma_datas_v_map(out@);
        assert(datas_v(out@) =~= cs.map_values(|c: VCard| card_s(c)));
    }
    Ok(TData::List(out))
}

} // verus!
