//! The texts printed for values: `Display` for templates, and the `Debug` form used inside maps.
use vstd::prelude::*;
use crate::tdata::{datas_v, entries_v, lemma_datas_v_index, lemma_datas_v_len, lemma_entries_v_index, lemma_entries_v_len, TData, TMap, VData};
use crate::strs::{int_text, nat_text, push_char, push_str};

verus! {

/// Lowercase hexadecimal digits of a number, without leading zeros.
pub open spec fn hex_text(n: nat) -> Seq<char>
    decreases n,
{
    if n < 16 {
        seq![hex_digit(n)]
    } else {
        hex_text(n / 16).push(hex_digit(n % 16))
    }
}

/// One lowercase hexadecimal digit.
pub open spec fn hex_digit(d: nat) -> char {
    if d < 10 { (d + 48) as char } else { (d + 87) as char }
}

/// How `Debug` writes one character inside a quoted string.
pub open spec fn char_escape(c: char) -> Seq<char> {
    if c == '"' {
        seq!['\\', '"']
    } else if c == '\\' {
        seq!['\\', '\\']
    } else if c == '\n' {
        seq!['\\', 'n']
    } else if c == '\r' {
        seq!['\\', 'r']
    } else if c == '\t' {
        seq!['\\', 't']
    } else if c == '\0' {
        seq!['\\', '0']
    } else if (c as u32) < 32 || (c as u32) == 127 {
        seq!['\\', 'u', '{'] + hex_text(c as nat) + seq!['}']
    } else {
        seq![c]
    }
}

/// The escaped characters of a string.
pub open spec fn escaped(s: Seq<char>) -> Seq<char>
    decreases s.len(),
{
    if s.len() == 0 {
        seq![]
    } else {
        escaped(s.subrange(0, s.len() - 1)) + char_escape(s[s.len() - 1])
    }
}

/// A string as `Debug` prints it: quoted and escaped.
pub open spec fn quoted(s: Seq<char>) -> Seq<char> {
    seq!['"'] + escaped(s) + seq!['"']
}

/// A float text as `Debug` prints it: an integral value gets a `.0`.
pub open spec fn float_debug(t: Seq<char>) -> Seq<char> {
    if t.contains('.') || t == seq!['N', 'a', 'N'] || t == seq!['i', 'n', 'f'] || t == seq!['-', 'i', 'n', 'f'] {
        t
    } else {
        t + seq!['.', '0']
    }
}

/// Bytes as a `Debug` list: `[1, 2, 3]`.
pub open spec fn bytes_body(b: Seq<u8>) -> Seq<char>
    decreases b.len(),
{
    if b.len() == 0 {
        seq![]
    } else if b.len() == 1 {
        nat_text(b[0] as nat)
    } else {
        bytes_body(b.subrange(0, b.len() - 1)) + seq![',', ' '] + nat_text(b[b.len() - 1] as nat)
    }
}

/// The text a template prints for a value.
pub open spec fn v_display(d: VData) -> Seq<char>
    decreases d, 2nat,
{
    match d {
        VData::Bool(b) => if b { seq!['t', 'r', 'u', 'e'] } else { seq!['f', 'a', 'l', 's', 'e'] },
        VData::String(s) => s,
        VData::Int(i) => int_text(i as int),
        VData::UInt(u) => nat_text(u as nat),
        VData::Float(t) => t,
        VData::List(l) => seq!['['] + list_body(l) + seq![']'],
        VData::Dict(m) => seq!['{'] + dict_body(m) + seq!['}'],
        VData::Null => seq!['N', 'U', 'L', 'L'],
        VData::Template(_) => seq!['T', 'E', 'M', 'P', 'L', 'A', 'T', 'E'],
        VData::Date(x) => crate::date::date_text(x),
        VData::Bytes(b) => seq!['b', '"', '['] + bytes_body(b) + seq![']', '"'],
    }
}

/// The displayed elements of a list, separated by commas.
pub open spec fn list_body(l: Seq<VData>) -> Seq<char>
    decreases l, 1nat,
{
    if l.len() == 0 {
        seq![]
    } else if l.len() == 1 {
        v_display(l[0])
    } else {
        list_body(l.subrange(0, l.len() - 1)) + seq![','] + v_display(l[l.len() - 1])
    }
}

/// The `Debug` text of a value.
pub open spec fn v_debug(d: VData) -> Seq<char>
    decreases d, 2nat,
{
    match d {
        VData::Bool(b) => seq!['B', 'o', 'o', 'l', '('] + (if b { seq!['t', 'r', 'u', 'e'] } else { seq!['f', 'a', 'l', 's', 'e'] }) + seq![')'],
        VData::String(s) => seq!['S', 't', 'r', 'i', 'n', 'g', '('] + quoted(s) + seq![')'],
        VData::Int(i) => seq!['I', 'n', 't', '('] + int_text(i as int) + seq![')'],
        VData::UInt(u) => seq!['U', 'I', 'n', 't', '('] + nat_text(u as nat) + seq![')'],
        VData::Float(t) => seq!['F', 'l', 'o', 'a', 't', '('] + float_debug(t) + seq![')'],
        VData::List(l) => seq!['L', 'i', 's', 't', '(', '['] + list_debug_body(l) + seq![']', ')'],
        VData::Dict(m) => seq!['M', 'a', 'p', '(', '{'] + dict_body(m) + seq!['}', ')'],
        VData::Null => seq!['N', 'u', 'l', 'l'],
        VData::Template(_) => seq!['T', 'e', 'm', 'p', 'l', 'a', 't', 'e', '(', '.', '.', ')'],
        VData::Date(x) => seq!['D', 'a', 't', 'e', '('] + crate::date::date_debug(x) + seq![')'],
        VData::Bytes(b) => seq!['B', 'y', 't', 'e', 's', '(', '['] + bytes_body(b) + seq![']', ')'],
    }
}

/// The `Debug` texts of list elements, separated by `, `.
pub open spec fn list_debug_body(l: Seq<VData>) -> Seq<char>
    decreases l, 1nat,
{
    if l.len() == 0 {
        seq![]
    } else if l.len() == 1 {
        v_debug(l[0])
    } else {
        list_debug_body(l.subrange(0, l.len() - 1)) + seq![',', ' '] + v_debug(l[l.len() - 1])
    }
}

/// One map entry as `Debug` prints it: `"key": value`.
pub open spec fn entry_debug(e: (Seq<char>, VData)) -> Seq<char>
    decreases e, 1nat,
{
    quoted(e.0) + seq![':', ' '] + v_debug(e.1)
}

/// The `Debug` texts of map entries, separated by `, `.
pub open spec fn dict_body(m: Seq<(Seq<char>, VData)>) -> Seq<char>
    decreases m, 1nat,
{
    if m.len() == 0 {
        seq![]
    } else if m.len() == 1 {
        entry_debug(m[0])
    } else {
        dict_body(m.subrange(0, m.len() - 1)) + seq![',', ' '] + entry_debug(m[m.len() - 1])
    }
}

} // verus!

verus! {

fn hex_digit_exec(d: u32) -> (c: char)
    requires
        d < 16,
    ensures
        c == hex_digit(d as nat),
{
    if d < 10 {
        let b: u8 = 48u8 + (d as u8);
        b as char
    } else {
        let b: u8 = 87u8 + (d as u8);
        b as char
    }
}

fn hex_exec(n: u32) -> (v: Vec<char>)
    ensures
        v@ == hex_text(n as nat),
    decreases n,
{
    if n < 16 {
        let mut v = Vec::new();
        v.push(hex_digit_exec(n));
        v
    } else {
        let mut v = hex_exec(n / 16);
        v.push(hex_digit_exec(n % 16));
        v
    }
}

fn push_chars(out: &mut String, v: &Vec<char>)
    ensures
        final(out)@ == old(out)@ + v@,
{
    let ghost start = out@;
    for i in 0..v.len()
        invariant
            out@ == start + v@.take(i as int),
    {
        push_char(out, v[i]);
        assert(v@.take(i + 1) == v@.take(i as int).push(v@[i as int]));
    }
    assert(v@.take(v.len() as int) == v@);
}

fn push_char_escape(out: &mut String, c: char)
    ensures
        final(out)@ == old(out)@ + char_escape(c),
{
    if c == '"' {
        push_str(out, "\\\"");
        proof { reveal_strlit("\\\""); }
    } else if c == '\\' {
        push_str(out, "\\\\");
        proof { reveal_strlit("\\\\"); }
    } else if c == '\n' {
        push_str(out, "\\n");
        proof { reveal_strlit("\\n"); }
    } else if c == '\r' {
        push_str(out, "\\r");
        proof { reveal_strlit("\\r"); }
    } else if c == '\t' {
        push_str(out, "\\t");
        proof { reveal_strlit("\\t"); }
    } else if c == '\0' {
        push_str(out, "\\0");
        proof { reveal_strlit("\\0"); }
    } else if (c as u32) < 32 || (c as u32) == 127 {
        push_str(out, "\\u{");
        proof { reveal_strlit("\\u{"); }
        let h = hex_exec(c as u32);
        push_chars(out, &h);
        push_char(out, '}');
    } else {
        push_char(out, c);
    }
}

/// Appends a string, quoted and escaped as `Debug` does.
pub fn push_quoted(out: &mut String, s: &str)
    ensures
        final(out)@ == old(out)@ + quoted(s@),
{
    let v = crate::strs::chars_of(s);
    let ghost start = out@;
    push_char(out, '"');
    for i in 0..v.len()
        invariant
            v@ == s@,
            out@ == start + seq!['"'] + escaped(v@.take(i as int)),
    {
        push_char_escape(out, v[i]);
        assert(v@.take(i + 1).subrange(0, i as int) == v@.take(i as int));
    }
    assert(v@.take(v.len() as int) == v@);
    push_char(out, '"');
}

fn push_bytes_body(out: &mut String, b: &Vec<u8>)
    ensures
        final(out)@ == old(out)@ + bytes_body(b@),
{
    let ghost start = out@;
    for i in 0..b.len()
        invariant
            out@ == start + bytes_body(b@.take(i as int)),
    {
        if i > 0 {
            push_str(out, ", ");
            proof { reveal_strlit(", "); }
        }
        let s = crate::strs::usize_text(b[i] as usize);
        push_str(out, s.as_str());
        assert(b@.take(i + 1).subrange(0, i as int) == b@.take(i as int));
    }
    assert(b@.take(b.len() as int) == b@);
}

proof fn lemma_datas_take(l: Seq<TData>, i: int)
    requires
        0 <= i < l.len(),
    ensures
        datas_v(l).take(i + 1) == datas_v(l).take(i).push(crate::tdata::data_v(l[i])),
{
    lemma_datas_v_len(l);
    lemma_datas_v_index(l, i);
    assert(datas_v(l).take(i + 1) =~= datas_v(l).take(i).push(crate::tdata::data_v(l[i])));
}

proof fn lemma_entries_take(m: Seq<(String, TData)>, i: int)
    requires
        0 <= i < m.len(),
    ensures
        entries_v(m).take(i + 1) == entries_v(m).take(i).push((m[i].0@, crate::tdata::data_v(m[i].1))),
{
    lemma_entries_v_len(m);
    lemma_entries_v_index(m, i);
    assert(entries_v(m).take(i + 1) =~= entries_v(m).take(i).push((m[i].0@, crate::tdata::data_v(m[i].1))));
}

/// Appends the text a template prints for a value.
pub fn push_display(out: &mut String, d: &TData)
    ensures
        final(out)@ == old(out)@ + v_display(d@),
    decreases d, 2nat,
{
    match d {
        TData::Bool(b) => {
            if *b {
                push_str(out, "true");
                proof { reveal_strlit("true"); }
            } else {
                push_str(out, "false");
                proof { reveal_strlit("false"); }
            }
        },
        TData::String(s) => push_str(out, s.as_str()),
        TData::Int(i) => {
            let s = crate::strs::isize_text(*i);
            push_str(out, s.as_str());
        },
        TData::UInt(u) => {
            let s = crate::strs::usize_text(*u);
            push_str(out, s.as_str());
        },
        TData::Float(t) => push_str(out, t.as_str()),
        TData::List(l) => {
            push_char(out, '[');
            push_list_body(out, l);
            push_char(out, ']');
        },
        TData::Dict(m) => {
            push_char(out, '{');
            push_dict_body(out, m);
            push_char(out, '}');
        },
        TData::Null => {
            push_str(out, "NULL");
            proof { reveal_strlit("NULL"); }
        },
        TData::Template(_) => {
            push_str(out, "TEMPLATE");
            proof { reveal_strlit("TEMPLATE"); }
        },
        TData::Date(x) => {
            let v = crate::date::date_text_exec(x);
            push_chars(out, &v);
        },
        TData::Bytes(b) => {
            push_str(out, "b\"[");
            proof { reveal_strlit("b\"["); }
            push_bytes_body(out, b);
            push_str(out, "]\"");
            proof { reveal_strlit("]\""); }
        },
    }
}

fn push_list_body(out: &mut String, l: &Vec<TData>)
    ensures
        final(out)@ == old(out)@ + list_body(datas_v(l@)),
    decreases l, 1nat,
{
    let ghost start = out@;
    proof { lemma_datas_v_len(l@); }
    for i in 0..l.len()
        invariant
            datas_v(l@).len() == l@.len(),
            out@ == start + list_body(datas_v(l@).take(i as int)),
    {
        proof { lemma_datas_take(l@, i as int); }
        if i > 0 {
            push_char(out, ',');
        }
        assert(decreases_to!(l => l@[i as int]));
        push_display(out, &l[i]);
        assert(datas_v(l@).take(i + 1).subrange(0, i as int) == datas_v(l@).take(i as int));
    }
    assert(datas_v(l@).take(l@.len() as int) == datas_v(l@));
}

fn push_dict_body(out: &mut String, m: &TMap)
    ensures
        final(out)@ == old(out)@ + dict_body(entries_v(m@)),
    decreases m, 1nat,
{
    let ghost start = out@;
    proof { lemma_entries_v_len(m@); }
    for i in 0..m.len()
        invariant
            entries_v(m@).len() == m@.len(),
            out@ == start + dict_body(entries_v(m@).take(i as int)),
    {
        proof { lemma_entries_take(m@, i as int); }
        if i > 0 {
            push_str(out, ", ");
            proof { reveal_strlit(", "); }
        }
        let ghost mid = out@;
        push_quoted(out, m[i].0.as_str());
        push_str(out, ": ");
        proof { reveal_strlit(": "); }
        assert(decreases_to!(m => m@[i as int].1));
        push_debug(out, &m[i].1);
        let ghost e = (m@[i as int].0@, crate::tdata::data_v(m@[i as int].1));
        assert(out@ == mid + entry_debug(e));
        assert(entries_v(m@).take(i + 1).subrange(0, i as int) == entries_v(m@).take(i as int));
        assert(entries_v(m@).take(i + 1)[i as int] == e);
    }
    assert(entries_v(m@).take(m@.len() as int) == entries_v(m@));
}

/// Appends the `Debug` text of a value.
pub fn push_debug(out: &mut String, d: &TData)
    ensures
        final(out)@ == old(out)@ + v_debug(d@),
    decreases d, 2nat,
{
    match d {
        TData::Bool(b) => {
            push_str(out, "Bool(");
            proof { reveal_strlit("Bool("); }
            if *b {
                push_str(out, "true");
                proof { reveal_strlit("true"); }
            } else {
                push_str(out, "false");
                proof { reveal_strlit("false"); }
            }
            push_char(out, ')');
            assert(out@ == old(out)@ + v_debug(d@));
        },
        TData::String(s) => {
            push_str(out, "String(");
            proof { reveal_strlit("String("); }
            push_quoted(out, s.as_str());
            push_char(out, ')');
            assert(out@ == old(out)@ + v_debug(d@));
        },
        TData::Int(i) => {
            push_str(out, "Int(");
            proof { reveal_strlit("Int("); }
            let s = crate::strs::isize_text(*i);
            push_str(out, s.as_str());
            push_char(out, ')');
            assert(out@ == old(out)@ + v_debug(d@));
        },
        TData::UInt(u) => {
            push_str(out, "UInt(");
            proof { reveal_strlit("UInt("); }
            let s = crate::strs::usize_text(*u);
            push_str(out, s.as_str());
            push_char(out, ')');
            assert(out@ == old(out)@ + v_debug(d@));
        },
        TData::Float(t) => {
            push_str(out, "Float(");
            proof { reveal_strlit("Float("); }
            let v = crate::strs::chars_of(t.as_str());
            let mut has_dot = false;
            for i in 0..v.len()
                invariant
                    has_dot == v@.take(i as int).contains('.'),
            {
                if v[i] == '.' {
                    has_dot = true;
                }
                assert(v@.take(i + 1) == v@.take(i as int).push(v@[i as int]));
                assert(v@.take(i + 1).contains('.') == (v@.take(i as int).contains('.') || v@[i as int] == '.')) by {
                    if v@[i as int] == '.' {
                        assert(v@.take(i + 1)[i as int] == '.');
                    }
                    if v@.take(i as int).contains('.') {
                        let k = choose|k: int| 0 <= k < i && v@.take(i as int)[k] == '.';
                        assert(v@.take(i + 1)[k] == '.');
                    }
                }
            }
            assert(v@.take(v.len() as int) == v@);
            let special = crate::strs::chars_eq_str(&v, "NaN") || crate::strs::chars_eq_str(&v, "inf")
                || crate::strs::chars_eq_str(&v, "-inf");
            proof {
                reveal_strlit("NaN");
                reveal_strlit("inf");
                reveal_strlit("-inf");
                assert("NaN"@ == seq!['N', 'a', 'N']);
                assert("inf"@ == seq!['i', 'n', 'f']);
                assert("-inf"@ == seq!['-', 'i', 'n', 'f']);
            }
            push_str(out, t.as_str());
            if !(has_dot || special) {
                push_str(out, ".0");
                proof {
                    reveal_strlit(".0");
                    assert(".0"@ == seq!['.', '0']);
                }
            }
            push_char(out, ')');
            assert(out@ == old(out)@ + v_debug(d@));
        },
        TData::List(l) => {
            push_str(out, "List([");
            proof { reveal_strlit("List(["); }
            push_list_debug_body(out, l);
            push_str(out, "])");
            proof { reveal_strlit("])"); }
            assert(out@ == old(out)@ + v_debug(d@));
        },
        TData::Dict(m) => {
            push_str(out, "Map({");
            proof { reveal_strlit("Map({"); }
            push_dict_body(out, m);
            push_str(out, "})");
            proof { reveal_strlit("})"); }
            assert(out@ == old(out)@ + v_debug(d@));
        },
        TData::Null => {
            push_str(out, "Null");
            proof { reveal_strlit("Null"); }
            assert(out@ == old(out)@ + v_debug(d@));
        },
        TData::Template(_) => {
            push_str(out, "Template(..)");
            proof { reveal_strlit("Template(..)"); }
            assert(out@ == old(out)@ + v_debug(d@));
        },
        TData::Date(x) => {
            push_str(out, "Date(");
            proof { reveal_strlit("Date("); }
            let v = crate::date::date_debug_exec(x);
            push_chars(out, &v);
            push_char(out, ')');
            assert(out@ == old(out)@ + v_debug(d@));
        },
        TData::Bytes(b) => {
            push_str(out, "Bytes([");
            proof { reveal_strlit("Bytes(["); }
            push_bytes_body(out, b);
            push_str(out, "])");
            proof { reveal_strlit("])"); }
            assert(out@ == old(out)@ + v_debug(d@));
        },
    }
}

fn push_list_debug_body(out: &mut String, l: &Vec<TData>)
    ensures
        final(out)@ == old(out)@ + list_debug_body(datas_v(l@)),
    decreases l, 1nat,
{
    let ghost start = out@;
    proof { lemma_datas_v_len(l@); }
    for i in 0..l.len()
        invariant
            datas_v(l@).len() == l@.len(),
            out@ == start + list_debug_body(datas_v(l@).take(i as int)),
    {
        proof { lemma_datas_take(l@, i as int); }
        if i > 0 {
            push_str(out, ", ");
            proof { reveal_strlit(", "); }
        }
        assert(decreases_to!(l => l@[i as int]));
        push_debug(out, &l[i]);
        assert(datas_v(l@).take(i + 1).subrange(0, i as int) == datas_v(l@).take(i as int));
    }
    assert(datas_v(l@).take(l@.len() as int) == datas_v(l@));
}

impl TData {
    /// The text a template prints for the value.
    pub fn to_string(&self) -> (s: String)
        ensures
            s@ == v_display(self@),
    {
        let mut s = String::new();
        push_display(&mut s, self);
        s
    }

    /// The text stored under a key of a map value, when it is a string.
    pub fn get_key_str(&self, k: &str) -> (r: Option<&str>)
        ensures
            match self@ {
                VData::Dict(m) => match crate::tdata::dict_get(m, k@) {
                    Some(VData::String(t)) => r matches Some(x) && x@ == t,
                    _ => r is None,
                },
                _ => r is None,
            },
    {
        match self {
            TData::Dict(m) => match crate::tdata::dict_find(m, k) {
                Some(i) => {
                    proof { lemma_entries_v_index(m@, i as int); }
                    match &m[i].1 {
                        TData::String(t) => Some(t.as_str()),
                        _ => None,
                    }
                },
                None => None,
            },
            _ => None,
        }
    }

    /// The printed text of what is stored under a key of a map value.
    pub fn get_key_string(&self, k: &str) -> (r: Option<String>)
        ensures
            match self@ {
                VData::Dict(m) => match crate::tdata::dict_get(m, k@) {
                    Some(x) => r matches Some(t) && t@ == v_display(x),
                    None => r is None,
                },
                _ => r is None,
            },
    {
        match self {
            TData::Dict(m) => match crate::tdata::dict_find(m, k) {
                Some(i) => {
                    proof { lemma_entries_v_index(m@, i as int); }
                    Some(m[i].1.to_string())
                },
                None => None,
            },
            _ => None,
        }
    }

    /// The `Debug` text of the value.
    pub fn debug_string(&self) -> (s: String)
        ensures
            s@ == v_debug(self@),
    {
        let mut s = String::new();
        push_debug(&mut s, self);
        s
    }
}

} // verus!
