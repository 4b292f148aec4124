//! Reading template text and literal values: the executable parser, proved to follow the grammar.
use vstd::prelude::*;
use gobble::Parser;
use crate::grammar::{comparator_s, basic_s, basic_items_s, basic_entries_s, assign_s, assigns_s, assigns_star_s, file_s, for_s, iclose_s, iopen_s, item_s, named_after, tag_head_s, tag_tail_s, pipe_after, string_item_s, strings_s, tag_s, args_s, path_more_s, path_s, pipe_s, quoted_lit_s, var_s, data_s, date_s, dict_of, escape_s, hex4, hex_val, is_scalar, list_items_s, map_items_s, month_s, quoted_s, string_s, char_at, digit_val, find_char, frac_end, has_tag, ident_s, int_s, is_alpha, is_digit, is_wn, is_word, keyword_at, raw_end, skip_stn, skip_wn, skip_ws, text_end, tident_s, uint_run, uint_s, word_end, float_end, float_text_of, float_exp_ok, exp_fits, MAX_FLOAT_EXP, lemma_skip_wn};
use crate::strs::{chars_of, string_of, sub_chars};
use crate::date::{date_from_ymd, valid_ymd};
use crate::pipeline::{lemma_pipes_v_cons, pipes_v, Pipeline, VPipe};
use crate::template::{assigns_v, flats_v, lemma_assigns_v_cons, path_v, FlatItem, FlatTemplate, TreeTemplate, VFlat, VPart, VarPart};
use crate::err::{ea_str, Error};
use crate::tree::{block_s, Ender};
use crate::tdata::{datas_v, dict_set, entries_v, lemma_datas_v_cons, lemma_entries_v_cons, lemma_entries_v_index, lemma_entries_v_len, clone_data, lemma_datas_v_push, lemma_entries_v_push, Date, TData, TMap, VData};

verus! {

/// The text Rust prints for the `f64` that gobble's float parser reads from a float literal
/// (`gobble::common::Float`).
///
/// Claims of gobble: the result is a function of the literal alone. What number it is, and
/// how it relates to the digits, is not stated.
///
/// gobble multiplies or divides by ten once for each unit of the exponent, so the literal's
/// exponents are bounded: the call returns after at most `MAX_FLOAT_EXP` such steps.
#[verifier::external_body]
fn float_text(lexeme: &str) -> (r: String)
    requires
        float_exp_ok(lexeme@),
    ensures
        r@ == float_text_of(lexeme@),
{
    match gobble::common::Float.parse_s(lexeme) {
        Ok(v) => v.to_string(),
        Err(_) => String::new(),
    }
}

/// Text at a position agrees with the grammar's reading there.
pub open spec fn text_agrees(r: Option<(String, usize)>, m: Option<(Seq<char>, int)>) -> bool {
    match m {
        Some((t, j)) => r matches Some((u, k)) && u@ == t && k == j,
        None => r is None,
    }
}

fn skip_wn_x(s: &Vec<char>, i: usize) -> (r: usize)
    requires
        i <= s.len(),
    ensures
        r == skip_wn(s@, i as int),
        i <= r <= s.len(),
{
    let mut j = i;
    while j < s.len() && (s[j] == ' ' || s[j] == '\t' || s[j] == '\n' || s[j] == '\r')
        invariant
            i <= j <= s.len(),
            skip_wn(s@, i as int) == skip_wn(s@, j as int),
        decreases s.len() - j,
    {
        j = j + 1;
    }
    j
}

fn skip_ws_x(s: &Vec<char>, i: usize) -> (r: usize)
    requires
        i <= s.len(),
    ensures
        r == skip_ws(s@, i as int),
        i <= r <= s.len(),
{
    let mut j = i;
    while j < s.len() && (s[j] == ' ' || s[j] == '\t')
        invariant
            i <= j <= s.len(),
            skip_ws(s@, i as int) == skip_ws(s@, j as int),
        decreases s.len() - j,
    {
        j = j + 1;
    }
    j
}

fn skip_stn_x(s: &Vec<char>, i: usize) -> (r: usize)
    requires
        i <= s.len(),
    ensures
        r == skip_stn(s@, i as int),
        i <= r <= s.len(),
{
    let mut j = i;
    while j < s.len() && (s[j] == ' ' || s[j] == '\t' || s[j] == '\n')
        invariant
            i <= j <= s.len(),
            skip_stn(s@, i as int) == skip_stn(s@, j as int),
        decreases s.len() - j,
    {
        j = j + 1;
    }
    j
}

fn is_word_x(c: char) -> (r: bool)
    ensures
        r == is_word(c),
{
    ('a' <= c && c <= 'z') || ('A' <= c && c <= 'Z') || ('0' <= c && c <= '9') || c == '_'
}

fn word_end_x(s: &Vec<char>, i: usize) -> (r: usize)
    requires
        i <= s.len(),
    ensures
        r == word_end(s@, i as int),
        i <= r <= s.len(),
{
    let mut j = i;
    while j < s.len() && is_word_x(s[j])
        invariant
            i <= j <= s.len(),
            word_end(s@, i as int) == word_end(s@, j as int),
        decreases s.len() - j,
    {
        j = j + 1;
    }
    j
}

fn find_char_x(s: &Vec<char>, i: usize, c: char) -> (r: usize)
    requires
        i <= s.len(),
    ensures
        r == find_char(s@, i as int, c),
        i <= r <= s.len(),
{
    let mut j = i;
    while j < s.len() && s[j] != c
        invariant
            i <= j <= s.len(),
            find_char(s@, i as int, c) == find_char(s@, j as int, c),
        decreases s.len() - j,
    {
        j = j + 1;
    }
    j
}

fn frac_end_x(s: &Vec<char>, i: usize) -> (r: usize)
    requires
        i <= s.len(),
    ensures
        r == frac_end(s@, i as int),
        i <= r <= s.len(),
{
    let mut j = i;
    while j < s.len() && (('0' <= s[j] && s[j] <= '9') || s[j] == '_')
        invariant
            i <= j <= s.len(),
            frac_end(s@, i as int) == frac_end(s@, j as int),
        decreases s.len() - j,
    {
        j = j + 1;
    }
    j
}

fn text_end_x(s: &Vec<char>, i: usize) -> (r: usize)
    requires
        i <= s.len(),
    ensures
        r == text_end(s@, i as int),
        i <= r <= s.len(),
{
    let mut j = i;
    while j < s.len() && !(s[j] == ' ' || s[j] == '\t' || s[j] == '\n' || s[j] == '\r') && s[j] != '{' && s[j] != '\\'
        invariant
            i <= j <= s.len(),
            text_end(s@, i as int) == text_end(s@, j as int),
        decreases s.len() - j,
    {
        j = j + 1;
    }
    j
}

/// Whether the text `t` stands at position `i`.
fn has_tag_x(s: &Vec<char>, i: usize, t: &str) -> (r: bool)
    ensures
        r == has_tag(s@, i as int, t@),
{
    let tv = chars_of(t);
    if i > s.len() || tv.len() > s.len() - i {
        return false;
    }
    let mut k: usize = 0;
    while k < tv.len()
        invariant
            k <= tv.len(),
            i + tv.len() <= s.len(),
            tv@ == t@,
            forall|m: int| 0 <= m < k ==> s@[i + m] == tv@[m],
        decreases tv.len() - k,
    {
        if s[i + k] != tv[k] {
            assert(s@.subrange(i as int, i + tv.len())[k as int] != t@[k as int]);
            return false;
        }
        k = k + 1;
    }
    assert(s@.subrange(i as int, i + tv.len()) =~= t@);
    true
}

fn keyword_at_x(s: &Vec<char>, i: usize, t: &str) -> (r: bool)
    ensures
        r == keyword_at(s@, i as int, t@),
{
    if !has_tag_x(s, i, t) {
        return false;
    }
    let tv = chars_of(t);
    let sl = s.len();
    assert(i + tv.len() <= sl);
    let e = i + tv.len();
    !(e < s.len() && is_word_x(s[e]))
}

fn char_at_x(s: &Vec<char>, i: usize, c: char) -> (r: bool)
    ensures
        r == char_at(s@, i as int, c),
{
    i < s.len() && s[i] == c
}

fn ident_x(s: &Vec<char>, i: usize) -> (r: Option<(String, usize)>)
    requires
        i <= s.len(),
    ensures
        text_agrees(r, ident_s(s@, i as int)),
        r matches Some((_, k)) ==> i < k <= s.len(),
{
    if i < s.len() && (('a' <= s[i] && s[i] <= 'z') || ('A' <= s[i] && s[i] <= 'Z')) {
        let j = word_end_x(s, i + 1);
        let w = sub_chars(s, i, j);
        Some((string_of(&w), j))
    } else {
        None
    }
}

fn tident_x(s: &Vec<char>, i: usize) -> (r: Option<(String, usize)>)
    requires
        i <= s.len(),
    ensures
        text_agrees(r, tident_s(s@, i as int)),
        r matches Some((_, k)) ==> i < k <= s.len(),
{
    match ident_x(s, i) {
        Some(r) => Some(r),
        None => {
            if char_at_x(s, i, '\'') {
                let j = find_char_x(s, i + 1, '\'');
                if j > i + 1 && j < s.len() {
                    let w = sub_chars(s, i + 1, j);
                    return Some((string_of(&w), j + 1));
                }
            }
            None
        },
    }
}

proof fn lemma_uint_run_grows(s: Seq<char>, i: int, acc: nat, seen: bool)
    ensures
        uint_run(s, i, acc, seen).0 >= acc,
        uint_run(s, i, acc, seen).1 >= i,
        seen ==> uint_run(s, i, acc, seen).2,
        0 <= i <= s.len() ==> uint_run(s, i, acc, seen).1 <= s.len(),
    decreases s.len() - i,
{
    if 0 <= i < s.len() && is_digit(s[i]) {
        lemma_uint_run_grows(s, i + 1, acc * 10 + digit_val(s[i]), true);
    } else if 0 <= i < s.len() && s[i] == '_' {
        lemma_uint_run_grows(s, i + 1, acc, seen);
    }
}

fn uint_x(s: &Vec<char>, i: usize) -> (r: Option<(usize, usize)>)
    requires
        i <= s.len(),
    ensures
        match uint_s(s@, i as int) {
            Some((n, j)) => r matches Some((m, k)) && m == n && k == j,
            None => r is None,
        },
        r matches Some((_, k)) ==> i < k <= s.len(),
{
    let mut j = i;
    let mut acc: usize = 0;
    let mut seen = false;
    while j < s.len() && (('0' <= s[j] && s[j] <= '9') || s[j] == '_')
        invariant
            i <= j <= s.len(),
            uint_run(s@, i as int, 0, false) == uint_run(s@, j as int, acc as nat, seen),
            !seen ==> acc == 0,
            seen ==> j > i,
        decreases s.len() - j,
    {
        if s[j] == '_' {
            j = j + 1;
        } else {
            let d = (s[j] as u32 - '0' as u32) as usize;
            proof {
                lemma_uint_run_grows(s@, j + 1, acc as nat * 10 + digit_val(s@[j as int]), true);
            }
            match acc.checked_mul(10) {
                Some(a10) => match a10.checked_add(d) {
                    Some(a) => {
                        acc = a;
                        seen = true;
                        j = j + 1;
                    },
                    None => { return None; },
                },
                None => { return None; },
            }
        }
    }
    if seen {
        Some((acc, j))
    } else {
        None
    }
}

fn int_x(s: &Vec<char>, i: usize) -> (r: Option<(isize, usize)>)
    requires
        i <= s.len(),
    ensures
        match int_s(s@, i as int) {
            Some((n, j)) => r matches Some((m, k)) && m == n && k == j,
            None => r is None,
        },
        r matches Some((_, k)) ==> i < k <= s.len(),
{
    if char_at_x(s, i, '-') {
        match uint_x(s, i + 1) {
            Some((n, j)) => if n <= isize::MAX as usize { Some((-(n as isize), j)) } else { None },
            None => None,
        }
    } else {
        match uint_x(s, i) {
            Some((n, j)) => if n <= isize::MAX as usize { Some((n as isize, j)) } else { None },
            None => None,
        }
    }
}

fn float_end_x(s: &Vec<char>, i: usize) -> (r: Option<usize>)
    requires
        i <= s.len(),
    ensures
        match float_end(s@, i as int) {
            Some(j) => r matches Some(k) && k == j,
            None => r is None,
        },
        r matches Some(k) ==> i < k <= s.len(),
{
    match int_x(s, i) {
        Some((_, j)) => if char_at_x(s, j, '.') {
            let k = frac_end_x(s, j + 1);
            if char_at_x(s, k, 'e') {
                match int_x(s, k + 1) {
                    Some((_, m)) => { return Some(m); },
                    None => {},
                }
            }
            Some(k)
        } else {
            None
        },
        None => None,
    }
}

fn month_x(s: &Vec<char>, i: usize) -> (r: Option<(u32, usize)>)
    requires
        i <= s.len(),
    ensures
        match month_s(s@, i as int) {
            Some((n, j)) => r matches Some((m, k)) && m == n && k == j,
            None => r is None,
        },
        r matches Some((_, k)) ==> i < k <= s.len(),
{
    proof {
        reveal_strlit("jan"); reveal_strlit("feb"); reveal_strlit("mar"); reveal_strlit("apr");
        reveal_strlit("may"); reveal_strlit("jun"); reveal_strlit("jul"); reveal_strlit("aug");
        reveal_strlit("sep"); reveal_strlit("oct"); reveal_strlit("nov"); reveal_strlit("dec");
        assert("jan"@ =~= seq!['j', 'a', 'n']); assert("feb"@ =~= seq!['f', 'e', 'b']);
        assert("mar"@ =~= seq!['m', 'a', 'r']); assert("apr"@ =~= seq!['a', 'p', 'r']);
        assert("may"@ =~= seq!['m', 'a', 'y']); assert("jun"@ =~= seq!['j', 'u', 'n']);
        assert("jul"@ =~= seq!['j', 'u', 'l']); assert("aug"@ =~= seq!['a', 'u', 'g']);
        assert("sep"@ =~= seq!['s', 'e', 'p']); assert("oct"@ =~= seq!['o', 'c', 't']);
        assert("nov"@ =~= seq!['n', 'o', 'v']); assert("dec"@ =~= seq!['d', 'e', 'c']);
    }
    match uint_x(s, i) {
        Some((n, j)) => if 1 <= n && n <= 12 { Some((n as u32, j)) } else { None },
        None => {
            if has_tag_x(s, i, "jan") { Some((1, i + 3)) }
            else if has_tag_x(s, i, "feb") { Some((2, i + 3)) }
            else if has_tag_x(s, i, "mar") { Some((3, i + 3)) }
            else if has_tag_x(s, i, "apr") { Some((4, i + 3)) }
            else if has_tag_x(s, i, "may") { Some((5, i + 3)) }
            else if has_tag_x(s, i, "jun") { Some((6, i + 3)) }
            else if has_tag_x(s, i, "jul") { Some((7, i + 3)) }
            else if has_tag_x(s, i, "aug") { Some((8, i + 3)) }
            else if has_tag_x(s, i, "sep") { Some((9, i + 3)) }
            else if has_tag_x(s, i, "oct") { Some((10, i + 3)) }
            else if has_tag_x(s, i, "nov") { Some((11, i + 3)) }
            else if has_tag_x(s, i, "dec") { Some((12, i + 3)) }
            else { None }
        },
    }
}

fn date_x(s: &Vec<char>, i: usize) -> (r: Option<(Date, usize)>)
    requires
        i <= s.len(),
    ensures
        match date_s(s@, i as int) {
            Some((d, j)) => r matches Some((e, k)) && e == d && k == j,
            None => r is None,
        },
        r matches Some((_, k)) ==> i < k <= s.len(),
{
    let (d, j) = match uint_x(s, i) {
        Some(x) => x,
        None => { return None; },
    };
    if !char_at_x(s, j, '/') {
        return None;
    }
    let (m, k) = match month_x(s, j + 1) {
        Some(x) => x,
        None => { return None; },
    };
    if !char_at_x(s, k, '/') {
        return None;
    }
    let (y, l) = match int_x(s, k + 1) {
        Some(x) => x,
        None => { return None; },
    };
    if y < i32::MIN as isize || y > i32::MAX as isize || d > u32::MAX as usize {
        return None;
    }
    match date_from_ymd(y as i32, m, d as u32) {
        Some(dt) => Some((dt, l)),
        None => None,
    }
}

/// The character with a given scalar value (`char::from_u32`).
///
/// Claims of std: a character is given exactly for the Unicode scalar values, and it has that
/// value.
#[verifier::external_body]
fn char_from_u32(n: u32) -> (r: Option<char>)
    ensures
        r is Some <==> is_scalar(n as nat),
        r matches Some(c) ==> c == (n as char),
{
    char::from_u32(n)
}

fn hex_val_x(c: char) -> (r: Option<u32>)
    ensures
        match hex_val(c) {
            Some(v) => r == Some(v as u32),
            None => r is None,
        },
{
    if '0' <= c && c <= '9' {
        Some(c as u32 - '0' as u32)
    } else if 'a' <= c && c <= 'f' {
        Some(c as u32 - 'a' as u32 + 10)
    } else if 'A' <= c && c <= 'F' {
        Some(c as u32 - 'A' as u32 + 10)
    } else {
        None
    }
}

#[verifier::spinoff_prover]
#[verifier::rlimit(40)]
fn escape_x(s: &Vec<char>, i: usize) -> (r: Option<(char, usize)>)
    requires
        i <= s.len(),
    ensures
        match escape_s(s@, i as int) {
            Some((c, j)) => r == Some((c, j as usize)),
            None => r is None,
        },
        r matches Some((_, k)) ==> i < k <= s.len(),
{
    if !char_at_x(s, i, '\\') || i + 1 >= s.len() {
        return None;
    }
    let c = s[i + 1];
    if c == 'b' { Some(('\u{08}', i + 2)) }
    else if c == 'f' { Some(('\u{0C}', i + 2)) }
    else if c == 'n' { Some(('\n', i + 2)) }
    else if c == 'r' { Some(('\r', i + 2)) }
    else if c == 't' { Some(('\t', i + 2)) }
    else if c == 'u' {
        if s.len() - i < 6 {
            return None;
        }
        let h0 = hex_val_x(s[i + 2]);
        let h1 = hex_val_x(s[i + 3]);
        let h2 = hex_val_x(s[i + 4]);
        let h3 = hex_val_x(s[i + 5]);
        match (h0, h1, h2, h3) {
            (Some(a), Some(b), Some(c2), Some(d)) => {
                let n: u32 = a * 4096 + b * 256 + c2 * 16 + d;
                match char_from_u32(n) {
                    Some(ch) => Some((ch, i + 6)),
                    None => None,
                }
            },
            _ => None,
        }
    }
    else if c == '"' || c == '\\' || c == '/' { Some((c, i + 2)) }
    else { None }
}

fn quoted_x(s: &Vec<char>, i0: usize) -> (r: Option<(String, usize)>)
    requires
        i0 <= s.len(),
    ensures
        text_agrees(r, quoted_s(s@, i0 as int)),
        r matches Some((_, k)) ==> i0 < k <= s.len(),
{
    let ghost tot = quoted_s(s@, i0 as int);
    let mut out: Vec<char> = Vec::new();
    let mut i = i0;
    while i < s.len()
        invariant
            i0 <= i <= s.len(),
            tot == quoted_s(s@, i0 as int),
            tot is Some <==> quoted_s(s@, i as int) is Some,
            quoted_s(s@, i as int) is Some ==> (tot->Some_0.0 == out@ + quoted_s(s@, i as int)->Some_0.0
                && tot->Some_0.1 == quoted_s(s@, i as int)->Some_0.1),
        decreases s.len() - i,
    {
        if s[i] == '"' {
            assert(tot->Some_0.0 == out@ + Seq::<char>::empty());
            let t = string_of(&out);
            return Some((t, i + 1));
        }
        if s[i] == '\\' {
            match escape_x(s, i) {
                Some((c, j)) => {
                    proof {
                        let nxt = quoted_s(s@, j as int);
                        if nxt is Some {
                            assert(out@ + (seq![c] + nxt->Some_0.0) == out@.push(c) + nxt->Some_0.0);
                        }
                    }
                    out.push(c);
                    i = j;
                },
                None => { return None; },
            }
        } else {
            let c = s[i];
            proof {
                let nxt = quoted_s(s@, i + 1);
                if nxt is Some {
                    assert(out@ + (seq![c] + nxt->Some_0.0) == out@.push(c) + nxt->Some_0.0);
                }
            }
            out.push(c);
            i = i + 1;
        }
    }
    None
}

proof fn lemma_raw_end(s: Seq<char>, i: int)
    requires
        0 <= i,
    ensures
        raw_end(s, i) < s.len() ==> has_tag(s, raw_end(s, i), seq!['"', '#']),
    decreases s.len() - i,
{
    if 0 <= i < s.len() && !has_tag(s, i, seq!['"', '#']) {
        lemma_raw_end(s, i + 1);
    }
}

fn raw_end_x(s: &Vec<char>, i: usize) -> (r: usize)
    requires
        i <= s.len(),
    ensures
        r == raw_end(s@, i as int),
        i <= r <= s.len(),
{
    proof { reveal_strlit("\"#"); }
    let mut j = i;
    while j < s.len() && !has_tag_x(s, j, "\"#")
        invariant
            i <= j <= s.len(),
            raw_end(s@, i as int) == raw_end(s@, j as int),
            "\"#"@ == seq!['"', '#'],
        decreases s.len() - j,
    {
        j = j + 1;
    }
    j
}

fn string_x(s: &Vec<char>, i: usize) -> (r: Option<(String, usize)>)
    requires
        i <= s.len(),
    ensures
        text_agrees(r, string_s(s@, i as int)),
        r matches Some((_, k)) ==> i < k <= s.len(),
{
    proof { reveal_strlit("r#\""); }
    if char_at_x(s, i, '"') {
        quoted_x(s, i + 1)
    } else if has_tag_x(s, i, "r#\"") {
        assert("r#\""@ =~= seq!['r', '#', '"']);
        let j = raw_end_x(s, i + 3);
        proof { lemma_raw_end(s@, i + 3); }
        if j < s.len() {
            let w = sub_chars(s, i + 3, j);
            Some((string_of(&w), j + 2))
        } else {
            None
        }
    } else {
        assert("r#\""@ =~= seq!['r', '#', '"']);
        None
    }
}

fn float_exp_ok_x(t: &Vec<char>) -> (r: bool)
    ensures
        r == float_exp_ok(t@),
{
    let mut p: usize = 0;
    while p < t.len()
        invariant
            p <= t.len(),
            forall|q: int| 0 <= q < p && t@[q] == 'e' ==> exp_fits(t@, q + 1),
        decreases t.len() - p,
    {
        if t[p] == 'e' {
            match int_x(t, p + 1) {
                Some((n, _)) => if n < -MAX_FLOAT_EXP || n > MAX_FLOAT_EXP {
                    assert(!exp_fits(t@, p + 1));
                    return false;
                },
                None => {},
            }
        }
        p = p + 1;
    }
    true
}

fn data_x(s: &Vec<char>, i: usize) -> (r: Option<(TData, usize)>)
    requires
        i <= s.len(),
    ensures
        match data_s(s@, i as int) {
            Some((d, j)) => r matches Some((x, k)) && x@ == d && k == j,
            None => r is None,
        },
        r matches Some((_, k)) ==> i < k <= s.len(),
    decreases s.len() - i, 1nat,
{
    proof {
        reveal_strlit("null");
        reveal_strlit("true");
        reveal_strlit("false");
        assert("null"@ =~= seq!['n', 'u', 'l', 'l']);
        assert("true"@ =~= seq!['t', 'r', 'u', 'e']);
        assert("false"@ =~= seq!['f', 'a', 'l', 's', 'e']);
    }
    if has_tag_x(s, i, "null") {
        return Some((TData::Null, i + 4));
    }
    if keyword_at_x(s, i, "true") {
        return Some((TData::Bool(true), i + 4));
    }
    if keyword_at_x(s, i, "false") {
        return Some((TData::Bool(false), i + 5));
    }
    match date_x(s, i) {
        Some((d, j)) => { return Some((TData::Date(d), j)); },
        None => {},
    }
    match float_end_x(s, i) {
        Some(j) => {
            let w = sub_chars(s, i, j);
            if float_exp_ok_x(&w) {
                let lex = string_of(&w);
                let ls = lex.as_str();
                assert(ls@ == s@.subrange(i as int, j as int));
                let t = float_text(ls);
                return Some((TData::Float(t), j));
            }
        },
        None => {},
    }
    match uint_x(s, i) {
        Some((n, j)) => { return Some((TData::UInt(n), j)); },
        None => {},
    }
    match int_x(s, i) {
        Some((n, j)) => { return Some((TData::Int(n), j)); },
        None => {},
    }
    match string_x(s, i) {
        Some((t, j)) => { return Some((TData::String(t), j)); },
        None => {},
    }
    if char_at_x(s, i, '[') {
        if char_at_x(s, i + 1, ']') {
            let l: Vec<TData> = Vec::new();
            assert(datas_v(l@) =~= Seq::<VData>::empty());
            return Some((TData::List(l), i + 2));
        }
        return match list_items_x(s, i + 1) {
            Some((l, j)) => Some((TData::List(l), j)),
            None => None,
        };
    }
    if char_at_x(s, i, '{') {
        if char_at_x(s, i + 1, '}') {
            let m: TMap = Vec::new();
            assert(entries_v(m@) =~= Seq::<(Seq<char>, VData)>::empty());
            return Some((TData::Dict(m), i + 2));
        }
        return match map_items_x(s, i + 1) {
            Some((m, j)) => Some((TData::Dict(dict_of_x(&m)), j)),
            None => None,
        };
    }
    None
}

fn list_items_x(s: &Vec<char>, i: usize) -> (r: Option<(Vec<TData>, usize)>)
    requires
        i <= s.len(),
    ensures
        match list_items_s(s@, i as int) {
            Some((l, j)) => r matches Some((v, k)) && datas_v(v@) == l && k == j,
            None => r is None,
        },
        r matches Some((_, k)) ==> i < k <= s.len(),
    decreases s.len() - i, 2nat,
{
    let j = skip_wn_x(s, i);
    match data_x(s, j) {
        None => None,
        Some((d, k)) => {
            let k2 = skip_wn_x(s, k);
            if char_at_x(s, k2, ']') {
                let mut v: Vec<TData> = Vec::new();
                proof {
                    lemma_datas_v_push(v@, d);
                    assert(datas_v(v@) =~= Seq::<VData>::empty());
                }
                v.push(d);
                Some((v, k2 + 1))
            } else if char_at_x(s, k2, ',') {
                match list_items_x(s, k2 + 1) {
                    Some((rest, m)) => {
                        let mut v = rest;
                        let ghost old_v = v@;
                        v.insert(0, d);
                        proof {
                            assert(v@ =~= seq![d] + old_v);
                            lemma_datas_v_cons(d, old_v);
                        }
                        Some((v, m))
                    },
                    None => None,
                }
            } else {
                None
            }
        },
    }
}

fn map_items_x(s: &Vec<char>, i: usize) -> (r: Option<(Vec<(String, TData)>, usize)>)
    requires
        i <= s.len(),
    ensures
        match map_items_s(s@, i as int) {
            Some((m, j)) => r matches Some((v, k)) && entries_v(v@) == m && k == j,
            None => r is None,
        },
        r matches Some((_, k)) ==> i < k <= s.len(),
    decreases s.len() - i, 2nat,
{
    let j = skip_wn_x(s, i);
    let (key, k) = match string_x(s, j) {
        Some(x) => x,
        None => { return None; },
    };
    let k2 = skip_wn_x(s, k);
    if !char_at_x(s, k2, ':') {
        return None;
    }
    let j2 = skip_wn_x(s, k2 + 1);
    let (d, m) = match data_x(s, j2) {
        Some(x) => x,
        None => { return None; },
    };
    let m2 = skip_wn_x(s, m);
    if char_at_x(s, m2, '}') {
        let mut v: Vec<(String, TData)> = Vec::new();
        proof {
            lemma_entries_v_push(v@, (key, d));
            assert(entries_v(v@) =~= Seq::<(Seq<char>, VData)>::empty());
        }
        v.push((key, d));
        Some((v, m2 + 1))
    } else if char_at_x(s, m2, ',') {
        match map_items_x(s, m2 + 1) {
            Some((rest, e)) => {
                let mut v = rest;
                let ghost old_v = v@;
                v.insert(0, (key, d));
                proof {
                    assert(v@ =~= seq![(key, d)] + old_v);
                    lemma_entries_v_cons((key, d), old_v);
                }
                Some((v, e))
            },
            None => None,
        }
    } else {
        None
    }
}

fn basic_x(s: &Vec<char>, i: usize) -> (r: Option<(TData, usize)>)
    requires
        i <= s.len(),
    ensures
        match basic_s(s@, i as int) {
            Some((d, j)) => r matches Some((x, k)) && x@ == d && k == j,
            None => r is None,
        },
        r matches Some((_, k)) ==> i < k <= s.len(),
    decreases s.len() - i, 1nat,
{
    if char_at_x(s, i, '[') {
        if char_at_x(s, i + 1, ']') {
            let l: Vec<TData> = Vec::new();
            assert(datas_v(l@) =~= Seq::<VData>::empty());
            return Some((TData::List(l), i + 2));
        }
        return match basic_items_x(s, i + 1) {
            Some((l, j)) => Some((TData::List(l), j)),
            None => None,
        };
    }
    if char_at_x(s, i, '{') {
        if char_at_x(s, i + 1, '}') {
            let m: TMap = Vec::new();
            assert(entries_v(m@) =~= Seq::<(Seq<char>, VData)>::empty());
            return Some((TData::Dict(m), i + 2));
        }
        return match basic_entries_x(s, i + 1) {
            Some((m, j)) => Some((TData::Dict(dict_of_x(&m)), j)),
            None => None,
        };
    }
    data_x(s, i)
}

fn basic_items_x(s: &Vec<char>, i: usize) -> (r: Option<(Vec<TData>, usize)>)
    requires
        i <= s.len(),
    ensures
        match basic_items_s(s@, i as int) {
            Some((l, j)) => r matches Some((v, k)) && datas_v(v@) == l && k == j,
            None => r is None,
        },
        r matches Some((_, k)) ==> i < k <= s.len(),
    decreases s.len() - i, 2nat,
{
    let j = skip_wn_x(s, i);
    match basic_x(s, j) {
        None => None,
        Some((d, k)) => {
            let k2 = skip_wn_x(s, k);
            if char_at_x(s, k2, ']') {
                let mut v: Vec<TData> = Vec::new();
                proof {
                    lemma_datas_v_push(v@, d);
                    assert(datas_v(v@) =~= Seq::<VData>::empty());
                }
                v.push(d);
                Some((v, k2 + 1))
            } else {
                let n = if char_at_x(s, k2, ',') { k2 + 1 } else { k2 };
                match basic_items_x(s, n) {
                    Some((rest, m)) => {
                        let mut v = rest;
                        let ghost old_v = v@;
                        v.insert(0, d);
                        proof {
                            assert(v@ =~= seq![d] + old_v);
                            lemma_datas_v_cons(d, old_v);
                        }
                        Some((v, m))
                    },
                    None => None,
                }
            }
        },
    }
}

fn basic_entries_x(s: &Vec<char>, i: usize) -> (r: Option<(Vec<(String, TData)>, usize)>)
    requires
        i <= s.len(),
    ensures
        match basic_entries_s(s@, i as int) {
            Some((m, j)) => r matches Some((v, k)) && entries_v(v@) == m && k == j,
            None => r is None,
        },
        r matches Some((_, k)) ==> i < k <= s.len(),
    decreases s.len() - i, 2nat,
{
    let j = skip_wn_x(s, i);
    let (key, k) = match string_x(s, j) {
        Some(x) => x,
        None => { return None; },
    };
    let k2 = skip_wn_x(s, k);
    if !char_at_x(s, k2, ':') {
        return None;
    }
    let (d, m) = match basic_x(s, k2 + 1) {
        Some(x) => x,
        None => { return None; },
    };
    let m2 = skip_wn_x(s, m);
    if char_at_x(s, m2, '}') {
        let mut v: Vec<(String, TData)> = Vec::new();
        proof {
            lemma_entries_v_push(v@, (key, d));
            assert(entries_v(v@) =~= Seq::<(Seq<char>, VData)>::empty());
        }
        v.push((key, d));
        Some((v, m2 + 1))
    } else if char_at_x(s, m2, ',') {
        match basic_entries_x(s, m2 + 1) {
            Some((rest, e)) => {
                let mut v = rest;
                let ghost old_v = v@;
                v.insert(0, (key, d));
                proof {
                    assert(v@ =~= seq![(key, d)] + old_v);
                    lemma_entries_v_cons((key, d), old_v);
                }
                Some((v, e))
            },
            None => None,
        }
    } else {
        None
    }
}

/// Reads a literal value, with any whitespace before it, from the start of a text; what
/// follows the value is left unread.
pub fn read_data(s: &str) -> (r: Option<TData>)
    ensures
        match data_s(s@, skip_wn(s@, 0)) {
            Some((d, _)) => r matches Some(x) && x@ == d,
            None => r is None,
        },
{
    let v = chars_of(s);
    let j = skip_wn_x(&v, 0);
    match data_x(&v, j) {
        Some((d, _)) => Some(d),
        None => None,
    }
}

/// Reads a pipeline from the start of a text; what follows it is left unread.
pub fn read_pipeline(s: &str) -> (r: Option<Pipeline>)
    ensures
        match pipe_s(s@, 0) {
            Some((p, _)) => r matches Some(x) && x@ == p,
            None => r is None,
        },
{
    let v = chars_of(s);
    match pipe_x(&v, 0) {
        Some((p, _)) => Some(p),
        None => None,
    }
}

/// Reads a sort criterion (see [`comparator_s`]): whether it is descending, and its path.
pub fn read_comparator(s: &str) -> (r: Option<(bool, Vec<VarPart>)>)
    ensures
        match comparator_s(s@) {
            Some((down, p)) => r matches Some((d, x)) && d == down && path_v(x@) == p,
            None => r is None,
        },
{
    let v = chars_of(s);
    let down = char_at_x(&v, 0, '-');
    let start: usize = if down { 1 } else { 0 };
    match path_more_x(&v, start) {
        Some((p, _)) => Some((down, p)),
        None => None,
    }
}

impl TData {
    /// Reads a value from the start of a text, as `basic_s` reads it; what follows the value
    /// is left unread.
    pub fn from_str(s: &str) -> (r: Result<TData, Error>)
        ensures
            match basic_s(s@, 0) {
                Some((d, _)) => r matches Ok(x) && x@ == d,
                None => r is Err,
            },
    {
        let v = chars_of(s);
        match basic_x(&v, 0) {
            Some((d, _)) => Ok(d),
            None => Err(ea_str("Could not read the value")),
        }
    }
}

/// The map made from entries in order; a repeated key takes the later value.
fn dict_of_x(v: &Vec<(String, TData)>) -> (r: TMap)
    ensures
        entries_v(r@) == dict_of(entries_v(v@)),
{
    let ghost es = entries_v(v@);
    proof {
        lemma_entries_v_len(v@);
        assert(es.take(0) =~= Seq::<(Seq<char>, VData)>::empty());
    }
    let mut m: TMap = Vec::new();
    assert(entries_v(m@) =~= Seq::<(Seq<char>, VData)>::empty());
    let mut i: usize = 0;
    while i < v.len()
        invariant
            i <= v.len(),
            es == entries_v(v@),
            es.len() == v.len(),
            entries_v(m@) == dict_of(es.take(i as int)),
        decreases v.len() - i,
    {
        proof {
            lemma_entries_v_index(v@, i as int);
            assert(es.take(i + 1).drop_last() =~= es.take(i as int));
        }
        dict_set(&mut m, v[i].0.clone(), clone_data(&v[i].1));
        i = i + 1;
    }
    assert(es.take(es.len() as int) =~= es);
    m
}

fn var_x(s: &Vec<char>, i: usize) -> (r: Option<(VarPart, usize)>)
    requires
        i <= s.len(),
    ensures
        match var_s(s@, i as int) {
            Some((v, j)) => r matches Some((x, k)) && x@ == v && k == j,
            None => r is None,
        },
        r matches Some((_, k)) ==> i < k <= s.len(),
{
    match tident_x(s, i) {
        Some((n, j)) => Some((VarPart::Id(n), j)),
        None => match uint_x(s, i) {
            Some((n, j)) => Some((VarPart::Num(n), j)),
            None => None,
        },
    }
}

fn path_more_x(s: &Vec<char>, i: usize) -> (r: Option<(Vec<VarPart>, usize)>)
    requires
        i <= s.len(),
    ensures
        match path_more_s(s@, i as int) {
            Some((p, j)) => r matches Some((x, k)) && path_v(x@) == p && k == j,
            None => r is None,
        },
        r matches Some((_, k)) ==> i < k <= s.len(),
    decreases s.len() - i,
{
    match var_x(s, i) {
        None => None,
        Some((v, j)) => if char_at_x(s, j, '.') {
            match path_more_x(s, j + 1) {
                Some((rest, k)) => {
                    let mut p = rest;
                    let ghost old_p = p@;
                    p.insert(0, v);
                    proof {
                        assert(p@ =~= seq![v] + old_p);
                        assert(path_v(p@) =~= seq![v@] + path_v(old_p));
                    }
                    Some((p, k))
                },
                None => None,
            }
        } else {
            let mut p: Vec<VarPart> = Vec::new();
            p.push(v);
            assert(path_v(p@) =~= seq![v@]);
            Some((p, j))
        },
    }
}

fn path_x(s: &Vec<char>, i: usize) -> (r: Option<(Vec<VarPart>, usize)>)
    requires
        i <= s.len(),
    ensures
        match path_s(s@, i as int) {
            Some((p, j)) => r matches Some((x, k)) && path_v(x@) == p && k == j,
            None => r is None,
        },
        r matches Some((_, k)) ==> i <= k <= s.len(),
{
    match var_x(s, i) {
        None => {
            let p: Vec<VarPart> = Vec::new();
            assert(path_v(p@) =~= Seq::<VPart>::empty());
            Some((p, i))
        },
        Some(_) => path_more_x(s, i),
    }
}

fn quoted_lit_x(s: &Vec<char>, i: usize) -> (r: Option<(TData, usize)>)
    requires
        i <= s.len(),
    ensures
        match quoted_lit_s(s@, i as int) {
            Some((d, j)) => r matches Some((x, k)) && x@ == d && k == j,
            None => r is None,
        },
        r matches Some((_, k)) ==> i < k <= s.len(),
{
    reveal(quoted_lit_s);
    if !char_at_x(s, i, '\'') {
        return None;
    }
    let e = find_char_x(s, i + 1, '\'');
    if !(i + 1 < e && e < s.len()) {
        return None;
    }
    let q = sub_chars(s, i + 1, e);
    match data_x(&q, 0) {
        Some((d, k)) => if k == q.len() {
            Some((d, e + 1))
        } else {
            None
        },
        None => None,
    }
}

fn pipe_x(s: &Vec<char>, i: usize) -> (r: Option<(Pipeline, usize)>)
    requires
        i <= s.len(),
    ensures
        match pipe_s(s@, i as int) {
            Some((p, j)) => r matches Some((x, k)) && x@ == p && k == j,
            None => r is None,
        },
        r matches Some((_, k)) ==> i < k <= s.len(),
    decreases s.len() - i, 3nat,
{
    let j = skip_wn_x(s, i);
    if char_at_x(s, j, '(') {
        let j1 = skip_wn_x(s, j + 1);
        return match pipe_x(s, j1) {
            Some((p, m)) => {
                let m2 = skip_wn_x(s, m);
                if char_at_x(s, m2, ')') {
                    Some((p, m2 + 1))
                } else {
                    None
                }
            },
            None => None,
        };
    }
    if j != i {
        return None;
    }
    if char_at_x(s, i, '$') {
        return match path_x(s, i + 1) {
            Some((p, k)) => Some((Pipeline::Var(p), k)),
            None => None,
        };
    }
    if char_at_x(s, i, '@') {
        let mut p: Vec<VarPart> = Vec::new();
        let at = crate::strs::string_from("@");
        proof {
            reveal_strlit("@");
            assert("@"@ =~= seq!['@']);
        }
        p.push(VarPart::Id(at));
        assert(path_v(p@) =~= seq![VPart::Id(seq!['@'])]);
        return Some((Pipeline::Var(p), i + 1));
    }
    match data_x(s, i) {
        Some((d, k)) => { return Some((Pipeline::Lit(d), k)); },
        None => {},
    }
    match quoted_lit_x(s, i) {
        Some((d, k)) => { return Some((Pipeline::Lit(d), k)); },
        None => {},
    }
    match tident_x(s, i) {
        Some((c, k)) => {
            let (args, m) = args_x(s, k);
            Some((Pipeline::Command(c, args), m))
        },
        None => None,
    }
}

fn args_x(s: &Vec<char>, i: usize) -> (r: (Vec<Pipeline>, usize))
    requires
        i <= s.len(),
    ensures
        pipes_v(r.0@) == args_s(s@, i as int).0,
        r.1 == args_s(s@, i as int).1,
        i <= r.1 <= s.len(),
    decreases s.len() - i, 4nat,
{
    let j = skip_wn_x(s, i);
    match pipe_x(s, j) {
        None => {
            let v: Vec<Pipeline> = Vec::new();
            assert(pipes_v(v@) =~= Seq::<VPipe>::empty());
            (v, i)
        },
        Some((p, m)) => {
            let m2 = skip_wn_x(s, m);
            let (rest, k) = args_x(s, m2);
            let mut v = rest;
            let ghost old_v = v@;
            v.insert(0, p);
            proof {
                assert(v@ =~= seq![p] + old_v);
                lemma_pipes_v_cons(p, old_v);
            }
            (v, k)
        },
    }
}

fn assign_x(s: &Vec<char>, i: usize) -> (r: Option<((String, Pipeline), usize)>)
    requires
        i <= s.len(),
    ensures
        match assign_s(s@, i as int) {
            Some(((n, p), j)) => r matches Some(((m, q), k)) && m@ == n && q@ == p && k == j,
            None => r is None,
        },
        r matches Some((_, k)) ==> i < k <= s.len(),
{
    let j = skip_wn_x(s, i);
    let (name, k) = match tident_x(s, j) {
        Some(x) => x,
        None => { return None; },
    };
    let k2 = skip_wn_x(s, k);
    if !char_at_x(s, k2, '=') {
        return None;
    }
    let k3 = skip_wn_x(s, k2 + 1);
    let (p, m) = match pipe_x(s, k3) {
        Some(x) => x,
        None => { return None; },
    };
    let m2 = skip_ws_x(s, m);
    if char_at_x(s, m2, ';') || char_at_x(s, m2, ',') || char_at_x(s, m2, '\n') {
        Some(((name, p), skip_wn_x(s, m2 + 1)))
    } else if char_at_x(s, m2, '}') {
        Some(((name, p), skip_wn_x(s, m2)))
    } else {
        None
    }
}

fn assigns_star_x(s: &Vec<char>, i: usize) -> (r: (Vec<(String, Pipeline)>, usize))
    requires
        i <= s.len(),
    ensures
        assigns_v(r.0@) == assigns_star_s(s@, i as int).0,
        r.1 == assigns_star_s(s@, i as int).1,
        i <= r.1 <= s.len(),
    decreases s.len() - i,
{
    match assign_x(s, i) {
        None => {
            let v: Vec<(String, Pipeline)> = Vec::new();
            assert(assigns_v(v@) =~= Seq::<(Seq<char>, VPipe)>::empty());
            (v, i)
        },
        Some((a, j)) => {
            let (rest, k) = assigns_star_x(s, j);
            let mut v = rest;
            let ghost old_v = v@;
            v.insert(0, a);
            proof {
                assert(v@ =~= seq![a] + old_v);
                lemma_assigns_v_cons(a, old_v);
            }
            (v, k)
        },
    }
}

fn assigns_x(s: &Vec<char>, i: usize) -> (r: Option<(Vec<(String, Pipeline)>, usize)>)
    requires
        i <= s.len(),
    ensures
        match assigns_s(s@, i as int) {
            Some((a, j)) => r matches Some((v, k)) && assigns_v(v@) == a && k == j,
            None => r is None,
        },
        r matches Some((_, k)) ==> i < k <= s.len(),
{
    match assign_x(s, i) {
        None => None,
        Some((a, j)) => {
            let (rest, k) = assigns_star_x(s, j);
            let mut v = rest;
            let ghost old_v = v@;
            v.insert(0, a);
            proof {
                assert(v@ =~= seq![a] + old_v);
                lemma_assigns_v_cons(a, old_v);
            }
            Some((v, k))
        },
    }
}

fn iopen_x(s: &Vec<char>, i: usize) -> (r: Option<usize>)
    requires
        i <= s.len(),
    ensures
        match iopen_s(s@, i as int) {
            Some(j) => r matches Some(k) && k == j,
            None => r is None,
        },
        r matches Some(k) ==> i < k <= s.len(),
{
    proof {
        reveal_strlit("{{-");
        reveal_strlit("{{");
        assert("{{-"@ =~= seq!['{', '{', '-']);
        assert("{{"@ =~= seq!['{', '{']);
    }
    let j = skip_wn_x(s, i);
    if has_tag_x(s, j, "{{-") {
        Some(skip_wn_x(s, j + 3))
    } else if has_tag_x(s, i, "{{") {
        Some(skip_wn_x(s, i + 2))
    } else {
        None
    }
}

fn iclose_x(s: &Vec<char>, i: usize) -> (r: Option<usize>)
    requires
        i <= s.len(),
    ensures
        match iclose_s(s@, i as int) {
            Some(j) => r matches Some(k) && k == j,
            None => r is None,
        },
        r matches Some(k) ==> i < k <= s.len(),
{
    proof {
        reveal_strlit("-}}");
        reveal_strlit("}}");
        assert("-}}"@ =~= seq!['-', '}', '}']);
        assert("}}"@ =~= seq!['}', '}']);
    }
    let k = skip_wn_x(s, i);
    if has_tag_x(s, k, "-}}") {
        Some(skip_wn_x(s, k + 3))
    } else if has_tag_x(s, k, "}}") {
        Some(k + 2)
    } else {
        None
    }
}

fn named_after_x(s: &Vec<char>, i: usize, kw: &str) -> (r: Option<(String, usize)>)
    requires
        i <= s.len(),
    ensures
        text_agrees(r, named_after(s@, i as int, kw@)),
        r matches Some((_, k)) ==> i < k <= s.len(),
{
    if keyword_at_x(s, i, kw) {
        let n = kw.unicode_len();
        assert(n == kw@.len());
        let j = skip_wn_x(s, i + n);
        tident_x(s, j)
    } else {
        None
    }
}

fn pipe_after_x(s: &Vec<char>, i: usize, kw: &str) -> (r: Option<(Pipeline, usize)>)
    requires
        i <= s.len(),
    ensures
        match pipe_after(s@, i as int, kw@) {
            Some((p, j)) => r matches Some((x, k)) && x@ == p && k == j,
            None => r is None,
        },
        r matches Some((_, k)) ==> i < k <= s.len(),
{
    if keyword_at_x(s, i, kw) {
        let n = kw.unicode_len();
        assert(n == kw@.len());
        let j = skip_wn_x(s, i + n);
        pipe_x(s, j)
    } else {
        None
    }
}

fn for_x(s: &Vec<char>, i: usize) -> (r: Option<(FlatItem, usize)>)
    requires
        i <= s.len(),
    ensures
        match for_s(s@, i as int) {
            Some((f, j)) => r matches Some((x, k)) && x@ == f && k == j,
            None => r is None,
        },
        r matches Some((_, k)) ==> i < k <= s.len(),
{
    proof {
        reveal_strlit("for");
        reveal_strlit("in");
        assert("for"@ =~= seq!['f', 'o', 'r']);
        assert("in"@ =~= seq!['i', 'n']);
    }
    let (k, j) = match named_after_x(s, i, "for") {
        Some(x) => x,
        None => { return None; },
    };
    let j1 = skip_wn_x(s, j);
    let (v, j2) = match tident_x(s, j1) {
        Some(x) => x,
        None => { return None; },
    };
    let j3 = skip_wn_x(s, j2);
    match pipe_after_x(s, j3, "in") {
        Some((p, m)) => Some((FlatItem::For(k, v, p), m)),
        None => None,
    }
}

#[verifier::spinoff_prover]
#[verifier::rlimit(50)]
fn tag_head_x(s: &Vec<char>, p: usize) -> (r: Option<(FlatItem, usize)>)
    requires
        p <= s.len(),
    ensures
        match tag_head_s(s@, p as int) {
            Some((f, j)) => r matches Some((x, k)) && x@ == f && k == j,
            None => r is None,
        },
        r matches Some((_, k)) ==> p < k <= s.len(),
{
    proof {
        reveal(tag_head_s);
        reveal_strlit("else"); assert("else"@ =~= seq!['e', 'l', 's', 'e']);
        reveal_strlit("/if"); assert("/if"@ =~= seq!['/', 'i', 'f']);
        reveal_strlit("/for"); assert("/for"@ =~= seq!['/', 'f', 'o', 'r']);
        reveal_strlit("if"); assert("if"@ =~= seq!['i', 'f']);
        reveal_strlit("elif"); assert("elif"@ =~= seq!['e', 'l', 'i', 'f']);
        reveal_strlit("define"); assert("define"@ =~= seq!['d', 'e', 'f', 'i', 'n', 'e']);
    }
    if char_at_x(s, p, '#') {
        let q = find_char_x(s, p + 1, '#');
        return if q < s.len() { Some((FlatItem::Comment, q + 1)) } else { None };
    }
    if keyword_at_x(s, p, "else") {
        return Some((FlatItem::Else, p + 4));
    }
    if keyword_at_x(s, p, "/if") {
        return Some((FlatItem::EndIf, p + 3));
    }
    if keyword_at_x(s, p, "/for") {
        return Some((FlatItem::EndFor, p + 4));
    }
    match pipe_after_x(s, p, "if") {
        Some((c, j)) => { return Some((FlatItem::If(c), j)); },
        None => {},
    }
    match pipe_after_x(s, p, "elif") {
        Some((c, j)) => { return Some((FlatItem::Elif(c), j)); },
        None => {},
    }
    match for_x(s, p) {
        Some(x) => { return Some(x); },
        None => {},
    }
    match named_after_x(s, p, "define") {
        Some((n, j)) => { return Some((FlatItem::Define(n), j)); },
        None => {},
    }
    None
}

#[verifier::spinoff_prover]
#[verifier::rlimit(50)]
fn tag_tail_x(s: &Vec<char>, p: usize) -> (r: Option<(FlatItem, usize)>)
    requires
        p <= s.len(),
    ensures
        match tag_tail_s(s@, p as int) {
            Some((f, j)) => r matches Some((x, k)) && x@ == f && k == j,
            None => r is None,
        },
        r matches Some((_, k)) ==> p < k <= s.len(),
{
    proof {
        reveal(tag_tail_s);
        reveal_strlit("let"); assert("let"@ =~= seq!['l', 'e', 't']);
        reveal_strlit("export"); assert("export"@ =~= seq!['e', 'x', 'p', 'o', 'r', 't']);
        reveal_strlit("@let"); assert("@let"@ =~= seq!['@', 'l', 'e', 't']);
        reveal_strlit("@export"); assert("@export"@ =~= seq!['@', 'e', 'x', 'p', 'o', 'r', 't']);
    }
    if keyword_at_x(s, p, "let") {
        match assigns_x(s, p + 3) {
            Some((a, j)) => { return Some((FlatItem::Let(a), j)); },
            None => {},
        }
    }
    if keyword_at_x(s, p, "export") {
        match assigns_x(s, p + 6) {
            Some((a, j)) => { return Some((FlatItem::Export(a), j)); },
            None => {},
        }
    }
    match named_after_x(s, p, "@let") {
        Some((n, j)) => { return Some((FlatItem::AtLet(n), j)); },
        None => {},
    }
    match named_after_x(s, p, "@export") {
        Some((n, j)) => { return Some((FlatItem::AtExport(n), j)); },
        None => {},
    }
    if char_at_x(s, p, '@') {
        match tident_x(s, p + 1) {
            Some((n, j)) => {
                let j2 = skip_stn_x(s, j);
                let (args, k) = args_x(s, j2);
                return Some((FlatItem::Block(n, args), k));
            },
            None => {},
        }
    }
    if char_at_x(s, p, '/') {
        match tident_x(s, p + 1) {
            Some((n, j)) => {
                return Some((FlatItem::EndBlock(n), skip_ws_x(s, j)));
            },
            None => {},
        }
    }
    let p2 = skip_wn_x(s, p);
    match pipe_x(s, p2) {
        Some((x, m)) => Some((FlatItem::Pipe(x), m)),
        None => None,
    }
}

fn tag_x(s: &Vec<char>, p: usize) -> (r: Option<(FlatItem, usize)>)
    requires
        p <= s.len(),
    ensures
        match tag_s(s@, p as int) {
            Some((f, j)) => r matches Some((x, k)) && x@ == f && k == j,
            None => r is None,
        },
        r matches Some((_, k)) ==> p < k <= s.len(),
{
    match tag_head_x(s, p) {
        Some(x) => Some(x),
        None => tag_tail_x(s, p),
    }
}

fn string_item_x(s: &Vec<char>, i: usize) -> (r: Option<(Vec<char>, usize)>)
    requires
        i <= s.len(),
    ensures
        match string_item_s(s@, i as int) {
            Some((t, j)) => r matches Some((u, k)) && u@ == t && k == j,
            None => r is None,
        },
        r matches Some((_, k)) ==> i < k <= s.len(),
{
    if i >= s.len() {
        return None;
    }
    let c = s[i];
    if c == '\\' {
        if i + 1 < s.len() && (s[i + 1] == ' ' || s[i + 1] == '\t' || s[i + 1] == '\n' || s[i + 1] == '\r') {
            let k = skip_wn_x(s, i + 1);
            let e: Vec<char> = Vec::new();
            if char_at_x(s, k, '\\') {
                Some((e, k + 1))
            } else {
                Some((e, k))
            }
        } else if i + 1 < s.len() {
            let mut e: Vec<char> = Vec::new();
            e.push(s[i + 1]);
            assert(e@ =~= seq![s@[i + 1]]);
            Some((e, i + 2))
        } else {
            None
        }
    } else if c == '{' {
        if char_at_x(s, i + 1, '{') {
            None
        } else {
            let mut e: Vec<char> = Vec::new();
            e.push('{');
            assert(e@ =~= seq!['{']);
            Some((e, i + 1))
        }
    } else if c == ' ' || c == '\t' || c == '\n' || c == '\r' {
        let k = skip_wn_x(s, i + 1);
        Some((sub_chars(s, i, k), k))
    } else {
        let k = text_end_x(s, i + 1);
        Some((sub_chars(s, i, k), k))
    }
}

fn strings_x(s: &Vec<char>, i0: usize) -> (r: Option<(String, usize)>)
    requires
        i0 <= s.len(),
    ensures
        text_agrees(r, strings_s(s@, i0 as int)),
        r matches Some((_, k)) ==> i0 < k <= s.len(),
{
    let ghost tot = strings_s(s@, i0 as int);
    let mut out: Vec<char> = Vec::new();
    let mut i = i0;
    while i < s.len()
        invariant
            i0 <= i <= s.len(),
            tot == strings_s(s@, i0 as int),
            tot is Some <==> strings_s(s@, i as int) is Some,
            strings_s(s@, i as int) is Some ==> (tot->Some_0.0 == out@ + strings_s(s@, i as int)->Some_0.0
                && tot->Some_0.1 == strings_s(s@, i as int)->Some_0.1),
        decreases s.len() - i,
    {
        match string_item_x(s, i) {
            None => { return None; },
            Some((t, j)) => {
                let ghost o0 = out@;
                let mut t2 = t;
                out.append(&mut t2);
                assert(out@ == o0 + t@);
                if j >= s.len() || iopen_x(s, j).is_some() {
                    return Some((string_of(&out), j));
                }
                proof {
                    let nxt = strings_s(s@, j as int);
                    if nxt is Some {
                        assert(o0 + (t@ + nxt->Some_0.0) == (o0 + t@) + nxt->Some_0.0);
                    }
                }
                i = j;
            },
        }
    }
    None
}

fn item_x(s: &Vec<char>, i: usize) -> (r: Option<(FlatItem, usize)>)
    requires
        i <= s.len(),
    ensures
        match item_s(s@, i as int) {
            Some((f, j)) => r matches Some((x, k)) && x@ == f && k == j,
            None => r is None,
        },
        r matches Some((_, k)) ==> i < k <= s.len(),
{
    match iopen_x(s, i) {
        Some(p) => match tag_x(s, p) {
            Some((x, q)) => match iclose_x(s, q) {
                Some(e) => Some((x, e)),
                None => None,
            },
            None => None,
        },
        None => match strings_x(s, i) {
            Some((t, j)) => Some((FlatItem::String(t), j)),
            None => None,
        },
    }
}

fn file_x(s: &Vec<char>) -> (r: Option<Vec<FlatItem>>)
    ensures
        match file_s(s@, 0) {
            Some(f) => r matches Some(v) && flats_v(v@) == f,
            None => r is None,
        },
{
    let ghost tot = file_s(s@, 0);
    let mut out: Vec<FlatItem> = Vec::new();
    let mut i: usize = 0;
    assert(flats_v(out@) =~= Seq::<VFlat>::empty());
    while i < s.len()
        invariant
            i <= s.len(),
            tot == file_s(s@, 0),
            tot is Some <==> file_s(s@, i as int) is Some,
            file_s(s@, i as int) is Some ==> tot->Some_0 == flats_v(out@) + file_s(s@, i as int)->Some_0,
        decreases s.len() - i,
    {
        match item_x(s, i) {
            None => { return None; },
            Some((x, j)) => {
                proof {
                    let nxt = file_s(s@, j as int);
                    assert(flats_v(out@.push(x)) =~= flats_v(out@).push(x@));
                    if nxt is Some {
                        assert(flats_v(out@) + (seq![x@] + nxt->Some_0) == flats_v(out@).push(x@) + nxt->Some_0);
                    }
                }
                out.push(x);
                i = j;
            },
        }
    }
    assert(tot->Some_0 == flats_v(out@) + Seq::<VFlat>::empty());
    Some(out)
}

impl FlatTemplate {
    /// Reads template text into its flat list of text runs and tags.
    pub fn from_str(s: &str) -> (r: Result<FlatTemplate, Error>)
        ensures
            match file_s(s@, 0) {
                Some(f) => r matches Ok(t) && t@ == f,
                None => r is Err,
            },
    {
        let v = chars_of(s);
        match file_x(&v) {
            Some(items) => Ok(FlatTemplate { v: items }),
            None => Err(ea_str("Could not parse the template")),
        }
    }
}

impl TreeTemplate {
    /// Reads template text into a template tree.
    pub fn from_str(s: &str) -> (r: Result<TreeTemplate, Error>)
        ensures
            match file_s(s@, 0) {
                Some(f) => match block_s(f, 0, Ender::Nothing) {
                    Ok((b, _)) => r matches Ok(t) && t@ == b,
                    Err(m) => r matches Err(x) && x.msg() == m,
                },
                None => r is Err,
            },
    {
        match FlatTemplate::from_str(s) {
            Ok(f) => f.to_tree(),
            Err(e) => Err(e),
        }
    }
}

} // verus!
