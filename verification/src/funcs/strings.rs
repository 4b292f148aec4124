//! Functions on text.
use vstd::prelude::*;
use crate::err::{ea_str, Error};
use crate::eval::data_agrees;
use crate::show::v_display;
use crate::strs::{join_seqs, chars_of, push_str, string_of, sub_chars};
use crate::tdata::{datas_v, lemma_datas_v_index, lemma_datas_v_len, lemma_datas_v_map, v_as_usize, TData, VData};

verus! {

/// The displayed texts of values, one after another.
pub open spec fn concat_display(l: Seq<VData>) -> Seq<char>
    decreases l.len(),
{
    if l.len() == 0 {
        seq![]
    } else {
        concat_display(l.drop_last()) + v_display(l.last())
    }
}

/// Text values made from texts.
pub open spec fn text_list(ps: Seq<Seq<char>>) -> Seq<VData> {
    ps.map_values(|t: Seq<char>| VData::String(t))
}

/// Whether `p` stands in `s` at position `i`.
pub open spec fn occurs_at(s: Seq<char>, p: Seq<char>, i: int) -> bool {
    0 <= i && i + p.len() <= s.len() && s.subrange(i, i + p.len()) == p
}

/// The first position at or after `i` where `p` stands in `s`, or -1.
pub open spec fn find_from(s: Seq<char>, p: Seq<char>, i: int) -> int
    decreases s.len() + 1 - i,
{
    if i < 0 || i + p.len() > s.len() {
        -1
    } else if occurs_at(s, p, i) {
        i
    } else {
        find_from(s, p, i + 1)
    }
}

/// The pieces of `s` from `i` on between the occurrences of a non-empty separator `p`.
pub open spec fn split_from(s: Seq<char>, p: Seq<char>, i: int) -> Seq<Seq<char>>
    decreases s.len() + 1 - i,
{
    let j = find_from(s, p, i);
    if p.len() == 0 || i < 0 || i > s.len() || j < i || j + p.len() > s.len() {
        seq![s.subrange(i, s.len() as int)]
    } else {
        seq![s.subrange(i, j)] + split_from(s, p, j + p.len())
    }
}

/// The pieces of `s` between the occurrences of `p`, as std's `str::split` gives them: an
/// empty separator gives an empty piece, each character, and an empty piece.
pub open spec fn split_pieces(s: Seq<char>, p: Seq<char>) -> Seq<Seq<char>> {
    if p.len() == 0 {
        seq![Seq::<char>::empty()] + s.map_values(|c: char| seq![c]) + seq![Seq::<char>::empty()]
    } else {
        split_from(s, p, 0)
    }
}

/// `split`: the first argument (a text) cut at each occurrence of the second (a text; a new
/// line when it is missing or not a text).
pub open spec fn split_s(l: Seq<VData>) -> Result<VData, ()> {
    if l.len() == 0 {
        Err(())
    } else {
        let sep = if l.len() >= 2 && l[1] is String { l[1]->String_0 } else { seq!['\n'] };
        match l[0] {
            VData::String(s) => Ok(VData::List(text_list(split_pieces(s, sep)))),
            _ => Err(()),
        }
    }
}

/// `str_contains`: whether the text of the first argument contains the text of a later one.
pub open spec fn contains_s(l: Seq<VData>) -> Result<VData, ()> {
    if l.len() < 2 {
        Err(())
    } else {
        Ok(VData::Bool(exists|i: int| 1 <= i < l.len() && find_from(v_display(l[0]), v_display(#[trigger] l[i]), 0) >= 0))
    }
}

/// `s` from `i` on with every occurrence of a non-empty `p` replaced by `r`.
pub open spec fn replace_from(s: Seq<char>, p: Seq<char>, r: Seq<char>, i: int) -> Seq<char>
    decreases s.len() + 1 - i,
{
    let j = find_from(s, p, i);
    if p.len() == 0 || i < 0 || i > s.len() || j < i || j + p.len() > s.len() {
        s.subrange(i, s.len() as int)
    } else {
        s.subrange(i, j) + r + replace_from(s, p, r, j + p.len())
    }
}

/// `s` from `i` on with the first `n` occurrences of a non-empty `p` replaced by `r`.
pub open spec fn replacen_from(s: Seq<char>, p: Seq<char>, r: Seq<char>, i: int, n: nat) -> Seq<char>
    decreases s.len() + 1 - i,
{
    let j = find_from(s, p, i);
    if n == 0 || p.len() == 0 || i < 0 || i > s.len() || j < i || j + p.len() > s.len() {
        s.subrange(i, s.len() as int)
    } else {
        s.subrange(i, j) + r + replacen_from(s, p, r, j + p.len(), (n - 1) as nat)
    }
}

/// `s` from `i` on with `r` put before each of the first `n` character boundaries (an empty
/// pattern occurs at every boundary, the end included).
pub open spec fn fill_from(s: Seq<char>, r: Seq<char>, i: int, n: nat) -> Seq<char>
    decreases s.len() - i,
{
    if i < 0 || i > s.len() {
        seq![]
    } else if n == 0 {
        s.subrange(i, s.len() as int)
    } else if i == s.len() {
        r
    } else {
        r + seq![s[i]] + fill_from(s, r, i + 1, (n - 1) as nat)
    }
}

/// std's `str::replacen`: the first `n` occurrences of `p` in `s` replaced by `r`.
pub open spec fn replacen_text(s: Seq<char>, p: Seq<char>, r: Seq<char>, n: nat) -> Seq<char> {
    if p.len() == 0 {
        fill_from(s, r, 0, n)
    } else {
        replacen_from(s, p, r, 0, n)
    }
}

/// std's `str::replace`: every occurrence of `p` in `s` replaced by `r`.
pub open spec fn replace_text(s: Seq<char>, p: Seq<char>, r: Seq<char>) -> Seq<char> {
    if p.len() == 0 {
        fill_from(s, r, 0, (s.len() + 1) as nat)
    } else {
        replace_from(s, p, r, 0)
    }
}

/// `str_replace`: in the text of the first argument, the text of the second replaced by that of
/// the third.
pub open spec fn replace_s(l: Seq<VData>) -> Result<VData, ()> {
    if l.len() < 3 {
        Err(())
    } else {
        Ok(VData::String(replace_text(v_display(l[0]), v_display(l[1]), v_display(l[2]))))
    }
}

/// `str_replace_n`: as `str_replace`, for the first `n` occurrences (the fourth argument, one
/// when missing or not a count).
pub open spec fn replace_n_s(l: Seq<VData>) -> Result<VData, ()> {
    if l.len() < 3 {
        Err(())
    } else {
        let n: nat = if l.len() >= 4 && v_as_usize(l[3]) is Some { v_as_usize(l[3])->Some_0 as nat } else { 1 };
        Ok(VData::String(replacen_text(v_display(l[0]), v_display(l[1]), v_display(l[2]), n)))
    }
}

/// A character escaped for HTML: `&`, `<`, `>`, `"` and `'` become complete entities.
pub open spec fn html_char(c: char) -> Seq<char> {
    if c == '&' { "&amp;"@ }
    else if c == '<' { "&lt;"@ }
    else if c == '>' { "&gt;"@ }
    else if c == '"' { "&quot;"@ }
    else if c == '\'' { "&#39;"@ }
    else { seq![c] }
}

/// A text escaped for HTML.
pub open spec fn html_text(t: Seq<char>) -> Seq<char>
    decreases t.len(),
{
    if t.len() == 0 {
        seq![]
    } else {
        html_text(t.drop_last()) + html_char(t.last())
    }
}

/// `html_esc`: the texts of all arguments, escaped for HTML, one after another.
pub open spec fn html_esc_all(l: Seq<VData>) -> Seq<char>
    decreases l.len(),
{
    if l.len() == 0 {
        seq![]
    } else {
        html_esc_all(l.drop_last()) + html_text(v_display(l.last()))
    }
}

/// Joins the displayed texts of the values.
pub fn cat(l: &[TData]) -> (r: Result<TData, Error>)
    ensures
        r matches Ok(x) && x@ == VData::String(concat_display(datas_v(l@))),
{
    let ghost ls = datas_v(l@);
    proof { lemma_datas_v_len(l@); }
    let mut out = String::new();
    let mut i: usize = 0;
    while i < l.len()
        invariant
            i <= l.len(),
            ls == datas_v(l@),
            ls.len() == l.len(),
            out@ == concat_display(ls.take(i as int)),
        decreases l.len() - i,
    {
        proof {
            lemma_datas_v_index(l@, i as int);
            assert(ls.take(i + 1).drop_last() == ls.take(i as int));
        }
        let t = l[i].to_string();
        push_str(&mut out, t.as_str());
        i = i + 1;
    }
    assert(ls.take(ls.len() as int) == ls);
    Ok(TData::String(out))
}

/// Whether `p` stands in `s` at position `i`.
fn occurs_at_x(s: &Vec<char>, p: &Vec<char>, i: usize) -> (r: bool)
    ensures
        r == occurs_at(s@, p@, i as int),
{
    if i > s.len() || p.len() > s.len() - i {
        return false;
    }
    let mut k: usize = 0;
    while k < p.len()
        invariant
            k <= p.len(),
            i + p.len() <= s.len(),
            forall|m: int| 0 <= m < k ==> s@[i + m] == p@[m],
        decreases p.len() - k,
    {
        if s[i + k] != p[k] {
            assert(s@.subrange(i as int, i + p.len())[k as int] != p@[k as int]);
            return false;
        }
        k = k + 1;
    }
    assert(s@.subrange(i as int, i + p.len()) =~= p@);
    true
}

/// The first position at or after `i` where `p` stands in `s`.
fn find_from_x(s: &Vec<char>, p: &Vec<char>, i: usize) -> (r: Option<usize>)
    requires
        i <= s.len(),
    ensures
        match r {
            Some(j) => j == find_from(s@, p@, i as int) && j >= i && j + p.len() <= s.len(),
            None => find_from(s@, p@, i as int) == -1,
        },
{
    let mut j = i;
    while j <= s.len()
        invariant
            i <= j,
            find_from(s@, p@, i as int) == find_from(s@, p@, j as int),
        decreases s.len() + 1 - j,
    {
        if p.len() > s.len() - j {
            return None;
        }
        if occurs_at_x(s, p, j) {
            return Some(j);
        }
        if j == s.len() {
            assert(find_from(s@, p@, j + 1) == -1);
            return None;
        }
        j = j + 1;
    }
    None
}

/// Text values made from pieces of characters.
fn text_values(ps: Vec<Vec<char>>) -> (r: Vec<TData>)
    ensures
        datas_v(r@) == text_list(ps@.map_values(|v: Vec<char>| v@)),
{
    let mut r: Vec<TData> = Vec::new();
    let mut i: usize = 0;
    while i < ps.len()
        invariant
            i <= ps.len(),
            r@.len() == i,
            forall|j: int| 0 <= j < i ==> (#[trigger] r@[j])@ == VData::String(ps@[j]@),
        decreases ps.len() - i,
    {
        r.push(TData::String(string_of(&ps[i])));
        i = i + 1;
    }
    proof {
        lemma_datas_v_map(r@);
        assert(datas_v(r@) =~= text_list(ps@.map_values(|v: Vec<char>| v@)));
    }
    r
}

/// The pieces of `s` between the occurrences of `p`.
fn split_text(s: &Vec<char>, p: &Vec<char>) -> (r: Vec<Vec<char>>)
    ensures
        r@.map_values(|v: Vec<char>| v@) == split_pieces(s@, p@),
{
    let mut out: Vec<Vec<char>> = Vec::new();
    if p.len() == 0 {
        out.push(Vec::new());
        let mut i: usize = 0;
        while i < s.len()
            invariant
                i <= s.len(),
                p@.len() == 0,
                out@.map_values(|v: Vec<char>| v@) == seq![Seq::<char>::empty()] + s@.take(i as int).map_values(|c: char| seq![c]),
            decreases s.len() - i,
        {
            let mut one: Vec<char> = Vec::new();
            one.push(s[i]);
            assert(one@ =~= seq![s@[i as int]]);
            assert(s@.take(i + 1) == s@.take(i as int).push(s@[i as int]));
            let ghost o0 = out@;
            out.push(one);
            assert(out@ == o0.push(one));
            assert(out@.map_values(|v: Vec<char>| v@) =~= o0.map_values(|v: Vec<char>| v@).push(one@));
            assert(s@.take(i + 1).map_values(|c: char| seq![c]) =~= s@.take(i as int).map_values(|c: char| seq![c]).push(seq![s@[i as int]]));
            assert(out@.map_values(|v: Vec<char>| v@) =~= seq![Seq::<char>::empty()] + s@.take(i + 1).map_values(|c: char| seq![c]));
            i = i + 1;
        }
        out.push(Vec::new());
        assert(s@.take(s.len() as int) == s@);
        assert(out@.map_values(|v: Vec<char>| v@) =~= split_pieces(s@, p@));
        return out;
    }
    let mut i: usize = 0;
    let ghost tot = split_from(s@, p@, 0);
    assert(out@.map_values(|v: Vec<char>| v@) =~= Seq::<Seq<char>>::empty());
    loop
        invariant
            i <= s.len(),
            p.len() > 0,
            tot == split_from(s@, p@, 0),
            tot == out@.map_values(|v: Vec<char>| v@) + split_from(s@, p@, i as int),
        decreases s.len() - i,
    {
        match find_from_x(s, p, i) {
            Some(j) => {
                let piece = sub_chars(s, i, j);
                let ghost o0 = out@.map_values(|v: Vec<char>| v@);
                out.push(piece);
                assert(out@.map_values(|v: Vec<char>| v@) =~= o0.push(piece@));
                assert(o0 + split_from(s@, p@, i as int) == o0.push(piece@) + split_from(s@, p@, j + p.len()));
                i = j + p.len();
            },
            None => {
                let piece = sub_chars(s, i, s.len());
                let ghost o0 = out@.map_values(|v: Vec<char>| v@);
                out.push(piece);
                assert(out@.map_values(|v: Vec<char>| v@) =~= o0.push(piece@));
                assert(tot =~= out@.map_values(|v: Vec<char>| v@));
                return out;
            },
        }
    }
}

/// Cuts the first argument (a text) at each occurrence of the second (a new line by default).
pub fn split(l: &[TData]) -> (r: Result<TData, Error>)
    ensures
        data_agrees(r, split_s(datas_v(l@))),
{
    proof { lemma_datas_v_len(l@); }
    if l.len() == 0 {
        return Err(ea_str("Nothing to split"));
    }
    proof { lemma_datas_v_index(l@, 0); }
    let sep: Vec<char> = if l.len() >= 2 {
        proof { lemma_datas_v_index(l@, 1); }
        match &l[1] {
            TData::String(t) => chars_of(t.as_str()),
            _ => {
                let mut v = Vec::new();
                v.push('\n');
                v
            },
        }
    } else {
        let mut v = Vec::new();
        v.push('\n');
        v
    };
    assert(sep@ == (if datas_v(l@).len() >= 2 && datas_v(l@)[1] is String { datas_v(l@)[1]->String_0 } else { seq!['\n'] }));
    match &l[0] {
        TData::String(t) => {
            let sv = chars_of(t.as_str());
            let pieces = split_text(&sv, &sep);
            Ok(TData::List(text_values(pieces)))
        },
        _ => Err(ea_str("To split Must be a string")),
    }
}

/// Whether the text of the first argument contains the text of a later one.
pub fn contains(args: &[TData]) -> (r: Result<TData, Error>)
    ensures
        data_agrees(r, contains_s(datas_v(args@))),
{
    let ghost ls = datas_v(args@);
    proof { lemma_datas_v_len(args@); }
    if args.len() < 2 {
        return Err(ea_str("'contains' requires a string and then a list of potential substrings"));
    }
    proof { lemma_datas_v_index(args@, 0); }
    let s = chars_of(args[0].to_string().as_str());
    let mut i: usize = 1;
    while i < args.len()
        invariant
            1 <= i <= args.len(),
            ls == datas_v(args@),
            ls.len() == args.len(),
            s@ == v_display(ls[0]),
            forall|j: int| 1 <= j < i ==> find_from(v_display(ls[0]), v_display(#[trigger] ls[j]), 0) < 0,
        decreases args.len() - i,
    {
        proof { lemma_datas_v_index(args@, i as int); }
        let sub = chars_of(args[i].to_string().as_str());
        match find_from_x(&s, &sub, 0) {
            Some(_) => { return Ok(TData::Bool(true)); },
            None => {},
        }
        i = i + 1;
    }
    Ok(TData::Bool(false))
}

/// `s` with `r` put at the first `n` character boundaries (at all of them when `n` is `None`).
fn fill_text(s: &Vec<char>, r: &Vec<char>, n: Option<usize>) -> (out: Vec<char>)
    ensures
        out@ == fill_from(s@, r@, 0, match n { Some(k) => k as nat, None => (s.len() + 1) as nat }),
{
    let ghost total: nat = match n { Some(k) => k as nat, None => (s.len() + 1) as nat };
    let mut out: Vec<char> = Vec::new();
    let mut i: usize = 0;
    let mut left: usize = match n { Some(k) => k, None => 0 };
    let ghost mut gleft: nat = total;
    loop
        invariant
            i <= s.len(),
            total == (match n { Some(k) => k as nat, None => (s.len() + 1) as nat }),
            n is Some ==> gleft == left,
            n is None ==> gleft == s.len() + 1 - i,
            fill_from(s@, r@, 0, total) == out@ + fill_from(s@, r@, i as int, gleft),
        decreases s.len() - i,
    {
        let ghost o0 = out@;
        if n.is_some() && left == 0 {
            let mut rest = sub_chars(s, i, s.len());
            let ghost rs = rest@;
            out.append(&mut rest);
            assert(fill_from(s@, r@, i as int, gleft) == rs);
            assert(out@ == o0 + rs);
            return out;
        }
        if i == s.len() {
            let mut r2 = crate::strs::clone_chars(r);
            let ghost rs = r2@;
            out.append(&mut r2);
            assert(fill_from(s@, r@, i as int, gleft) == rs);
            assert(out@ == o0 + rs);
            return out;
        }
        let mut r2 = crate::strs::clone_chars(r);
        out.append(&mut r2);
        out.push(s[i]);
        assert(o0 + (r@ + seq![s@[i as int]] + fill_from(s@, r@, i + 1, (gleft - 1) as nat))
            == (o0 + r@).push(s@[i as int]) + fill_from(s@, r@, i + 1, (gleft - 1) as nat));
        i = i + 1;
        if n.is_some() {
            left = left - 1;
        }
        proof { gleft = (gleft - 1) as nat; }
    }
}

/// `s` with the first `n` occurrences of a non-empty `p` replaced by `r` (all of them when
/// `n` is `None`).
fn replace_occurrences(s: &Vec<char>, p: &Vec<char>, r: &Vec<char>, n: Option<usize>) -> (out: Vec<char>)
    requires
        p.len() > 0,
    ensures
        match n {
            Some(k) => out@ == replacen_from(s@, p@, r@, 0, k as nat),
            None => out@ == replace_from(s@, p@, r@, 0),
        },
{
    let mut out: Vec<char> = Vec::new();
    let mut i: usize = 0;
    let mut left: usize = match n { Some(k) => k, None => 0 };
    loop
        invariant
            i <= s.len(),
            p.len() > 0,
            n is Some ==> replacen_from(s@, p@, r@, 0, n->Some_0 as nat) == out@ + replacen_from(s@, p@, r@, i as int, left as nat),
            n is None ==> replace_from(s@, p@, r@, 0) == out@ + replace_from(s@, p@, r@, i as int),
        decreases s.len() - i,
    {
        let ghost o0 = out@;
        if n.is_some() && left == 0 {
            let mut rest = sub_chars(s, i, s.len());
            out.append(&mut rest);
            return out;
        }
        match find_from_x(s, p, i) {
            Some(j) => {
                let mut piece = sub_chars(s, i, j);
                let ghost pc = piece@;
                out.append(&mut piece);
                let mut r2 = crate::strs::clone_chars(r);
                out.append(&mut r2);
                assert(o0 + (pc + r@ + replace_from(s@, p@, r@, j + p.len())) == (o0 + pc + r@) + replace_from(s@, p@, r@, j + p.len()));
                assert(o0 + (pc + r@ + replacen_from(s@, p@, r@, j + p.len(), (left - 1) as nat)) == (o0 + pc + r@) + replacen_from(s@, p@, r@, j + p.len(), (left - 1) as nat));
                i = j + p.len();
                if n.is_some() {
                    left = left - 1;
                }
            },
            None => {
                let mut rest = sub_chars(s, i, s.len());
                out.append(&mut rest);
                return out;
            },
        }
    }
}

/// In the text of the first argument, the text of the second replaced by that of the third.
pub fn replace(args: &[TData]) -> (r: Result<TData, Error>)
    ensures
        data_agrees(r, replace_s(datas_v(args@))),
{
    proof { lemma_datas_v_len(args@); }
    if args.len() < 3 {
        return Err(ea_str("'replace' requires a string then substr to replace with substr"));
    }
    proof {
        lemma_datas_v_index(args@, 0);
        lemma_datas_v_index(args@, 1);
        lemma_datas_v_index(args@, 2);
    }
    let s = chars_of(args[0].to_string().as_str());
    let p = chars_of(args[1].to_string().as_str());
    let rp = chars_of(args[2].to_string().as_str());
    let out = if p.len() == 0 {
        fill_text(&s, &rp, None)
    } else {
        replace_occurrences(&s, &p, &rp, None)
    };
    Ok(TData::String(string_of(&out)))
}

/// As [`replace`], for the first `n` occurrences (the fourth argument, one by default).
pub fn replace_n(args: &[TData]) -> (r: Result<TData, Error>)
    ensures
        data_agrees(r, replace_n_s(datas_v(args@))),
{
    proof { lemma_datas_v_len(args@); }
    if args.len() < 3 {
        return Err(ea_str("'replace' requires a string then substr to replace with substr"));
    }
    proof {
        lemma_datas_v_index(args@, 0);
        lemma_datas_v_index(args@, 1);
        lemma_datas_v_index(args@, 2);
    }
    let n: usize = if args.len() >= 4 {
        proof { lemma_datas_v_index(args@, 3); }
        match args[3].as_usize() {
            Some(k) => k,
            None => 1,
        }
    } else {
        1
    };
    let s = chars_of(args[0].to_string().as_str());
    let p = chars_of(args[1].to_string().as_str());
    let rp = chars_of(args[2].to_string().as_str());
    let out = if p.len() == 0 {
        fill_text(&s, &rp, Some(n))
    } else {
        replace_occurrences(&s, &p, &rp, Some(n))
    };
    Ok(TData::String(string_of(&out)))
}

fn html_push(out: &mut String, c: char)
    ensures
        final(out)@ == old(out)@ + html_char(c),
{
    if c == '&' { push_str(out, "&amp;"); }
    else if c == '<' { push_str(out, "&lt;"); }
    else if c == '>' { push_str(out, "&gt;"); }
    else if c == '"' { push_str(out, "&quot;"); }
    else if c == '\'' { push_str(out, "&#39;"); }
    else {
        crate::strs::push_char(out, c);
    }
}

/// The texts of all arguments, escaped for HTML, one after another.
pub fn html_esc(args: &[TData]) -> (r: Result<TData, Error>)
    ensures
        r matches Ok(x) && x@ == VData::String(html_esc_all(datas_v(args@))),
{
    let ghost ls = datas_v(args@);
    proof { lemma_datas_v_len(args@); }
    let mut out = String::new();
    let mut i: usize = 0;
    while i < args.len()
        invariant
            i <= args.len(),
            ls == datas_v(args@),
            ls.len() == args.len(),
            out@ == html_esc_all(ls.take(i as int)),
        decreases args.len() - i,
    {
        proof {
            lemma_datas_v_index(args@, i as int);
            assert(ls.take(i + 1).drop_last() == ls.take(i as int));
        }
        let t = chars_of(args[i].to_string().as_str());
        let ghost o0 = out@;
        let mut k: usize = 0;
        while k < t.len()
            invariant
                k <= t.len(),
                out@ == o0 + html_text(t@.take(k as int)),
            decreases t.len() - k,
        {
            assert(t@.take(k + 1).drop_last() == t@.take(k as int));
            html_push(&mut out, t[k]);
            k = k + 1;
        }
        assert(t@.take(t.len() as int) == t@);
        i = i + 1;
    }
    assert(ls.take(ls.len() as int) == ls);
    Ok(TData::String(out))
}

/// The HTML that pulldown-cmark renders for a markdown text.
pub uninterp spec fn markdown_html(text: Seq<char>) -> Seq<char>;

/// Renders markdown as HTML with pulldown-cmark (`Parser::new_ext` with `Options::all()`, then
/// `html::push_html` into an empty string).
///
/// Claims of pulldown-cmark: the HTML is a function of the text alone. What HTML it is, is not
/// stated.
#[verifier::external_body]
fn render_markdown(text: &str) -> (r: String)
    ensures
        r@ == markdown_html(text@),
{
    let mut out = String::new();
    pulldown_cmark::html::push_html(&mut out, pulldown_cmark::Parser::new_ext(text, pulldown_cmark::Options::all()));
    out
}

/// The markdown renderings of the texts of values, one after another.
pub open spec fn md_all(l: Seq<VData>) -> Seq<char>
    decreases l.len(),
{
    if l.len() == 0 {
        seq![]
    } else {
        md_all(l.drop_last()) + markdown_html(v_display(l.last()))
    }
}

/// Renders the text of each argument as markdown, and joins the HTML.
pub fn md(l: &[TData]) -> (r: Result<TData, Error>)
    ensures
        r matches Ok(x) && x@ == VData::String(md_all(datas_v(l@))),
{
    let ghost ls = datas_v(l@);
    proof { lemma_datas_v_len(l@); }
    let mut out = String::new();
    let mut i: usize = 0;
    while i < l.len()
        invariant
            i <= l.len(),
            ls == datas_v(l@),
            ls.len() == l.len(),
            out@ == md_all(ls.take(i as int)),
        decreases l.len() - i,
    {
        proof {
            lemma_datas_v_index(l@, i as int);
            assert(ls.take(i + 1).drop_last() == ls.take(i as int));
        }
        let t = l[i].to_string();
        let h = render_markdown(t.as_str());
        push_str(&mut out, h.as_str());
        i = i + 1;
    }
    assert(ls.take(ls.len() as int) == ls);
    Ok(TData::String(out))
}

/// What the regex crate says of a pattern and a text: `None` when the pattern does not
/// compile, else whether the text matches it.
pub uninterp spec fn regex_verdict(pattern: Seq<char>, text: Seq<char>) -> Option<bool>;

/// Compiles a pattern with the regex crate (`Regex::new`) and tests a text against it
/// (`Regex::is_match`).
///
/// Claims of the regex crate: the answer is a function of the pattern and the text alone. When
/// a pattern compiles and what matches it, is not stated.
#[verifier::external_body]
fn regex_check(pattern: &str, text: &str) -> (r: Option<bool>)
    ensures
        r == regex_verdict(pattern@, text@),
{
    match regex::Regex::new(pattern) {
        Ok(re) => Some(re.is_match(text)),
        Err(_) => None,
    }
}

/// `regex`: whether the text of the first argument matches the pattern of the second.
pub open spec fn regex_s(l: Seq<VData>) -> Result<VData, ()> {
    if l.len() < 2 {
        Err(())
    } else {
        match regex_verdict(v_display(l[1]), v_display(l[0])) {
            Some(b) => Ok(VData::Bool(b)),
            None => Err(()),
        }
    }
}

/// Whether the text of the first argument matches the regular expression of the second.
pub fn regex(l: &[TData]) -> (r: Result<TData, Error>)
    ensures
        data_agrees(r, regex_s(datas_v(l@))),
{
    proof { lemma_datas_v_len(l@); }
    if l.len() < 2 {
        return Err(ea_str("Regex test requires String , Regex_String"));
    }
    proof {
        lemma_datas_v_index(l@, 0);
        lemma_datas_v_index(l@, 1);
    }
    let p = l[1].to_string();
    let t = l[0].to_string();
    match regex_check(p.as_str(), t.as_str()) {
        Some(b) => Ok(TData::Bool(b)),
        None => Err(ea_str("Invalid regex")),
    }
}

/// Whether a character has the Unicode White_Space property (what `char::is_whitespace`
/// tests): tab to carriage return, space, next line, no-break space, ogham space mark, the
/// spaces from en quad to hair space, the line and paragraph separators, narrow no-break
/// space, medium mathematical space and ideographic space.
pub open spec fn white_space(c: char) -> bool {
    ('\u{9}' <= c && c <= '\u{d}') || c == ' ' || c == '\u{85}' || c == '\u{a0}' || c == '\u{1680}'
        || ('\u{2000}' <= c && c <= '\u{200a}') || c == '\u{2028}' || c == '\u{2029}'
        || c == '\u{202f}' || c == '\u{205f}' || c == '\u{3000}'
}

/// Whether a character has the Unicode White_Space property.
fn is_white(c: char) -> (r: bool)
    ensures
        r == white_space(c),
{
    ('\u{9}' <= c && c <= '\u{d}') || c == ' ' || c == '\u{85}' || c == '\u{a0}' || c == '\u{1680}'
        || ('\u{2000}' <= c && c <= '\u{200a}') || c == '\u{2028}' || c == '\u{2029}'
        || c == '\u{202f}' || c == '\u{205f}' || c == '\u{3000}'
}

/// The position after the leading whitespace of `t` from `i`.
pub open spec fn lead_end(t: Seq<char>, i: int) -> int
    decreases t.len() - i,
{
    if 0 <= i < t.len() && white_space(t[i]) {
        lead_end(t, i + 1)
    } else {
        i
    }
}

/// The position before the trailing whitespace of `t[..j]`.
pub open spec fn tail_end(t: Seq<char>, j: int) -> int
    decreases j,
{
    if 0 < j <= t.len() && white_space(t[j - 1]) {
        tail_end(t, j - 1)
    } else {
        j
    }
}

/// std's `str::trim`: the text without leading and trailing whitespace.
pub open spec fn trim_text(t: Seq<char>) -> Seq<char> {
    let a = lead_end(t, 0);
    let b = tail_end(t, t.len() as int);
    if a < b { t.subrange(a, b) } else { seq![] }
}

/// Where word wrapping stands after some characters: the lines finished so far, the line
/// being filled, and the word being read.
pub struct WrapState {
    pub lines: Seq<Seq<char>>,
    pub line: Seq<char>,
    pub word: Seq<char>,
}

/// A word put on the line being filled: it starts the line when the line is empty, follows a
/// space when it still fits within `len`, and otherwise ends the line and starts the next.
pub open spec fn put_word(len: nat, st: WrapState) -> WrapState {
    if st.word.len() == 0 {
        st
    } else if st.line.len() == 0 {
        WrapState { lines: st.lines, line: st.word, word: seq![] }
    } else if st.line.len() + 1 + st.word.len() <= len {
        WrapState { lines: st.lines, line: st.line + seq![' '] + st.word, word: seq![] }
    } else {
        WrapState { lines: st.lines.push(st.line), line: st.word, word: seq![] }
    }
}

/// Word wrapping after one more character: a new line puts the word and ends the line (so the
/// text's own line breaks stay); other whitespace puts the word; any other character goes on
/// the word.
pub open spec fn wrap_step(len: nat, c: char, st: WrapState) -> WrapState {
    if c == '\n' {
        let st1 = put_word(len, st);
        WrapState { lines: st1.lines.push(st1.line), line: seq![], word: seq![] }
    } else if white_space(c) {
        put_word(len, st)
    } else {
        WrapState { word: st.word.push(c), ..st }
    }
}

/// Word wrapping over the first `k` characters.
pub open spec fn wrap_run(s: Seq<char>, len: nat, k: int) -> WrapState
    decreases k,
{
    if k <= 0 {
        WrapState { lines: seq![], line: seq![], word: seq![] }
    } else {
        wrap_step(len, s[k - 1], wrap_run(s, len, k - 1))
    }
}

/// The lines a text is wrapped into: its words, in order, filled greedily into lines of at
/// most `len` characters with one space between words; a line break of the text ends a line.
pub open spec fn wrap_lines(s: Seq<char>, len: nat) -> Seq<Seq<char>> {
    let st = put_word(len, wrap_run(s, len, s.len() as int));
    st.lines.push(st.line)
}

/// Every run of non-whitespace characters (every word) of `s` has at most `len` characters.
pub open spec fn words_fit(s: Seq<char>, len: nat) -> bool {
    forall|i: int, j: int| 0 <= i <= j <= s.len() && #[trigger] no_white(s, i, j) ==> j - i <= len
}

/// No whitespace stands in `s` from `i` up to `j`.
pub open spec fn no_white(s: Seq<char>, i: int, j: int) -> bool {
    forall|k: int| i <= k < j ==> !white_space(#[trigger] s[k])
}

/// A line of wrapped text: at most `len` characters, and no whitespace but single spaces.
pub open spec fn line_ok(l: Seq<char>, len: nat) -> bool {
    &&& l.len() <= len
    &&& forall|k: int| 0 <= k < l.len() ==> (#[trigger] l[k] == ' ' || !white_space(l[k]))
}

proof fn lemma_put_word(len: nat, st: WrapState)
    requires
        forall|i: int| 0 <= i < st.lines.len() ==> line_ok(#[trigger] st.lines[i], len),
        line_ok(st.line, len),
        line_ok(st.word, len),
    ensures
        forall|i: int| 0 <= i < put_word(len, st).lines.len() ==> line_ok(#[trigger] put_word(len, st).lines[i], len),
        line_ok(put_word(len, st).line, len),
        put_word(len, st).word.len() == 0,
{
    let r = put_word(len, st);
    if st.word.len() > 0 && st.line.len() > 0 && st.line.len() + 1 + st.word.len() <= len {
        let l = st.line + seq![' '] + st.word;
        assert forall|k: int| 0 <= k < l.len() implies (#[trigger] l[k] == ' ' || !white_space(l[k])) by {
            if k < st.line.len() {
                assert(l[k] == st.line[k]);
            } else if k > st.line.len() {
                assert(l[k] == st.word[k - st.line.len() - 1]);
            }
        }
    }
    if st.word.len() > 0 && st.line.len() > 0 && st.line.len() + 1 + st.word.len() > len {
        assert forall|i: int| 0 <= i < r.lines.len() implies line_ok(#[trigger] r.lines[i], len) by {
            if i < st.lines.len() {
                assert(r.lines[i] == st.lines[i]);
            }
        }
    }
}

proof fn lemma_wrap_run(s: Seq<char>, len: nat, k: int)
    requires
        0 <= k <= s.len(),
        words_fit(s, len),
    ensures
        forall|i: int| 0 <= i < wrap_run(s, len, k).lines.len() ==> line_ok(#[trigger] wrap_run(s, len, k).lines[i], len),
        line_ok(wrap_run(s, len, k).line, len),
        line_ok(wrap_run(s, len, k).word, len),
        wrap_run(s, len, k).word.len() <= k,
        wrap_run(s, len, k).word =~= s.subrange(k - wrap_run(s, len, k).word.len(), k),
        forall|m: int| k - wrap_run(s, len, k).word.len() <= m < k ==> !white_space(#[trigger] s[m]),
    decreases k,
{
    if k > 0 {
        lemma_wrap_run(s, len, k - 1);
        let st = wrap_run(s, len, k - 1);
        let c = s[k - 1];
        if c == '\n' {
            lemma_put_word(len, st);
            let st1 = put_word(len, st);
            let r = wrap_run(s, len, k);
            assert forall|i: int| 0 <= i < r.lines.len() implies line_ok(#[trigger] r.lines[i], len) by {
                if i < st1.lines.len() {
                    assert(r.lines[i] == st1.lines[i]);
                }
            }
        } else if white_space(c) {
            lemma_put_word(len, st);
        } else {
            let w = st.word.push(c);
            let i0 = k - w.len();
            assert forall|j: int| 0 <= j < w.len() implies w[j] == s.subrange(i0, k)[j] by {
                if j < st.word.len() {
                    assert(w[j] == st.word[j]);
                    assert(st.word[j] == s.subrange(k - 1 - st.word.len(), k - 1)[j]);
                }
            }
            assert(w =~= s.subrange(i0, k));
            assert forall|m: int| i0 <= m < k implies !white_space(#[trigger] s[m]) by {
                if m < k - 1 {
                    assert(k - 1 - st.word.len() <= m);
                }
            }
            assert(w.len() <= len) by {
                assert(0 <= i0 <= k <= s.len());
                assert(no_white(s, i0, k));
            }
            assert forall|j: int| 0 <= j < w.len() implies (#[trigger] w[j] == ' ' || !white_space(w[j])) by {
                assert(w[j] == s[i0 + j]);
            }
        }
    }
}

/// How many characters at the end of `s` are not whitespace.
pub open spec fn tail_len(s: Seq<char>) -> nat
    decreases s.len(),
{
    if s.len() == 0 || white_space(s.last()) {
        0
    } else {
        1 + tail_len(s.drop_last())
    }
}

/// The words of a text: its runs of characters other than whitespace, in order.
pub open spec fn words(s: Seq<char>) -> Seq<Seq<char>>
    decreases s.len(),
{
    if s.len() == 0 {
        seq![]
    } else if white_space(s.last()) {
        words(s.drop_last())
    } else {
        let k = s.len() - tail_len(s);
        if 0 <= k < s.len() {
            words(s.subrange(0, k)).push(s.subrange(k, s.len() as int))
        } else {
            seq![]
        }
    }
}

/// The words of each line, one line after another.
pub open spec fn lines_words(ls: Seq<Seq<char>>) -> Seq<Seq<char>>
    decreases ls.len(),
{
    if ls.len() == 0 {
        seq![]
    } else {
        lines_words(ls.drop_last()) + words(ls.last())
    }
}

/// The words that a state of word wrapping holds: those of its lines, of the line being
/// filled, and the word being read.
spec fn state_words(st: WrapState) -> Seq<Seq<char>> {
    lines_words(st.lines) + words(st.line) + if st.word.len() > 0 { seq![st.word] } else { seq![] }
}

proof fn lemma_tail_len(s: Seq<char>)
    ensures
        tail_len(s) <= s.len(),
        forall|m: int| s.len() - tail_len(s) <= m < s.len() ==> !white_space(#[trigger] s[m]),
        tail_len(s) < s.len() ==> white_space(s[s.len() - tail_len(s) - 1]),
    decreases s.len(),
{
    if s.len() > 0 && !white_space(s.last()) {
        let d = s.drop_last();
        lemma_tail_len(d);
        assert forall|m: int| s.len() - tail_len(s) <= m < s.len() implies !white_space(#[trigger] s[m]) by {
            if m < s.len() - 1 {
                assert(s[m] == d[m]);
            }
        }
        if tail_len(s) < s.len() {
            assert(s[s.len() - tail_len(s) - 1] == d[d.len() - tail_len(d) - 1]);
        }
    }
}

proof fn lemma_tail_of_word(a: Seq<char>, b: Seq<char>)
    requires
        a.len() > 0 ==> white_space(a.last()),
        forall|m: int| 0 <= m < b.len() ==> !white_space(#[trigger] b[m]),
    ensures
        tail_len(a + b) == b.len(),
    decreases b.len(),
{
    if b.len() > 0 {
        assert((a + b).drop_last() =~= a + b.drop_last());
        assert((a + b).last() == b[b.len() - 1]);
        lemma_tail_of_word(a, b.drop_last());
    } else {
        assert(a + b =~= a);
    }
}

/// A word after a text that ends in whitespace (or is empty) is its last word.
proof fn lemma_words_push(a: Seq<char>, b: Seq<char>)
    requires
        a.len() > 0 ==> white_space(a.last()),
        b.len() > 0,
        forall|m: int| 0 <= m < b.len() ==> !white_space(#[trigger] b[m]),
    ensures
        words(a + b) == words(a).push(b),
{
    lemma_tail_of_word(a, b);
    let x = a + b;
    assert(x.last() == b[b.len() - 1]);
    assert(x.subrange(0, a.len() as int) =~= a);
    assert(x.subrange(a.len() as int, x.len() as int) =~= b);
}

proof fn lemma_words_one(b: Seq<char>)
    requires
        b.len() > 0,
        forall|m: int| 0 <= m < b.len() ==> !white_space(#[trigger] b[m]),
    ensures
        words(b) == seq![b],
{
    lemma_words_push(seq![], b);
    assert(Seq::<char>::empty() + b =~= b);
    assert(Seq::<Seq<char>>::empty().push(b) =~= seq![b]);
}

proof fn lemma_put_word_words(len: nat, st: WrapState)
    requires
        forall|m: int| 0 <= m < st.word.len() ==> !white_space(#[trigger] st.word[m]),
    ensures
        state_words(put_word(len, st)) == state_words(st),
        put_word(len, st).word.len() == 0,
{
    let w = st.word;
    if w.len() > 0 {
        lemma_words_one(w);
        if st.line.len() == 0 {
            assert(words(st.line) =~= Seq::<Seq<char>>::empty());
            assert(state_words(put_word(len, st)) =~= state_words(st));
        } else if st.line.len() + 1 + w.len() <= len {
            let a = st.line + seq![' '];
            assert(a.last() == ' ');
            lemma_words_push(a, w);
            assert(a.drop_last() =~= st.line);
            assert(words(a) == words(st.line));
            assert(state_words(put_word(len, st)) =~= state_words(st));
        } else {
            let ls = st.lines.push(st.line);
            assert(ls.drop_last() =~= st.lines);
            assert(lines_words(ls) == lines_words(st.lines) + words(st.line));
            assert(state_words(put_word(len, st)) =~= state_words(st));
        }
    }
}

proof fn lemma_wrap_words(s: Seq<char>, len: nat, k: int)
    requires
        0 <= k <= s.len(),
    ensures
        state_words(wrap_run(s, len, k)) == words(s.take(k)),
        wrap_run(s, len, k).word.len() == tail_len(s.take(k)),
        forall|m: int| 0 <= m < wrap_run(s, len, k).word.len() ==> !white_space(#[trigger] wrap_run(s, len, k).word[m]),
    decreases k,
{
    if k == 0 {
        assert(s.take(0) =~= Seq::<char>::empty());
        assert(state_words(wrap_run(s, len, k)) =~= Seq::<Seq<char>>::empty());
    } else {
        lemma_wrap_words(s, len, k - 1);
        let st = wrap_run(s, len, k - 1);
        let c = s[k - 1];
        let t = s.take(k - 1);
        let t2 = s.take(k);
        assert(t2.drop_last() =~= t);
        assert(t2.last() == c);
        lemma_tail_len(t);
        if c == '\n' {
            lemma_put_word_words(len, st);
            let st1 = put_word(len, st);
            let ls = st1.lines.push(st1.line);
            assert(ls.drop_last() =~= st1.lines);
            assert(words(Seq::<char>::empty()) =~= Seq::<Seq<char>>::empty());
            assert(state_words(wrap_run(s, len, k)) =~= state_words(st1));
        } else if white_space(c) {
            lemma_put_word_words(len, st);
        } else {
            let wl = st.word.len();
            let p = t.subrange(0, (k - 1) - wl);
            let w2 = st.word.push(c);
            lemma_wrap_run_word(s, len, k - 1);
            assert(st.word =~= t.subrange((k - 1) - wl, k - 1));
            assert(t2 =~= p + w2);
            assert(p.len() > 0 ==> white_space(p.last())) by {
                if p.len() > 0 {
                    assert(p.last() == t[(k - 1) - wl - 1]);
                }
            }
            assert forall|m: int| 0 <= m < w2.len() implies !white_space(#[trigger] w2[m]) by {
                if m < wl {
                    assert(w2[m] == st.word[m]);
                }
            }
            lemma_words_push(p, w2);
            lemma_tail_of_word(p, w2);
            if wl > 0 {
                assert(t =~= p + st.word);
                lemma_words_push(p, st.word);
                assert(state_words(st) =~= lines_words(st.lines) + words(st.line) + seq![st.word]);
                assert(words(t) =~= words(p).push(st.word));
                assert(lines_words(st.lines) + words(st.line) =~= state_words(st).drop_last());
                assert(words(p) =~= words(t).drop_last());
            } else {
                assert(p =~= t);
                assert(state_words(st) =~= lines_words(st.lines) + words(st.line));
            }
            assert(state_words(wrap_run(s, len, k)) =~= lines_words(st.lines) + words(st.line) + seq![w2]);
        }
    }
}

proof fn lemma_wrap_run_word(s: Seq<char>, len: nat, k: int)
    requires
        0 <= k <= s.len(),
    ensures
        wrap_run(s, len, k).word =~= s.subrange(k - wrap_run(s, len, k).word.len(), k),
        wrap_run(s, len, k).word.len() <= k,
    decreases k,
{
    if k > 0 {
        lemma_wrap_run_word(s, len, k - 1);
        let st = wrap_run(s, len, k - 1);
        let c = s[k - 1];
        if !white_space(c) && c != '\n' {
            let w = st.word.push(c);
            assert forall|j: int| 0 <= j < w.len() implies w[j] == s.subrange(k - w.len(), k)[j] by {
                if j < st.word.len() {
                    assert(w[j] == st.word[j]);
                    assert(st.word[j] == s.subrange(k - 1 - st.word.len(), k - 1)[j]);
                }
            }
        }
    }
}

/// Wrapping keeps the words of the text: the words of the lines, one line after another, are
/// the words of the text in order.
pub proof fn law_wrap_keeps_words(s: Seq<char>, len: nat)
    ensures
        lines_words(wrap_lines(s, len)) == words(s),
{
    lemma_wrap_words(s, len, s.len() as int);
    let st = wrap_run(s, len, s.len() as int);
    lemma_put_word_words(len, st);
    let p = put_word(len, st);
    let ls = p.lines.push(p.line);
    assert(ls.drop_last() =~= p.lines);
    assert(state_words(p) =~= lines_words(p.lines) + words(p.line));
    assert(s.take(s.len() as int) =~= s);
}

/// Wrapping a text whose words each fit within `len` gives lines of at most `len`
/// characters, with no line break or other whitespace in them but single spaces.
pub proof fn law_wrapped_lines_fit(s: Seq<char>, len: nat)
    requires
        words_fit(s, len),
    ensures
        forall|i: int| 0 <= i < wrap_lines(s, len).len() ==> line_ok(#[trigger] wrap_lines(s, len)[i], len),
{
    lemma_wrap_run(s, len, s.len() as int);
    let st = wrap_run(s, len, s.len() as int);
    lemma_put_word(len, st);
    let p = put_word(len, st);
    assert forall|i: int| 0 <= i < wrap_lines(s, len).len() implies line_ok(#[trigger] wrap_lines(s, len)[i], len) by {
        if i < p.lines.len() {
            assert(wrap_lines(s, len)[i] == p.lines[i]);
        }
    }
}

pub fn trim_chars(t: &Vec<char>, a: usize, b: usize) -> (r: Vec<char>)
    requires
        a <= b <= t.len(),
    ensures
        r@ == trim_text(t@.subrange(a as int, b as int)),
{
    let w = sub_chars(t, a, b);
    let ghost ws = w@;
    let mut i: usize = 0;
    while i < w.len() && is_white(w[i])
        invariant
            i <= w.len(),
            ws == w@,
            lead_end(ws, 0) == lead_end(ws, i as int),
        decreases w.len() - i,
    {
        i = i + 1;
    }
    let mut j: usize = w.len();
    while j > 0 && is_white(w[j - 1])
        invariant
            j <= w.len(),
            ws == w@,
            tail_end(ws, ws.len() as int) == tail_end(ws, j as int),
        decreases j,
    {
        j = j - 1;
    }
    if i < j {
        sub_chars(&w, i, j)
    } else {
        Vec::new()
    }
}

fn put_word_x(len: usize, lines: &mut Vec<Vec<char>>, line: &mut Vec<char>, word: &mut Vec<char>)
    ensures
        ({
            let r = put_word(len as nat, WrapState {
                lines: old(lines)@.map_values(|v: Vec<char>| v@), line: old(line)@, word: old(word)@ });
            &&& final(lines)@.map_values(|v: Vec<char>| v@) == r.lines
            &&& final(line)@ == r.line
            &&& final(word)@ == r.word
        }),
{
    let ghost l0 = lines@;
    if word.len() == 0 {
        return;
    }
    if line.len() == 0 {
        *line = crate::strs::clone_chars(word);
    } else if line.len() < len && word.len() <= len - line.len() - 1 {
        line.push(' ');
        let mut w = crate::strs::clone_chars(word);
        line.append(&mut w);
    } else {
        let done = crate::strs::clone_chars(line);
        lines.push(done);
        assert(lines@.map_values(|v: Vec<char>| v@) =~= l0.map_values(|v: Vec<char>| v@).push(done@));
        *line = crate::strs::clone_chars(word);
    }
    *word = Vec::new();
}

/// Wraps a text into lines of at most `len` characters (see [`wrap_lines`]).
pub fn word_wrap_text(s: &Vec<char>, len: usize) -> (r: Vec<Vec<char>>)
    ensures
        r@.map_values(|v: Vec<char>| v@) == wrap_lines(s@, len as nat),
{
    let mut lines: Vec<Vec<char>> = Vec::new();
    let mut line: Vec<char> = Vec::new();
    let mut word: Vec<char> = Vec::new();
    let mut k: usize = 0;
    assert(lines@.map_values(|v: Vec<char>| v@) =~= Seq::<Seq<char>>::empty());
    while k < s.len()
        invariant
            k <= s.len(),
            ({
                let st = wrap_run(s@, len as nat, k as int);
                &&& st.lines == lines@.map_values(|v: Vec<char>| v@)
                &&& st.line == line@
                &&& st.word == word@
            }),
        decreases s.len() - k,
    {
        let c = s[k];
        if c == '\n' {
            put_word_x(len, &mut lines, &mut line, &mut word);
            let ghost l1 = lines@;
            let done = crate::strs::clone_chars(&line);
            lines.push(done);
            assert(lines@.map_values(|v: Vec<char>| v@) =~= l1.map_values(|v: Vec<char>| v@).push(done@));
            line = Vec::new();
        } else if is_white(c) {
            put_word_x(len, &mut lines, &mut line, &mut word);
        } else {
            word.push(c);
        }
        k = k + 1;
    }
    put_word_x(len, &mut lines, &mut line, &mut word);
    let ghost l1 = lines@;
    lines.push(line);
    assert(lines@.map_values(|v: Vec<char>| v@) =~= l1.map_values(|v: Vec<char>| v@).push(line@));
    lines
}

/// `word_wrap`: the text of the first argument with its words filled into lines of at most
/// the second argument's width, the lines joined by line breaks.
pub open spec fn word_wrap_s(l: Seq<VData>) -> Result<VData, ()> {
    if l.len() < 2 {
        Err(())
    } else {
        match v_as_usize(l[1]) {
            Some(n) => Ok(VData::String(join_seqs(wrap_lines(v_display(l[0]), n as nat), seq!['\n']))),
            None => Err(()),
        }
    }
}

/// Adds line breaks to the text of the first argument so that no line exceeds the second
/// argument's width (a word longer than the width stands on a line of its own).
pub fn word_wrap(l: &[TData]) -> (r: Result<TData, Error>)
    ensures
        data_agrees(r, word_wrap_s(datas_v(l@))),
{
    proof { lemma_datas_v_len(l@); }
    if l.len() < 2 {
        return Err(ea_str("'word_wrap' requires string and wrap_length"));
    }
    proof {
        lemma_datas_v_index(l@, 0);
        lemma_datas_v_index(l@, 1);
    }
    let n = match l[1].as_usize() {
        Some(n) => n,
        None => { return Err(ea_str("'word_wrap' needs a length as usize")); },
    };
    let s = chars_of(l[0].to_string().as_str());
    let w = word_wrap_text(&s, n);
    let ghost ws = w@.map_values(|v: Vec<char>| v@);
    let mut out: Vec<char> = Vec::new();
    let mut i: usize = 0;
    while i < w.len()
        invariant
            i <= w.len(),
            ws == w@.map_values(|v: Vec<char>| v@),
            out@ == join_seqs(ws.take(i as int), seq!['\n']),
        decreases w.len() - i,
    {
        if i > 0 {
            out.push('\n');
        }
        let mut piece = crate::strs::clone_chars(&w[i]);
        out.append(&mut piece);
        assert(ws.take(i + 1).subrange(0, i as int) =~= ws.take(i as int));
        i = i + 1;
    }
    assert(ws.take(w.len() as int) =~= ws);
    Ok(TData::String(string_of(&out)))
}

} // verus!
