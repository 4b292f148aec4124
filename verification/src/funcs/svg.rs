//! Functions that write SVG attributes.
use vstd::prelude::*;
use crate::err::{ea_str, Error};
use crate::eval::data_agrees;
use crate::show::v_display;
use crate::strs::push_str;
use crate::tdata::{datas_v, lemma_datas_v_index, lemma_datas_v_len, TData, VData};

verus! {

/// The units argument at position `p`: its text, or nothing when it is missing.
pub open spec fn units(a: Seq<VData>, p: int) -> Seq<char> {
    if p < a.len() { v_display(a[p]) } else { seq![] }
}

/// An attribute `name="value units"`.
pub open spec fn attr(name: Seq<char>, v: VData, u: Seq<char>) -> Seq<char> {
    name + "=\""@ + v_display(v) + u + "\""@
}

/// `xy`: `x` and `y` attributes.
pub open spec fn xy_s(a: Seq<VData>) -> Result<VData, ()> {
    if a.len() < 2 {
        Err(())
    } else {
        Ok(VData::String(attr("x"@, a[0], units(a, 2)) + " "@ + attr("y"@, a[1], units(a, 2))))
    }
}

/// `xywh`: `x`, `y`, `width` and `height` attributes.
pub open spec fn xywh_s(a: Seq<VData>) -> Result<VData, ()> {
    if a.len() < 4 {
        Err(())
    } else {
        let u = units(a, 4);
        Ok(VData::String(attr("x"@, a[0], u) + " "@ + attr("y"@, a[1], u) + " "@ + attr("width"@, a[2], u)
            + " "@ + attr("height"@, a[3], u)))
    }
}

/// `cxyrr`: `cx`, `cy`, `rx` and `ry` attributes.
pub open spec fn cxyrr_s(a: Seq<VData>) -> Result<VData, ()> {
    if a.len() < 4 {
        Err(())
    } else {
        let u = units(a, 4);
        Ok(VData::String(attr("cx"@, a[0], u) + " "@ + attr("cy"@, a[1], u) + " "@ + attr("rx"@, a[2], u)
            + " "@ + attr("ry"@, a[3], u)))
    }
}

/// `xy12`: `x`, `y`, `x2` and `y2` attributes.
pub open spec fn xy12_s(a: Seq<VData>) -> Result<VData, ()> {
    if a.len() < 4 {
        Err(())
    } else {
        let u = units(a, 4);
        Ok(VData::String(attr("x"@, a[0], u) + " "@ + attr("y"@, a[1], u) + " "@ + attr("x2"@, a[2], u)
            + " "@ + attr("y2"@, a[3], u)))
    }
}

/// `fl_stk`: `fill`, `stroke` and `stroke-width` attributes.
pub open spec fn fl_stk_s(a: Seq<VData>) -> Result<VData, ()> {
    if a.len() < 3 {
        Err(())
    } else {
        Ok(VData::String(attr("fill"@, a[0], seq![]) + " "@ + attr("stroke"@, a[1], seq![]) + " "@
            + attr("stroke-width"@, a[2], units(a, 3))))
    }
}

/// `font`: a `font-size` attribute, and a `font-family` one when a name is given.
pub open spec fn font_s(a: Seq<VData>) -> Result<VData, ()> {
    if a.len() < 1 {
        Err(())
    } else {
        let ff = if a.len() > 1 { attr("font-family"@, a[1], seq![]) + " "@ } else { seq![] };
        Ok(VData::String(attr("font-size"@, a[0], units(a, 2)) + " "@ + ff))
    }
}

/// A character escaped for XML.
pub open spec fn xml_char(c: char) -> Seq<char> {
    if c == '&' { "&amp;"@ }
    else if c == '>' { "&gt;"@ }
    else if c == '<' { "&lt;"@ }
    else if c == '"' { "&quot;"@ }
    else if c == '\'' { "&apos;"@ }
    else { seq![c] }
}

/// A text escaped for XML.
pub open spec fn xml_text(t: Seq<char>) -> Seq<char>
    decreases t.len(),
{
    if t.len() == 0 { seq![] } else { xml_text(t.drop_last()) + xml_char(t.last()) }
}

/// `xml_esc`: the texts of all arguments, escaped for XML, one after another.
pub open spec fn xml_all(a: Seq<VData>) -> Seq<char>
    decreases a.len(),
{
    if a.len() == 0 { seq![] } else { xml_all(a.drop_last()) + xml_text(v_display(a.last())) }
}

fn units_x(a: &[TData], p: usize) -> (r: String)
    ensures
        r@ == units(datas_v(a@), p as int),
{
    proof { lemma_datas_v_len(a@); }
    if p < a.len() {
        proof { lemma_datas_v_index(a@, p as int); }
        a[p].to_string()
    } else {
        String::new()
    }
}

fn push_attr(out: &mut String, name: &str, v: &TData, u: &str)
    ensures
        final(out)@ == old(out)@ + attr(name@, v@, u@),
{
    push_str(out, name);
    push_str(out, "=\"");
    let t = v.to_string();
    push_str(out, t.as_str());
    push_str(out, u);
    push_str(out, "\"");
}

/// `x` and `y` attributes with optional units.
pub fn xy(a: &[TData]) -> (r: Result<TData, Error>)
    ensures
        data_agrees(r, xy_s(datas_v(a@))),
{
    proof { lemma_datas_v_len(a@); }
    if a.len() < 2 {
        return Err(ea_str("need x and y"));
    }
    proof { lemma_datas_v_index(a@, 0); lemma_datas_v_index(a@, 1); }
    let u = units_x(a, 2);
    let mut out = String::new();
    push_attr(&mut out, "x", &a[0], u.as_str());
    push_str(&mut out, " ");
    push_attr(&mut out, "y", &a[1], u.as_str());
    assert(out@ =~= attr("x"@, datas_v(a@)[0], units(datas_v(a@), 2)) + " "@ + attr("y"@, datas_v(a@)[1], units(datas_v(a@), 2)));
    Ok(TData::String(out))
}

/// Four attributes with optional units (`xywh`, `cxyrr`).
fn four(a: &[TData], n0: &str, n1: &str, n2: &str, n3: &str) -> (r: Result<TData, Error>)
    ensures
        a.len() < 4 ==> r is Err,
        a.len() >= 4 ==> (r matches Ok(x) && x@ == VData::String(attr(n0@, datas_v(a@)[0], units(datas_v(a@), 4)) + " "@
            + attr(n1@, datas_v(a@)[1], units(datas_v(a@), 4)) + " "@ + attr(n2@, datas_v(a@)[2], units(datas_v(a@), 4))
            + " "@ + attr(n3@, datas_v(a@)[3], units(datas_v(a@), 4)))),
{
    proof { lemma_datas_v_len(a@); }
    if a.len() < 4 {
        return Err(ea_str("need four values"));
    }
    proof { lemma_datas_v_index(a@, 0); lemma_datas_v_index(a@, 1); lemma_datas_v_index(a@, 2); lemma_datas_v_index(a@, 3); }
    let u = units_x(a, 4);
    let mut out = String::new();
    push_attr(&mut out, n0, &a[0], u.as_str());
    push_str(&mut out, " ");
    push_attr(&mut out, n1, &a[1], u.as_str());
    push_str(&mut out, " ");
    push_attr(&mut out, n2, &a[2], u.as_str());
    push_str(&mut out, " ");
    push_attr(&mut out, n3, &a[3], u.as_str());
    Ok(TData::String(out))
}

/// `x`, `y`, `width` and `height` attributes with optional units.
pub fn xywh(a: &[TData]) -> (r: Result<TData, Error>)
    ensures
        data_agrees(r, xywh_s(datas_v(a@))),
{
    proof { lemma_datas_v_len(a@); }
    four(a, "x", "y", "width", "height")
}

/// `cx`, `cy`, `rx` and `ry` attributes with optional units.
pub fn cxyrr(a: &[TData]) -> (r: Result<TData, Error>)
    ensures
        data_agrees(r, cxyrr_s(datas_v(a@))),
{
    proof { lemma_datas_v_len(a@); }
    four(a, "cx", "cy", "rx", "ry")
}

/// `x`, `y`, `x2` and `y2` attributes with optional units.
pub fn xy12(a: &[TData]) -> (r: Result<TData, Error>)
    ensures
        data_agrees(r, xy12_s(datas_v(a@))),
{
    proof { lemma_datas_v_len(a@); }
    if a.len() < 4 {
        return Err(ea_str("need x, y, x2 and y2"));
    }
    proof { lemma_datas_v_index(a@, 0); lemma_datas_v_index(a@, 1); lemma_datas_v_index(a@, 2); lemma_datas_v_index(a@, 3); }
    let u = units_x(a, 4);
    let mut out = String::new();
    push_attr(&mut out, "x", &a[0], u.as_str());
    push_str(&mut out, " ");
    push_attr(&mut out, "y", &a[1], u.as_str());
    push_str(&mut out, " ");
    push_attr(&mut out, "x2", &a[2], u.as_str());
    push_str(&mut out, " ");
    push_attr(&mut out, "y2", &a[3], u.as_str());
    Ok(TData::String(out))
}

/// `fill`, `stroke` and `stroke-width` attributes.
pub fn fl_stk(a: &[TData]) -> (r: Result<TData, Error>)
    ensures
        data_agrees(r, fl_stk_s(datas_v(a@))),
{
    proof { lemma_datas_v_len(a@); }
    if a.len() < 3 {
        return Err(ea_str("need fill, stroke and stroke-width"));
    }
    proof { lemma_datas_v_index(a@, 0); lemma_datas_v_index(a@, 1); lemma_datas_v_index(a@, 2); }
    let u = units_x(a, 3);
    let mut out = String::new();
    push_attr(&mut out, "fill", &a[0], "");
    push_str(&mut out, " ");
    push_attr(&mut out, "stroke", &a[1], "");
    push_str(&mut out, " ");
    push_attr(&mut out, "stroke-width", &a[2], u.as_str());
    proof { reveal_strlit(""); }
    Ok(TData::String(out))
}

/// A `font-size` attribute, with a `font-family` one when a name is given.
pub fn font(a: &[TData]) -> (r: Result<TData, Error>)
    ensures
        data_agrees(r, font_s(datas_v(a@))),
{
    proof { lemma_datas_v_len(a@); }
    if a.len() < 1 {
        return Err(ea_str("Font Size not supplied"));
    }
    proof {
        lemma_datas_v_index(a@, 0);
        reveal_strlit("");
        assert(""@ =~= Seq::<char>::empty());
    }
    let u = units_x(a, 2);
    let mut out = String::new();
    push_attr(&mut out, "font-size", &a[0], u.as_str());
    push_str(&mut out, " ");
    let ghost base = out@;
    if a.len() > 1 {
        proof { lemma_datas_v_index(a@, 1); }
        push_attr(&mut out, "font-family", &a[1], "");
        push_str(&mut out, " ");
        assert(out@ =~= base + (attr("font-family"@, datas_v(a@)[1], seq![]) + " "@));
    } else {
        assert(out@ =~= base + Seq::<char>::empty());
    }
    Ok(TData::String(out))
}

fn xml_push(out: &mut String, c: char)
    ensures
        final(out)@ == old(out)@ + xml_char(c),
{
    if c == '&' { push_str(out, "&amp;"); }
    else if c == '>' { push_str(out, "&gt;"); }
    else if c == '<' { push_str(out, "&lt;"); }
    else if c == '"' { push_str(out, "&quot;"); }
    else if c == '\'' { push_str(out, "&apos;"); }
    else { crate::strs::push_char(out, c); }
}

/// The texts of all arguments, escaped for XML, one after another.
pub fn xml_esc(args: &[TData]) -> (r: Result<TData, Error>)
    ensures
        r matches Ok(x) && x@ == VData::String(xml_all(datas_v(args@))),
{
    let ghost ls = datas_v(args@);
    proof { lemma_datas_v_len(args@); }
    let mut out = String::new();
    let mut i: usize = 0;
    while i < args.len()
        invariant
            i <= args.len(),
            ls == datas_v(args@),
            ls.len() == args.len(),
            out@ == xml_all(ls.take(i as int)),
        decreases args.len() - i,
    {
        proof {
            lemma_datas_v_index(args@, i as int);
            assert(ls.take(i + 1).drop_last() == ls.take(i as int));
        }
        let t = crate::strs::chars_of(args[i].to_string().as_str());
        let ghost o0 = out@;
        let mut k: usize = 0;
        while k < t.len()
            invariant
                k <= t.len(),
                out@ == o0 + xml_text(t@.take(k as int)),
            decreases t.len() - k,
        {
            assert(t@.take(k + 1).drop_last() == t@.take(k as int));
            xml_push(&mut out, t[k]);
            k = k + 1;
        }
        assert(t@.take(t.len() as int) == t@);
        i = i + 1;
    }
    assert(ls.take(ls.len() as int) == ls);
    Ok(TData::String(out))
}

} // verus!
