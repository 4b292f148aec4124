//! Building a template tree from the flat list of tags read from its text.
use vstd::prelude::*;
use crate::err::{ea_str, Error};
use crate::pipeline::{clone_pipe, clone_pipes, pipe_debug, push_pipe_debug, Pipeline, VPipe};
use crate::show::{push_quoted, quoted};
use crate::strs::{push_str, str_eq, string_from};
use crate::template::{clone_assigns, flats_v, items_v, lemma_items_v_push, Block, FlatItem, FlatTemplate, TreeItem, TreeTemplate, VFlat, VItem};

verus! {

/// Where a run of items stops: at the end of the list only, at `{{/name}}`, at `{{/if}}`, or at
/// `{{/for}}`.
pub enum Ender {
    Nothing,
    Name(Seq<char>),
    If,
    For,
}

/// Whether a flat item closes a run of items.
pub open spec fn closes(x: VFlat, e: Ender) -> bool {
    match e {
        Ender::Nothing => false,
        Ender::Name(n) => x == VFlat::EndBlock(n),
        Ender::If => x is EndIf,
        Ender::For => x is EndFor,
    }
}

/// The message for an `if` that is never closed.
pub open spec fn unclosed_if_msg() -> Seq<char> {
    "Expected '/if' 'else' or 'elif'"@
}

/// A closer, `else` or `elif` as its `Debug` form shows it in the message for one out of
/// place: `Else`, `Elif(` with its pipeline `)`, `EndIf`, `EndFor`, or `EndBlock(` with the
/// quoted name `)`.
pub open spec fn closer_label(x: VFlat) -> Seq<char> {
    match x {
        VFlat::Else => "Else"@,
        VFlat::Elif(p) => "Elif("@ + pipe_debug(p) + ")"@,
        VFlat::EndIf => "EndIf"@,
        VFlat::EndFor => "EndFor"@,
        VFlat::EndBlock(n) => "EndBlock("@ + quoted(n) + ")"@,
        _ => seq![],
    }
}

/// The message for a closer, `else` or `elif` out of place.
#[verifier::opaque]
pub open spec fn unexpected_msg(x: VFlat) -> Seq<char> {
    "Unexpected "@ + closer_label(x)
}

/// The items from position `i` on, up to (and past) the closer `e` or the end of the list, with
/// the position after them.
pub open spec fn block_s(f: Seq<VFlat>, i: int, e: Ender) -> Result<(Seq<VItem>, int), Seq<char>>
    decreases f.len() - i, 1nat,
{
    if i < 0 || i >= f.len() {
        Ok((seq![], i))
    } else if closes(f[i], e) {
        Ok((seq![], i + 1))
    } else {
        match item_s(f, i) {
            Err(m) => Err(m),
            Ok((it, j)) => if j <= i || j > f.len() {
                Err(seq![])
            } else {
                match block_s(f, j, e) {
                    Err(m) => Err(m),
                    Ok((rest, k)) => Ok((seq![it] + rest, k)),
                }
            },
        }
    }
}

/// The body of an `if` from position `i` on: the items up to `else`, `elif` or `/if`, what
/// follows the `else` (an `elif` starts a nested `if`), and the position after it all. An `if`
/// that is never closed is an error.
pub open spec fn if_body_s(f: Seq<VFlat>, i: int) -> Result<(Seq<VItem>, Option<Seq<VItem>>, int), Seq<char>>
    decreases f.len() - i, 1nat,
{
    if i < 0 || i >= f.len() {
        Err(unclosed_if_msg())
    } else {
        match f[i] {
            VFlat::Else => match block_s(f, i + 1, Ender::If) {
                Err(m) => Err(m),
                Ok((no, j)) => Ok((seq![], Some(no), j)),
            },
            VFlat::Elif(p) => match if_body_s(f, i + 1) {
                Err(m) => Err(m),
                Ok((y, n, j)) => Ok((seq![], Some(seq![VItem::If { cond: p, yes: y, no: n }]), j)),
            },
            VFlat::EndIf => Ok((seq![], None, i + 1)),
            _ => match item_s(f, i) {
                Err(m) => Err(m),
                Ok((it, j)) => if j <= i || j > f.len() {
                    Err(seq![])
                } else {
                    match if_body_s(f, j) {
                        Err(m) => Err(m),
                        Ok((ys, n, k)) => Ok((seq![it] + ys, n, k)),
                    }
                },
            },
        }
    }
}

/// The text `let`.
pub open spec fn let_name() -> Seq<char> {
    seq!['l', 'e', 't']
}

/// The text `export`.
pub open spec fn export_name() -> Seq<char> {
    seq!['e', 'x', 'p', 'o', 'r', 't']
}

/// The text `define`.
pub open spec fn define_name() -> Seq<char> {
    seq!['d', 'e', 'f', 'i', 'n', 'e']
}

/// The tree item that starts at position `i`, with the position after it. Openers take in what
/// they enclose; a closer, `else` or `elif` out of place is an error.
pub open spec fn item_s(f: Seq<VFlat>, i: int) -> Result<(VItem, int), Seq<char>>
    decreases f.len() - i, 0nat,
{
    if i < 0 || i >= f.len() {
        Err(seq![])
    } else {
        match f[i] {
            VFlat::String(s) => Ok((VItem::String(s), i + 1)),
            VFlat::Pipe(p) => Ok((VItem::Pipe(p), i + 1)),
            VFlat::Let(a) => Ok((VItem::Let(a), i + 1)),
            VFlat::Export(a) => Ok((VItem::Export(a), i + 1)),
            VFlat::Comment => Ok((VItem::Comment, i + 1)),
            VFlat::AtLet(n) => match block_s(f, i + 1, Ender::Name(let_name())) {
                Err(m) => Err(m),
                Ok((b, j)) => Ok((VItem::AtLet(n, b), j)),
            },
            VFlat::AtExport(n) => match block_s(f, i + 1, Ender::Name(export_name())) {
                Err(m) => Err(m),
                Ok((b, j)) => Ok((VItem::AtExport(n, b), j)),
            },
            VFlat::Define(n) => match block_s(f, i + 1, Ender::Name(define_name())) {
                Err(m) => Err(m),
                Ok((b, j)) => Ok((VItem::Define(n, b), j)),
            },
            VFlat::If(p) => match if_body_s(f, i + 1) {
                Err(m) => Err(m),
                Ok((y, n, j)) => Ok((VItem::If { cond: p, yes: y, no: n }, j)),
            },
            VFlat::For(k, v, p) => match block_s(f, i + 1, Ender::For) {
                Err(m) => Err(m),
                Ok((b, j)) => Ok((VItem::For { k, v, p, b }, j)),
            },
            VFlat::Block(c, ps) => match block_s(f, i + 1, Ender::Name(c)) {
                Err(m) => Err(m),
                Ok((b, j)) => Ok((VItem::Block { command: c, params: ps, block: b }, j)),
            },
            _ => Err(unexpected_msg(f[i])),
        }
    }
}

/// The model of an optional block.
pub open spec fn opt_items_v(o: Option<Block>) -> Option<Seq<VItem>> {
    match o {
        Some(b) => Some(items_v(b@)),
        None => None,
    }
}

/// How an exec run of items is told where to stop.
enum EndAt<'a> {
    Nothing,
    Name(&'a str),
    If,
    For,
}

spec fn ender_of(e: EndAt) -> Ender {
    match e {
        EndAt::Nothing => Ender::Nothing,
        EndAt::Name(n) => Ender::Name(n@),
        EndAt::If => Ender::If,
        EndAt::For => Ender::For,
    }
}

fn closes_exec(x: &FlatItem, e: &EndAt) -> (r: bool)
    ensures
        r == closes(x@, ender_of(*e)),
{
    match (e, x) {
        (EndAt::Name(n), FlatItem::EndBlock(m)) => str_eq(m.as_str(), n),
        (EndAt::If, FlatItem::EndIf) => true,
        (EndAt::For, FlatItem::EndFor) => true,
        _ => false,
    }
}

fn items_until(f: &[FlatItem], i0: usize, e: EndAt) -> (r: Result<(Block, usize), Error>)
    requires
        i0 <= f.len(),
    ensures
        match block_s(flats_v(f@), i0 as int, ender_of(e)) {
            Ok((b, j)) => r matches Ok((t, j2)) && items_v(t@) == b && j2 == j && i0 <= j2 <= f.len(),
            Err(m) => r matches Err(x) && x.msg() == m,
        },
    decreases f.len() - i0, 1nat,
{
    let ghost fs = flats_v(f@);
    let ghost tot = block_s(fs, i0 as int, ender_of(e));
    let mut res: Block = Vec::new();
    let mut i = i0;
    while i < f.len()
        invariant
            i0 <= i <= f.len(),
            fs == flats_v(f@),
            fs.len() == f.len(),
            tot == block_s(fs, i0 as int, ender_of(e)),
            tot is Ok <==> block_s(fs, i as int, ender_of(e)) is Ok,
            tot is Err ==> tot == block_s(fs, i as int, ender_of(e)),
            block_s(fs, i as int, ender_of(e)) is Ok ==> (
                tot->Ok_0.0 == items_v(res@) + block_s(fs, i as int, ender_of(e))->Ok_0.0
                && tot->Ok_0.1 == block_s(fs, i as int, ender_of(e))->Ok_0.1),
        decreases f.len() - i,
    {
        if closes_exec(&f[i], &e) {
            assert(tot->Ok_0.0 == items_v(res@) + Seq::<VItem>::empty());
            return Ok((res, i + 1));
        }
        match tt_basic(f, i) {
            Ok((t, j)) => {
                proof {
                    lemma_items_v_push(res@, t);
                    let nxt = block_s(fs, j as int, ender_of(e));
                    if nxt is Ok {
                        assert(items_v(res@) + (seq![t@] + nxt->Ok_0.0) == items_v(res@).push(t@) + nxt->Ok_0.0);
                    }
                }
                res.push(t);
                i = j;
            },
            Err(err) => {
                return Err(err);
            },
        }
    }
    assert(tot->Ok_0.0 == items_v(res@) + Seq::<VItem>::empty());
    Ok((res, i))
}

fn if_body(f: &[FlatItem], i0: usize) -> (r: Result<(Block, Option<Block>, usize), Error>)
    requires
        i0 <= f.len(),
    ensures
        match if_body_s(flats_v(f@), i0 as int) {
            Ok((y, n, j)) => r matches Ok((t, o, j2)) && items_v(t@) == y && opt_items_v(o) == n && j2 == j && i0 <= j2 <= f.len(),
            Err(m) => r matches Err(x) && x.msg() == m,
        },
    decreases f.len() - i0, 1nat,
{
    let ghost fs = flats_v(f@);
    let ghost tot = if_body_s(fs, i0 as int);
    let mut yes: Block = Vec::new();
    let mut i = i0;
    while i < f.len()
        invariant
            i0 <= i <= f.len(),
            fs == flats_v(f@),
            fs.len() == f.len(),
            tot == if_body_s(fs, i0 as int),
            tot is Ok <==> if_body_s(fs, i as int) is Ok,
            tot is Err ==> tot == if_body_s(fs, i as int),
            if_body_s(fs, i as int) is Ok ==> (
                tot->Ok_0.0 == items_v(yes@) + if_body_s(fs, i as int)->Ok_0.0
                && tot->Ok_0.1 == if_body_s(fs, i as int)->Ok_0.1
                && tot->Ok_0.2 == if_body_s(fs, i as int)->Ok_0.2),
        decreases f.len() - i,
    {
        match &f[i] {
            FlatItem::Else => {
                return match items_until(f, i + 1, EndAt::If) {
                    Ok((no, j)) => {
                        assert(tot->Ok_0.0 == items_v(yes@) + Seq::<VItem>::empty());
                        Ok((yes, Some(no), j))
                    },
                    Err(err) => Err(err),
                };
            },
            FlatItem::Elif(p) => {
                return match if_body(f, i + 1) {
                    Ok((y, n, j)) => {
                        let inner = TreeItem::If { cond: clone_pipe(p), yes: y, no: n };
                        let v: Block = vec![inner];
                        proof {
                            lemma_items_v_push(Seq::<TreeItem>::empty(), inner);
                            assert(v@ == Seq::<TreeItem>::empty().push(inner));
                            assert(tot->Ok_0.0 == items_v(yes@) + Seq::<VItem>::empty());
                        }
                        Ok((yes, Some(v), j))
                    },
                    Err(err) => Err(err),
                };
            },
            FlatItem::EndIf => {
                assert(tot->Ok_0.0 == items_v(yes@) + Seq::<VItem>::empty());
                return Ok((yes, None, i + 1));
            },
            _ => {},
        }
        match tt_basic(f, i) {
            Ok((t, j)) => {
                proof {
                    lemma_items_v_push(yes@, t);
                    let nxt = if_body_s(fs, j as int);
                    if nxt is Ok {
                        assert(items_v(yes@) + (seq![t@] + nxt->Ok_0.0) == items_v(yes@).push(t@) + nxt->Ok_0.0);
                    }
                }
                yes.push(t);
                i = j;
            },
            Err(err) => {
                return Err(err);
            },
        }
    }
    Err(ea_str("Expected '/if' 'else' or 'elif'"))
}

/// The error for a closer, `else` or `elif` out of place.
fn unexpected_error(x: &FlatItem) -> (e: Error)
    ensures
        e.msg() == unexpected_msg(x@),
{
    reveal(unexpected_msg);
    let label = match x {
        FlatItem::Else => string_from("Else"),
        FlatItem::Elif(p) => {
            let mut t = string_from("Elif(");
            push_pipe_debug(&mut t, p);
            push_str(&mut t, ")");
            t
        },
        FlatItem::EndIf => string_from("EndIf"),
        FlatItem::EndFor => string_from("EndFor"),
        FlatItem::EndBlock(n) => {
            let mut t = string_from("EndBlock(");
            push_quoted(&mut t, n.as_str());
            push_str(&mut t, ")");
            t
        },
        _ => String::new(),
    };
    let mut m = string_from("Unexpected ");
    push_str(&mut m, label.as_str());
    Error::String(m)
}

/// The tree item that starts at position `i` of a flat list, with the position after it: an
/// opener takes in what it encloses, and a closer, `else` or `elif` out of place is an error.
pub fn tt_basic(f: &[FlatItem], i: usize) -> (r: Result<(TreeItem, usize), Error>)
    requires
        i < f.len(),
    ensures
        match item_s(flats_v(f@), i as int) {
            Ok((it, j)) => r matches Ok((t, j2)) && t@ == it && j2 == j && i < j2 <= f.len(),
            Err(m) => r matches Err(x) && x.msg() == m,
        },
    decreases f.len() - i, 0nat,
{
    proof {
        reveal_strlit("let");
        reveal_strlit("export");
        reveal_strlit("define");
        assert(let_name() =~= "let"@);
        assert(export_name() =~= "export"@);
        assert(define_name() =~= "define"@);
    }
    match &f[i] {
        FlatItem::String(s) => Ok((TreeItem::String(string_from(s.as_str())), i + 1)),
        FlatItem::Pipe(p) => Ok((TreeItem::Pipe(clone_pipe(p)), i + 1)),
        FlatItem::Let(a) => Ok((TreeItem::Let(clone_assigns(a)), i + 1)),
        FlatItem::Export(a) => Ok((TreeItem::Export(clone_assigns(a)), i + 1)),
        FlatItem::Comment => Ok((TreeItem::Comment, i + 1)),
        FlatItem::AtLet(n) => match items_until(f, i + 1, EndAt::Name("let")) {
            Ok((b, j)) => Ok((TreeItem::AtLet(string_from(n.as_str()), b), j)),
            Err(e) => Err(e),
        },
        FlatItem::AtExport(n) => match items_until(f, i + 1, EndAt::Name("export")) {
            Ok((b, j)) => Ok((TreeItem::AtExport(string_from(n.as_str()), b), j)),
            Err(e) => Err(e),
        },
        FlatItem::Define(n) => match items_until(f, i + 1, EndAt::Name("define")) {
            Ok((b, j)) => Ok((TreeItem::Define(string_from(n.as_str()), b), j)),
            Err(e) => Err(e),
        },
        FlatItem::If(p) => match if_body(f, i + 1) {
            Ok((y, n, j)) => Ok((TreeItem::If { cond: clone_pipe(p), yes: y, no: n }, j)),
            Err(e) => Err(e),
        },
        FlatItem::For(k, v, p) => match items_until(f, i + 1, EndAt::For) {
            Ok((b, j)) => Ok((TreeItem::For { k: string_from(k.as_str()), v: string_from(v.as_str()), p: clone_pipe(p), b }, j)),
            Err(e) => Err(e),
        },
        FlatItem::Block(c, ps) => match items_until(f, i + 1, EndAt::Name(c.as_str())) {
            Ok((b, j)) => Ok((TreeItem::Block { command: string_from(c.as_str()), params: clone_pipes(ps), block: b }, j)),
            Err(e) => Err(e),
        },
        _ => Err(unexpected_error(&f[i])),
    }
}

/// The whole flat list as a tree.
pub fn tt_root_block(f: &[FlatItem]) -> (r: Result<TreeTemplate, Error>)
    ensures
        match block_s(flats_v(f@), 0, Ender::Nothing) {
            Ok((b, _)) => r matches Ok(t) && t@ == b,
            Err(m) => r matches Err(x) && x.msg() == m,
        },
{
    match items_until(f, 0, EndAt::Nothing) {
        Ok((b, _)) => Ok(TreeTemplate { v: b }),
        Err(e) => Err(e),
    }
}

/// The items from position `i` up to `{{/name}}` (or the end of the list), with the position
/// after the closer.
pub fn tt_name_block(name: &str, f: &[FlatItem], i: usize) -> (r: Result<(Block, usize), Error>)
    requires
        i <= f.len(),
    ensures
        match block_s(flats_v(f@), i as int, Ender::Name(name@)) {
            Ok((b, j)) => r matches Ok((t, j2)) && items_v(t@) == b && j2 == j,
            Err(m) => r matches Err(x) && x.msg() == m,
        },
{
    items_until(f, i, EndAt::Name(name))
}

/// The `if` item whose condition was read just before position `i`, with the position after
/// its `/if`.
pub fn tt_if_yes(cond: Pipeline, f: &[FlatItem], i: usize) -> (r: Result<(TreeItem, usize), Error>)
    requires
        i <= f.len(),
    ensures
        match if_body_s(flats_v(f@), i as int) {
            Ok((y, n, j)) => r matches Ok((t, j2)) && t@ == (VItem::If { cond: cond@, yes: y, no: n }) && j2 == j,
            Err(m) => r matches Err(x) && x.msg() == m,
        },
{
    match if_body(f, i) {
        Ok((yes, no, j)) => Ok((TreeItem::If { cond, yes, no }, j)),
        Err(e) => Err(e),
    }
}

/// The `else` part of an `if`, from position `i` up to `/if` (or the end of the list).
pub fn tt_else(f: &[FlatItem], i: usize) -> (r: Result<(Option<Block>, usize), Error>)
    requires
        i <= f.len(),
    ensures
        match block_s(flats_v(f@), i as int, Ender::If) {
            Ok((b, j)) => r matches Ok((Some(t), j2)) && items_v(t@) == b && j2 == j,
            Err(m) => r matches Err(x) && x.msg() == m,
        },
{
    match items_until(f, i, EndAt::If) {
        Ok((b, j)) => Ok((Some(b), j)),
        Err(e) => Err(e),
    }
}

/// The body of a `for`, from position `i` up to `/for` (or the end of the list).
pub fn tt_for(f: &[FlatItem], i: usize) -> (r: Result<(Block, usize), Error>)
    requires
        i <= f.len(),
    ensures
        match block_s(flats_v(f@), i as int, Ender::For) {
            Ok((b, j)) => r matches Ok((t, j2)) && items_v(t@) == b && j2 == j,
            Err(m) => r matches Err(x) && x.msg() == m,
        },
{
    items_until(f, i, EndAt::For)
}

impl FlatTemplate {
    /// The tree of the flat template.
    pub fn to_tree(self) -> (r: Result<TreeTemplate, Error>)
        ensures
            match block_s(self@, 0, Ender::Nothing) {
                Ok((b, _)) => r matches Ok(t) && t@ == b,
                Err(m) => r matches Err(x) && x.msg() == m,
            },
    {
        tt_root_block(self.v.as_slice())
    }
}

} // verus!
