//! Templates: the flat list of tags read from text, and the tree built from it.
use vstd::prelude::*;
use crate::pipeline::{clone_pipe, clone_pipes, pipe_v, pipes_v, Pipeline, VPipe};

verus! {

/// One step of a variable path: a parameter or list index, or a name.
#[derive(Debug, PartialEq)]
pub enum VarPart {
    Num(usize),
    Id(String),
}

/// The model of a [`VarPart`].
pub enum VPart {
    Num(usize),
    Id(Seq<char>),
}

/// The model of a path step.
pub open spec fn part_v(p: VarPart) -> VPart {
    match p {
        VarPart::Num(n) => VPart::Num(n),
        VarPart::Id(s) => VPart::Id(s@),
    }
}

/// The model of a variable path.
pub open spec fn path_v(s: Seq<VarPart>) -> Seq<VPart> {
    s.map_values(|p: VarPart| part_v(p))
}

impl View for VarPart {
    type V = VPart;

    open spec fn view(&self) -> VPart {
        part_v(*self)
    }
}

impl VarPart {
    /// The name, when this step is a name.
    pub fn as_str(&self) -> (r: Option<&str>)
        ensures
            match self {
                VarPart::Num(_) => r is None,
                VarPart::Id(s) => r matches Some(t) && t@ == s@,
            },
    {
        match self {
            VarPart::Num(_) => None,
            VarPart::Id(s) => Some(s.as_str()),
        }
    }
}

impl Clone for VarPart {
    fn clone(&self) -> (r: Self)
        ensures
            r@ == self@,
    {
        match self {
            VarPart::Num(n) => VarPart::Num(*n),
            VarPart::Id(s) => VarPart::Id(s.clone()),
        }
    }
}

/// A copy of a variable path.
pub fn clone_path(v: &Vec<VarPart>) -> (r: Vec<VarPart>)
    ensures
        path_v(r@) == path_v(v@),
{
    let mut r: Vec<VarPart> = Vec::new();
    for i in 0..v.len()
        invariant
            r@.len() == i,
            forall|j: int| 0 <= j < i ==> part_v(#[trigger] r@[j]) == part_v(v@[j]),
    {
        let p = v[i].clone();
        r.push(p);
    }
    assert(path_v(r@) =~= path_v(v@));
    r
}

/// A sequence of tree items.
pub type Block = Vec<TreeItem>;

/// One node of a template tree.
#[derive(Debug, PartialEq)]
pub enum TreeItem {
    String(String),
    Comment,
    Pipe(Pipeline),
    Block { command: String, params: Vec<Pipeline>, block: Block },
    If { cond: Pipeline, yes: Block, no: Option<Block> },
    For { k: String, v: String, p: Pipeline, b: Block },
    Define(String, Block),
    Let(Vec<(String, Pipeline)>),
    Export(Vec<(String, Pipeline)>),
    AtLet(String, Block),
    AtExport(String, Block),
}

/// The model of a [`TreeItem`].
pub enum VItem {
    String(Seq<char>),
    Comment,
    Pipe(VPipe),
    Block { command: Seq<char>, params: Seq<VPipe>, block: Seq<VItem> },
    If { cond: VPipe, yes: Seq<VItem>, no: Option<Seq<VItem>> },
    For { k: Seq<char>, v: Seq<char>, p: VPipe, b: Seq<VItem> },
    Define(Seq<char>, Seq<VItem>),
    Let(Seq<(Seq<char>, VPipe)>),
    Export(Seq<(Seq<char>, VPipe)>),
    AtLet(Seq<char>, Seq<VItem>),
    AtExport(Seq<char>, Seq<VItem>),
}

/// The model of a list of assignments.
pub open spec fn assigns_v(s: Seq<(String, Pipeline)>) -> Seq<(Seq<char>, VPipe)>
    decreases s, 0nat,
{
    if s.len() == 0 {
        seq![]
    } else {
        assigns_v(s.subrange(0, s.len() - 1)).push((s[s.len() - 1].0@, pipe_v(s[s.len() - 1].1)))
    }
}

/// The model of a tree item.
pub open spec fn item_v(it: TreeItem) -> VItem
    decreases it, 1nat,
{
    match it {
        TreeItem::String(s) => VItem::String(s@),
        TreeItem::Comment => VItem::Comment,
        TreeItem::Pipe(p) => VItem::Pipe(pipe_v(p)),
        TreeItem::Block { command, params, block } => VItem::Block {
            command: command@,
            params: pipes_v(params@),
            block: items_v(block@),
        },
        TreeItem::If { cond, yes, no } => VItem::If {
            cond: pipe_v(cond),
            yes: items_v(yes@),
            no: match no {
                Some(n) => Some(items_v(n@)),
                None => None,
            },
        },
        TreeItem::For { k, v, p, b } => VItem::For { k: k@, v: v@, p: pipe_v(p), b: items_v(b@) },
        TreeItem::Define(n, b) => VItem::Define(n@, items_v(b@)),
        TreeItem::Let(v) => VItem::Let(assigns_v(v@)),
        TreeItem::Export(v) => VItem::Export(assigns_v(v@)),
        TreeItem::AtLet(n, b) => VItem::AtLet(n@, items_v(b@)),
        TreeItem::AtExport(n, b) => VItem::AtExport(n@, items_v(b@)),
    }
}

/// The models of a sequence of tree items.
pub open spec fn items_v(s: Seq<TreeItem>) -> Seq<VItem>
    decreases s, 0nat,
{
    if s.len() == 0 {
        seq![]
    } else {
        items_v(s.subrange(0, s.len() - 1)).push(item_v(s[s.len() - 1]))
    }
}

impl View for TreeItem {
    type V = VItem;

    open spec fn view(&self) -> VItem {
        item_v(*self)
    }
}

pub proof fn lemma_items_v_len(s: Seq<TreeItem>)
    ensures
        items_v(s).len() == s.len(),
    decreases s.len(),
{
    if s.len() > 0 {
        lemma_items_v_len(s.subrange(0, s.len() - 1));
    }
}

pub proof fn lemma_items_v_index(s: Seq<TreeItem>, i: int)
    requires
        0 <= i < s.len(),
    ensures
        items_v(s)[i] == item_v(s[i]),
    decreases s.len(),
{
    lemma_items_v_len(s.subrange(0, s.len() - 1));
    if i < s.len() - 1 {
        lemma_items_v_index(s.subrange(0, s.len() - 1), i);
    }
}

pub proof fn lemma_items_v_push(s: Seq<TreeItem>, it: TreeItem)
    ensures
        items_v(s.push(it)) == items_v(s).push(item_v(it)),
{
    assert(s.push(it).subrange(0, s.len() as int) == s);
}

pub proof fn lemma_assigns_v_len(s: Seq<(String, Pipeline)>)
    ensures
        assigns_v(s).len() == s.len(),
    decreases s.len(),
{
    if s.len() > 0 {
        lemma_assigns_v_len(s.subrange(0, s.len() - 1));
    }
}

pub proof fn lemma_assigns_v_index(s: Seq<(String, Pipeline)>, i: int)
    requires
        0 <= i < s.len(),
    ensures
        assigns_v(s)[i] == (s[i].0@, pipe_v(s[i].1)),
    decreases s.len(),
{
    lemma_assigns_v_len(s.subrange(0, s.len() - 1));
    if i < s.len() - 1 {
        lemma_assigns_v_index(s.subrange(0, s.len() - 1), i);
    }
}


/// The models of a sequence with an element in front.
pub proof fn lemma_assigns_v_cons(x: (String, Pipeline), s: Seq<(String, Pipeline)>)
    ensures
        assigns_v(seq![x] + s) == seq![(x.0@, pipe_v(x.1))] + assigns_v(s),
{
    let t = seq![x] + s;
    lemma_assigns_v_len(t);
    lemma_assigns_v_len(s);
    assert forall|i: int| 0 <= i < t.len() implies assigns_v(t)[i] == (seq![(x.0@, pipe_v(x.1))] + assigns_v(s))[i] by {
        lemma_assigns_v_index(t, i);
        if i > 0 {
            lemma_assigns_v_index(s, i - 1);
        }
    }
    assert(assigns_v(t) =~= seq![(x.0@, pipe_v(x.1))] + assigns_v(s));
}

/// A template as a tree of items.
#[derive(Debug, PartialEq)]
pub struct TreeTemplate {
    pub v: Vec<TreeItem>,
}

impl View for TreeTemplate {
    type V = Seq<VItem>;

    open spec fn view(&self) -> Seq<VItem> {
        items_v(self.v@)
    }
}

/// One tag or text run, as read from template text.
#[derive(Debug, PartialEq)]
pub enum FlatItem {
    String(String),
    Comment,
    Pipe(Pipeline),
    If(Pipeline),
    Else,
    Elif(Pipeline),
    For(String, String, Pipeline),
    AtLet(String),
    AtExport(String),
    Define(String),
    Let(Vec<(String, Pipeline)>),
    Export(Vec<(String, Pipeline)>),
    Block(String, Vec<Pipeline>),
    EndBlock(String),
    EndIf,
    EndFor,
}

/// The model of a [`FlatItem`].
pub enum VFlat {
    String(Seq<char>),
    Comment,
    Pipe(VPipe),
    If(VPipe),
    Else,
    Elif(VPipe),
    For(Seq<char>, Seq<char>, VPipe),
    AtLet(Seq<char>),
    AtExport(Seq<char>),
    Define(Seq<char>),
    Let(Seq<(Seq<char>, VPipe)>),
    Export(Seq<(Seq<char>, VPipe)>),
    Block(Seq<char>, Seq<VPipe>),
    EndBlock(Seq<char>),
    EndIf,
    EndFor,
}

/// The model of a flat item.
pub open spec fn flat_v(f: FlatItem) -> VFlat {
    match f {
        FlatItem::String(s) => VFlat::String(s@),
        FlatItem::Comment => VFlat::Comment,
        FlatItem::Pipe(p) => VFlat::Pipe(pipe_v(p)),
        FlatItem::If(p) => VFlat::If(pipe_v(p)),
        FlatItem::Else => VFlat::Else,
        FlatItem::Elif(p) => VFlat::Elif(pipe_v(p)),
        FlatItem::For(k, v, p) => VFlat::For(k@, v@, pipe_v(p)),
        FlatItem::AtLet(n) => VFlat::AtLet(n@),
        FlatItem::AtExport(n) => VFlat::AtExport(n@),
        FlatItem::Define(n) => VFlat::Define(n@),
        FlatItem::Let(v) => VFlat::Let(assigns_v(v@)),
        FlatItem::Export(v) => VFlat::Export(assigns_v(v@)),
        FlatItem::Block(c, ps) => VFlat::Block(c@, pipes_v(ps@)),
        FlatItem::EndBlock(n) => VFlat::EndBlock(n@),
        FlatItem::EndIf => VFlat::EndIf,
        FlatItem::EndFor => VFlat::EndFor,
    }
}

/// The models of a sequence of flat items.
pub open spec fn flats_v(s: Seq<FlatItem>) -> Seq<VFlat> {
    s.map_values(|f: FlatItem| flat_v(f))
}

impl View for FlatItem {
    type V = VFlat;

    open spec fn view(&self) -> VFlat {
        flat_v(*self)
    }
}

/// A template as the flat list of items read from its text.
#[derive(Debug, PartialEq)]
pub struct FlatTemplate {
    pub v: Vec<FlatItem>,
}

impl View for FlatTemplate {
    type V = Seq<VFlat>;

    open spec fn view(&self) -> Seq<VFlat> {
        flats_v(self.v@)
    }
}

/// A copy of a list of assignments.
pub fn clone_assigns(v: &Vec<(String, Pipeline)>) -> (r: Vec<(String, Pipeline)>)
    ensures
        assigns_v(r@) == assigns_v(v@),
    decreases v, 0nat,
{
    let mut r: Vec<(String, Pipeline)> = Vec::new();
    for i in 0..v.len()
        invariant
            assigns_v(r@) == assigns_v(v@.take(i as int)),
    {
        assert(decreases_to!(v => v@[i as int].1));
        let a = (v[i].0.clone(), clone_pipe(&v[i].1));
        proof {
            assert(r@.push(a).subrange(0, r@.len() as int) == r@);
            assert(v@.take(i + 1).subrange(0, i as int) == v@.take(i as int));
        }
        r.push(a);
    }
    assert(v@.take(v.len() as int) == v@);
    r
}

/// A copy of a block.
pub fn clone_block(v: &Block) -> (r: Block)
    ensures
        items_v(r@) == items_v(v@),
    decreases v, 0nat,
{
    let mut r: Block = Vec::new();
    for i in 0..v.len()
        invariant
            items_v(r@) == items_v(v@.take(i as int)),
    {
        assert(decreases_to!(v => v@[i as int]));
        let p = clone_item(&v[i]);
        proof {
            lemma_items_v_push(r@, p);
            lemma_items_v_push(v@.take(i as int), v@[i as int]);
            assert(v@.take(i + 1) == v@.take(i as int).push(v@[i as int]));
        }
        r.push(p);
    }
    assert(v@.take(v.len() as int) == v@);
    r
}

/// A copy of a tree item.
pub fn clone_item(it: &TreeItem) -> (r: TreeItem)
    ensures
        r@ == it@,
    decreases it, 1nat,
{
    match it {
        TreeItem::String(s) => TreeItem::String(s.clone()),
        TreeItem::Comment => TreeItem::Comment,
        TreeItem::Pipe(p) => TreeItem::Pipe(clone_pipe(p)),
        TreeItem::Block { command, params, block } => TreeItem::Block {
            command: command.clone(),
            params: clone_pipes(params),
            block: clone_block(block),
        },
        TreeItem::If { cond, yes, no } => {
            let no2 = match no {
                Some(n) => Some(clone_block(n)),
                None => None,
            };
            TreeItem::If { cond: clone_pipe(cond), yes: clone_block(yes), no: no2 }
        },
        TreeItem::For { k, v, p, b } => TreeItem::For {
            k: k.clone(),
            v: v.clone(),
            p: clone_pipe(p),
            b: clone_block(b),
        },
        TreeItem::Define(n, b) => TreeItem::Define(n.clone(), clone_block(b)),
        TreeItem::Let(v) => TreeItem::Let(clone_assigns(v)),
        TreeItem::Export(v) => TreeItem::Export(clone_assigns(v)),
        TreeItem::AtLet(n, b) => TreeItem::AtLet(n.clone(), clone_block(b)),
        TreeItem::AtExport(n, b) => TreeItem::AtExport(n.clone(), clone_block(b)),
    }
}

/// A copy of a template.
pub fn clone_template(t: &TreeTemplate) -> (r: TreeTemplate)
    ensures
        r@ == t@,
    decreases t, 2nat,
{
    TreeTemplate { v: clone_block(&t.v) }
}

impl Clone for TreeItem {
    fn clone(&self) -> (r: Self)
        ensures
            r@ == self@,
    {
        clone_item(self)
    }
}

impl Clone for TreeTemplate {
    fn clone(&self) -> (r: Self)
        ensures
            r@ == self@,
    {
        clone_template(self)
    }
}

} // verus!
