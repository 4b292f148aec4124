//! Pipelines: the expressions inside template tags.
use vstd::prelude::*;
use crate::tdata::{clone_data, data_v, TData, VData};
use crate::template::{clone_path, path_v, VPart, VarPart};
use crate::show::{push_debug, push_quoted, quoted, v_debug};
use crate::strs::{nat_text, push_str, usize_text};

verus! {

/// A literal, a variable path, or a command applied to argument pipelines.
#[derive(Debug, PartialEq)]
pub enum Pipeline {
    Lit(TData),
    Var(Vec<VarPart>),
    Command(String, Vec<Pipeline>),
}

/// The model of a [`Pipeline`].
pub enum VPipe {
    Lit(VData),
    Var(Seq<VPart>),
    Command(Seq<char>, Seq<VPipe>),
}

/// The model of a pipeline.
pub open spec fn pipe_v(p: Pipeline) -> VPipe
    decreases p, 1nat,
{
    match p {
        Pipeline::Lit(d) => VPipe::Lit(data_v(d)),
        Pipeline::Var(v) => VPipe::Var(path_v(v@)),
        Pipeline::Command(c, args) => VPipe::Command(c@, pipes_v(args@)),
    }
}

/// The models of a sequence of pipelines.
pub open spec fn pipes_v(s: Seq<Pipeline>) -> Seq<VPipe>
    decreases s, 0nat,
{
    if s.len() == 0 {
        seq![]
    } else {
        pipes_v(s.subrange(0, s.len() - 1)).push(pipe_v(s[s.len() - 1]))
    }
}

impl View for Pipeline {
    type V = VPipe;

    open spec fn view(&self) -> VPipe {
        pipe_v(*self)
    }
}

pub proof fn lemma_pipes_v_len(s: Seq<Pipeline>)
    ensures
        pipes_v(s).len() == s.len(),
    decreases s.len(),
{
    if s.len() > 0 {
        lemma_pipes_v_len(s.subrange(0, s.len() - 1));
    }
}

pub proof fn lemma_pipes_v_index(s: Seq<Pipeline>, i: int)
    requires
        0 <= i < s.len(),
    ensures
        pipes_v(s)[i] == pipe_v(s[i]),
    decreases s.len(),
{
    lemma_pipes_v_len(s.subrange(0, s.len() - 1));
    if i < s.len() - 1 {
        lemma_pipes_v_index(s.subrange(0, s.len() - 1), i);
    }
}


/// The models of a sequence with an element in front.
pub proof fn lemma_pipes_v_cons(x: Pipeline, s: Seq<Pipeline>)
    ensures
        pipes_v(seq![x] + s) == seq![pipe_v(x)] + pipes_v(s),
{
    let t = seq![x] + s;
    lemma_pipes_v_len(t);
    lemma_pipes_v_len(s);
    assert forall|i: int| 0 <= i < t.len() implies pipes_v(t)[i] == (seq![pipe_v(x)] + pipes_v(s))[i] by {
        lemma_pipes_v_index(t, i);
        if i > 0 {
            lemma_pipes_v_index(s, i - 1);
        }
    }
    assert(pipes_v(t) =~= seq![pipe_v(x)] + pipes_v(s));
}

pub proof fn lemma_pipes_v_push(s: Seq<Pipeline>, p: Pipeline)
    ensures
        pipes_v(s.push(p)) == pipes_v(s).push(pipe_v(p)),
{
    assert(s.push(p).subrange(0, s.len() as int) == s);
}

/// A copy of a list of pipelines.
pub fn clone_pipes(v: &Vec<Pipeline>) -> (r: Vec<Pipeline>)
    ensures
        pipes_v(r@) == pipes_v(v@),
    decreases v, 0nat,
{
    let mut r: Vec<Pipeline> = Vec::new();
    for i in 0..v.len()
        invariant
            pipes_v(r@) == pipes_v(v@.take(i as int)),
    {
        assert(decreases_to!(v => v@[i as int]));
        let p = clone_pipe(&v[i]);
        proof {
            lemma_pipes_v_push(r@, p);
            lemma_pipes_v_push(v@.take(i as int), v@[i as int]);
            assert(v@.take(i + 1) == v@.take(i as int).push(v@[i as int]));
        }
        r.push(p);
    }
    assert(v@.take(v.len() as int) == v@);
    r
}

/// A copy of a pipeline.
pub fn clone_pipe(p: &Pipeline) -> (r: Pipeline)
    ensures
        r@ == p@,
    decreases p, 1nat,
{
    match p {
        Pipeline::Lit(d) => Pipeline::Lit(clone_data(d)),
        Pipeline::Var(v) => Pipeline::Var(clone_path(v)),
        Pipeline::Command(c, args) => Pipeline::Command(c.clone(), clone_pipes(args)),
    }
}

impl Clone for Pipeline {
    fn clone(&self) -> (r: Self)
        ensures
            r@ == self@,
    {
        clone_pipe(self)
    }
}

/// The `Debug` text of a part of a variable path: `Num(0)` or `Id("name")`.
pub open spec fn part_debug(p: VPart) -> Seq<char> {
    match p {
        VPart::Num(n) => "Num("@ + nat_text(n as nat) + ")"@,
        VPart::Id(s) => "Id("@ + quoted(s) + ")"@,
    }
}

/// The `Debug` texts of path parts, separated by `, `.
pub open spec fn parts_debug(s: Seq<VPart>) -> Seq<char>
    decreases s.len(),
{
    if s.len() == 0 {
        seq![]
    } else if s.len() == 1 {
        part_debug(s[0])
    } else {
        parts_debug(s.subrange(0, s.len() - 1)) + ", "@ + part_debug(s[s.len() - 1])
    }
}

/// The `Debug` text of a pipeline, such as `Command("add", [Lit(UInt(1)), Var([Id("x")])])`.
pub open spec fn pipe_debug(p: VPipe) -> Seq<char>
    decreases p, 0nat,
{
    match p {
        VPipe::Lit(d) => "Lit("@ + v_debug(d) + ")"@,
        VPipe::Var(ps) => "Var(["@ + parts_debug(ps) + "])"@,
        VPipe::Command(c, args) => "Command("@ + quoted(c) + ", ["@ + pipes_debug(args) + "])"@,
    }
}

/// The `Debug` texts of pipelines, separated by `, `.
pub open spec fn pipes_debug(s: Seq<VPipe>) -> Seq<char>
    decreases s, 1nat,
{
    if s.len() == 0 {
        seq![]
    } else if s.len() == 1 {
        pipe_debug(s[0])
    } else {
        pipes_debug(s.subrange(0, s.len() - 1)) + ", "@ + pipe_debug(s[s.len() - 1])
    }
}

fn push_part_debug(out: &mut String, p: &VarPart)
    ensures
        final(out)@ == old(out)@ + part_debug(p@),
{
    match p {
        VarPart::Num(n) => {
            push_str(out, "Num(");
            let t = usize_text(*n);
            push_str(out, t.as_str());
            push_str(out, ")");
        },
        VarPart::Id(x) => {
            push_str(out, "Id(");
            push_quoted(out, x.as_str());
            push_str(out, ")");
        },
    }
}

fn push_parts_debug(out: &mut String, v: &Vec<VarPart>)
    ensures
        final(out)@ == old(out)@ + parts_debug(path_v(v@)),
{
    let ghost start = out@;
    let ghost ps = path_v(v@);
    for i in 0..v.len()
        invariant
            ps == path_v(v@),
            ps.len() == v@.len(),
            out@ == start + parts_debug(ps.take(i as int)),
    {
        let ghost pre = ps.take(i + 1);
        assert(pre.subrange(0, i as int) == ps.take(i as int));
        assert(pre[i as int] == v@[i as int]@);
        if i > 0 {
            push_str(out, ", ");
        }
        push_part_debug(out, &v[i]);
    }
    assert(ps.take(v@.len() as int) == ps);
}

/// Appends the `Debug` text of a pipeline.
pub fn push_pipe_debug(out: &mut String, p: &Pipeline)
    ensures
        final(out)@ == old(out)@ + pipe_debug(p@),
    decreases p, 2nat,
{
    match p {
        Pipeline::Lit(d) => {
            push_str(out, "Lit(");
            push_debug(out, d);
            push_str(out, ")");
        },
        Pipeline::Var(v) => {
            push_str(out, "Var([");
            push_parts_debug(out, v);
            push_str(out, "])");
        },
        Pipeline::Command(c, args) => {
            push_str(out, "Command(");
            push_quoted(out, c.as_str());
            push_str(out, ", [");
            push_pipes_debug(out, args);
            push_str(out, "])");
        },
    }
}

fn push_pipes_debug(out: &mut String, v: &Vec<Pipeline>)
    ensures
        final(out)@ == old(out)@ + pipes_debug(pipes_v(v@)),
    decreases v, 1nat,
{
    let ghost start = out@;
    let ghost ps = pipes_v(v@);
    proof { lemma_pipes_v_len(v@); }
    for i in 0..v.len()
        invariant
            ps == pipes_v(v@),
            ps.len() == v@.len(),
            out@ == start + pipes_debug(ps.take(i as int)),
    {
        proof { lemma_pipes_v_index(v@, i as int); }
        let ghost pre = ps.take(i + 1);
        assert(pre.subrange(0, i as int) == ps.take(i as int));
        assert(pre[i as int] == v@[i as int]@);
        if i > 0 {
            push_str(out, ", ");
        }
        assert(decreases_to!(v => v@[i as int]));
        push_pipe_debug(out, &v[i]);
    }
    assert(ps.take(v@.len() as int) == ps);
}

} // verus!
