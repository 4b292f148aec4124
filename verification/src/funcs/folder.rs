//! The computing part of the folder functions: keeping paths inside a folder, and the entry a
//! directory scan makes for a file. Reading the disk is left to the embedding program.
use vstd::prelude::*;
use crate::func_man::FuncManager;
use crate::funcs::path::{push_path, pushed_path};
use crate::grammar::file_s;
use crate::scope::{scope_new, MAX_DEPTH};
use crate::semantics::{front_items, items_free};
use crate::strs::string_from;
use crate::tdata::{dict_insert, dict_set, entries_v, lemma_entries_v_index, lemma_entries_v_len, TData, TMap, VData};
use crate::template::TreeTemplate;
use crate::tree::{block_s, Ender};

verus! {

/// Whether a path starts with another, component by component, as `Path::starts_with` says.
pub uninterp spec fn path_starts_with(p: Seq<char>, base: Seq<char>) -> bool;

/// `Path::starts_with`.
///
/// Claims of std: the answer is a function of the two paths alone.
#[verifier::external_body]
fn starts_with_path(p: &str, base: &str) -> (r: bool)
    ensures
        r == path_starts_with(p@, base@),
{
    std::path::Path::new(p).starts_with(base)
}

/// Whether `c` separates the components of a path.
pub open spec fn is_sep(c: char) -> bool {
    c == '/' || c == '\\'
}

/// Whether a `..` component starts at `i`.
pub open spec fn parent_step_at(s: Seq<char>, i: int) -> bool {
    0 <= i && i + 2 <= s.len() && s[i] == '.' && s[i + 1] == '.'
        && (i == 0 || is_sep(s[i - 1])) && (i + 2 == s.len() || is_sep(s[i + 2]))
}

/// Whether the path has a `..` component, which could lead out of a folder.
pub open spec fn has_parent_step(s: Seq<char>) -> bool {
    exists|i: int| parent_step_at(s, i)
}

/// Whether the characters of a path have a `..` component.
pub fn has_parent_step_x(s: &Vec<char>) -> (r: bool)
    ensures
        r == has_parent_step(s@),
{
    let mut i: usize = 0;
    while i < s.len()
        invariant
            i <= s.len(),
            forall|j: int| 0 <= j < i ==> !parent_step_at(s@, j),
        decreases s.len() - i,
    {
        if s.len() - i >= 2 && s[i] == '.' && s[i + 1] == '.'
            && (i == 0 || s[i - 1] == '/' || s[i - 1] == '\\')
            && (i + 2 == s.len() || s[i + 2] == '/' || s[i + 2] == '\\') {
            assert(parent_step_at(s@, i as int));
            return true;
        }
        i = i + 1;
    }
    assert forall|j: int| !parent_step_at(s@, j) by {
        if parent_step_at(s@, j) {
            assert(0 <= j < s@.len());
        }
    }
    false
}

/// `s` joined onto the folder `p`, where `s` has no `..` component and the result is still
/// inside the folder.
pub open spec fn safe_path_s(p: Seq<char>, s: Seq<char>) -> Option<Seq<char>> {
    if !has_parent_step(s) && path_starts_with(pushed_path(p, s), p) {
        Some(pushed_path(p, s))
    } else {
        None
    }
}

/// Joins `s` onto the folder `p`; `None` where the result could leave the folder (an absolute
/// `s`, or one with a `..` component). A path that is given back starts with the folder and
/// steps up nowhere.
pub fn safe_path(p: &str, s: &str) -> (r: Option<String>)
    ensures
        match safe_path_s(p@, s@) {
            Some(q) => r matches Some(x) && x@ == q,
            None => r is None,
        },
        r matches Some(x) ==> path_starts_with(x@, p@) && !has_parent_step(s@),
{
    if has_parent_step_x(&crate::strs::chars_of(s)) {
        return None;
    }
    let pres = push_path(p, s);
    if starts_with_path(pres.as_str(), p) {
        Some(pres)
    } else {
        None
    }
}

/// Whether a directory scan passes over an entry: its name starts with `_`.
pub fn scan_hides(name: &str) -> (r: bool)
    ensures
        r == (name@.len() > 0 && name@[0] == '_'),
{
    let v = crate::strs::chars_of(name);
    v.len() > 0 && v[0] == '_'
}

/// A map with entries put into it in order.
pub open spec fn dict_extend(m: Seq<(Seq<char>, VData)>, es: Seq<(Seq<char>, VData)>) -> Seq<(Seq<char>, VData)>
    decreases es.len(),
{
    if es.len() == 0 {
        m
    } else {
        dict_insert(dict_extend(m, es.drop_last()), es.last().0, es.last().1)
    }
}

/// The variables a text exports at its top, when it reads as a template; none otherwise.
pub open spec fn text_exports<FM: FuncManager>(fm: FM, text: Seq<char>) -> Seq<(Seq<char>, VData)> {
    match file_s(text, 0) {
        Some(f) => match block_s(f, 0, Ender::Nothing) {
            Ok((b, _)) => front_items(fm, b, scope_new(seq![], MAX_DEPTH as nat)).frames[0],
            Err(_) => seq![],
        },
        None => seq![],
    }
}

/// Whether the text, read as a template, asks no manager anything (a text that does not read
/// as a template exports nothing and asks nothing).
pub open spec fn text_free(text: Seq<char>) -> bool {
    match file_s(text, 0) {
        Some(f) => match block_s(f, 0, Ender::Nothing) {
            Ok((b, _)) => items_free(b),
            Err(_) => true,
        },
        None => true,
    }
}

/// The entry a directory scan makes for a file: `item_full_path`, `item_path` (its folder
/// relative to the scan) and `item_file`, then the variables its text exports.
pub open spec fn scan_entry_s<FM: FuncManager>(fm: FM, full: Seq<char>, short: Seq<char>, name: Seq<char>, text: Seq<char>) -> VData {
    let base = dict_insert(dict_insert(dict_insert(seq![], "item_full_path"@, VData::String(full)),
        "item_path"@, VData::String(short)), "item_file"@, VData::String(name));
    VData::Dict(dict_extend(base, text_exports(fm, text)))
}

/// The entry a directory scan makes for a file, from its full path, its folder relative to the
/// scan, its name and its text.
pub fn scan_entry<FM: FuncManager>(fm: &FM, full: &str, short: &str, name: &str, text: &str) -> (r: TData)
    ensures
        (fm.spec_checked() || text_free(text@)) ==> r@ == scan_entry_s(*fm, full@, short@, name@, text@),
{
    let mut d: TMap = Vec::new();
    assert(entries_v(d@) =~= Seq::<(Seq<char>, VData)>::empty());
    dict_set(&mut d, string_from("item_full_path"), TData::String(string_from(full)));
    dict_set(&mut d, string_from("item_path"), TData::String(string_from(short)));
    dict_set(&mut d, string_from("item_file"), TData::String(string_from(name)));
    let ghost base = entries_v(d@);
    let ex: TMap = match TreeTemplate::from_str(text) {
        Ok(tree) => tree.front_matter(fm),
        Err(_) => Vec::new(),
    };
    let ghost es = entries_v(ex@);
    assert((fm.spec_checked() || text_free(text@)) ==> es == text_exports(*fm, text@));
    proof {
        lemma_entries_v_len(ex@);
        assert(es.take(0) =~= Seq::<(Seq<char>, VData)>::empty());
    }
    let mut i: usize = 0;
    while i < ex.len()
        invariant
            i <= ex.len(),
            es == entries_v(ex@),
            es.len() == ex.len(),
            entries_v(d@) == dict_extend(base, es.take(i as int)),
        decreases ex.len() - i,
    {
        proof {
            lemma_entries_v_index(ex@, i as int);
            assert(es.take(i + 1).drop_last() =~= es.take(i as int));
        }
        dict_set(&mut d, ex[i].0.clone(), ex[i].1.clone());
        i = i + 1;
    }
    assert(es.take(es.len() as int) =~= es);
    TData::Dict(d)
}

} // verus!
