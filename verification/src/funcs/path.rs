//! Functions on file paths. The path arithmetic itself is std's; what is built from it here is
//! verified against names for std's results.
use vstd::prelude::*;
use crate::err::{ea_str, Error};
use crate::eval::data_agrees;
use crate::show::v_display;
use crate::strs::{chars_of, join_seqs, push_str};
use crate::tdata::{data_v, datas_v, lemma_datas_v_index, lemma_datas_v_len, lemma_datas_v_map, TData, VData};

verus! {

/// The text of `base` with `part` pushed onto it, as `PathBuf::push` makes it.
pub uninterp spec fn pushed_path(base: Seq<char>, part: Seq<char>) -> Seq<char>;

/// The parent of a path, as `Path::parent` gives it.
pub uninterp spec fn parent_path(p: Seq<char>) -> Option<Seq<char>>;

/// The final component of a path, as `Path::file_name` gives it.
pub uninterp spec fn path_file_name(p: Seq<char>) -> Option<Seq<char>>;

/// The final component of a path without its extension, as `Path::file_stem` gives it.
pub uninterp spec fn path_file_stem(p: Seq<char>) -> Option<Seq<char>>;

/// A path with its extension replaced, as `Path::with_extension` makes it.
pub uninterp spec fn path_with_extension(p: Seq<char>, ext: Seq<char>) -> Seq<char>;

/// A path with its final component replaced, as `Path::with_file_name` makes it.
pub uninterp spec fn path_with_file_name(p: Seq<char>, name: Seq<char>) -> Seq<char>;

/// `PathBuf::push` (what `Path::join` does too).
///
/// Claims of std: the resulting path is a function of the two paths alone. A path made from a
/// `str` is valid UTF-8, so its display gives its text back unchanged.
#[verifier::external_body]
pub(crate) fn push_path(base: &str, part: &str) -> (r: String)
    ensures
        r@ == pushed_path(base@, part@),
{
    let mut p = std::path::PathBuf::from(base);
    p.push(part);
    p.display().to_string()
}

/// `Path::parent`.
///
/// Claims of std: the parent, and whether there is one, are a function of the path alone.
#[verifier::external_body]
fn parent_of(p: &str) -> (r: Option<String>)
    ensures
        match parent_path(p@) {
            Some(q) => r matches Some(s) && s@ == q,
            None => r is None,
        },
{
    match std::path::Path::new(p).parent() {
        Some(q) => Some(q.display().to_string()),
        None => None,
    }
}

/// `Path::file_name`.
///
/// Claims of std: the file name, and whether there is one, are a function of the path alone.
#[verifier::external_body]
fn file_name_of(p: &str) -> (r: Option<String>)
    ensures
        match path_file_name(p@) {
            Some(q) => r matches Some(s) && s@ == q,
            None => r is None,
        },
{
    match std::path::Path::new(p).file_name() {
        Some(n) => Some(n.to_string_lossy().to_string()),
        None => None,
    }
}

/// `Path::file_stem`.
///
/// Claims of std: the stem, and whether there is one, are a function of the path alone.
#[verifier::external_body]
fn file_stem_of(p: &str) -> (r: Option<String>)
    ensures
        match path_file_stem(p@) {
            Some(q) => r matches Some(s) && s@ == q,
            None => r is None,
        },
{
    match std::path::Path::new(p).file_stem() {
        Some(n) => Some(n.to_string_lossy().to_string()),
        None => None,
    }
}

/// `Path::with_extension`.
///
/// Claims of std: the new path is a function of the path and the extension alone.
/// std panics on an extension that holds a path separator, so such an extension is left out.
#[verifier::external_body]
fn with_extension_of(p: &str, ext: &str) -> (r: String)
    requires
        !has_separator(ext@),
    ensures
        r@ == path_with_extension(p@, ext@),
{
    std::path::Path::new(p).with_extension(ext).display().to_string()
}

/// `Path::with_file_name`.
///
/// Claims of std: the new path is a function of the path and the name alone.
#[verifier::external_body]
fn with_file_name_of(p: &str, name: &str) -> (r: String)
    ensures
        r@ == path_with_file_name(p@, name@),
{
    std::path::Path::new(p).with_file_name(name).display().to_string()
}

/// The path made by pushing the displayed text of each value in turn onto an empty path.
pub open spec fn joined_path(l: Seq<VData>) -> Seq<char>
    decreases l.len(),
{
    if l.len() == 0 {
        seq![]
    } else {
        pushed_path(joined_path(l.drop_last()), v_display(l.last()))
    }
}

/// Pushes the displayed text of each argument in turn onto an empty path.
fn join_args(args: &[TData]) -> (r: String)
    ensures
        r@ == joined_path(datas_v(args@)),
{
    proof { lemma_datas_v_len(args@); }
    let mut p = String::new();
    let mut i: usize = 0;
    while i < args.len()
        invariant
            i <= args.len(),
            datas_v(args@).len() == args@.len(),
            p@ == joined_path(datas_v(args@).take(i as int)),
        decreases args.len() - i,
    {
        proof { lemma_datas_v_index(args@, i as int); }
        let t = args[i].to_string();
        p = push_path(p.as_str(), t.as_str());
        assert(datas_v(args@).take(i + 1).drop_last() == datas_v(args@).take(i as int));
        i = i + 1;
    }
    assert(datas_v(args@).take(args@.len() as int) == datas_v(args@));
    p
}

/// `parent`: the parent of the joined path, or the empty text where it has none.
pub open spec fn parent_s(a: Seq<VData>) -> VData {
    match parent_path(joined_path(a)) {
        Some(q) => VData::String(q),
        None => VData::String(seq![]),
    }
}

/// The parent of the path the arguments join to; the empty text where it has none.
pub fn parent(args: &[TData]) -> (r: Result<TData, Error>)
    ensures
        r matches Ok(d) && d@ == parent_s(datas_v(args@)),
{
    let p = join_args(args);
    match parent_of(p.as_str()) {
        Some(q) => Ok(TData::String(q)),
        None => Ok(TData::String(String::new())),
    }
}

/// The path the arguments join to.
pub fn join(args: &[TData]) -> (r: Result<TData, Error>)
    ensures
        r matches Ok(d) && d@ == VData::String(joined_path(datas_v(args@))),
{
    Ok(TData::String(join_args(args)))
}

/// `join_with`: the displayed texts of a list's items, with a separator between them.
pub open spec fn join_with_s(a: Seq<VData>) -> Result<VData, ()> {
    if a.len() < 2 {
        Err(())
    } else {
        match a[1] {
            VData::List(l) => Ok(VData::String(join_seqs(l.map_values(|d: VData| v_display(d)), v_display(a[0])))),
            _ => Err(()),
        }
    }
}

/// The displayed texts of the second argument's items, with the first argument's text between
/// them.
pub fn join_with(args: &[TData]) -> (r: Result<TData, Error>)
    ensures
        data_agrees(r, join_with_s(datas_v(args@))),
{
    proof { lemma_datas_v_len(args@); }
    if args.len() < 2 {
        return Err(ea_str("Expect first arg to be string, second to be list of string"));
    }
    proof {
        lemma_datas_v_index(args@, 0);
        lemma_datas_v_index(args@, 1);
    }
    let sep = args[0].to_string();
    match &args[1] {
        TData::List(l) => {
            let ghost ls = datas_v(l@).map_values(|d: VData| v_display(d));
            proof { lemma_datas_v_len(l@); }
            let mut out = String::new();
            let mut i: usize = 0;
            while i < l.len()
                invariant
                    i <= l.len(),
                    datas_v(l@).len() == l@.len(),
                    ls == datas_v(l@).map_values(|d: VData| v_display(d)),
                    out@ == join_seqs(ls.take(i as int), sep@),
                decreases l.len() - i,
            {
                proof { lemma_datas_v_index(l@, i as int); }
                if i > 0 {
                    push_str(&mut out, sep.as_str());
                }
                let t = l[i].to_string();
                push_str(&mut out, t.as_str());
                assert(ls.take(i + 1).drop_last() == ls.take(i as int));
                i = i + 1;
            }
            assert(ls.take(l@.len() as int) == ls);
            Ok(TData::String(out))
        },
        _ => Err(ea_str("Second arg not a list")),
    }
}

/// A path followed by its parent, that parent's parent and so on, following at most `n`
/// parents.
pub open spec fn ancestry(p: Seq<char>, n: nat) -> Seq<Seq<char>>
    decreases n,
{
    if n == 0 {
        seq![p]
    } else {
        match parent_path(p) {
            Some(q) => seq![p] + ancestry(q, (n - 1) as nat),
            None => seq![p],
        }
    }
}

/// `bread_crumbs`: each ancestor of the joined path, outermost first, then the path itself.
/// Each parent is shorter than its child, so following as many parents as the path has
/// characters reaches them all.
pub open spec fn bread_crumbs_s(a: Seq<VData>) -> VData {
    let p = joined_path(a);
    VData::List(ancestry(p, p.len()).reverse().map_values(|t: Seq<char>| VData::String(t)))
}

/// Each ancestor of the path the arguments join to, outermost first, then the path itself.
pub fn bread_crumbs(args: &[TData]) -> (r: Result<TData, Error>)
    ensures
        r matches Ok(d) && d@ == bread_crumbs_s(datas_v(args@)),
{
    let p = join_args(args);
    let ghost p0 = p@;
    let mut k: usize = chars_of(p.as_str()).len();
    let mut chain: Vec<String> = Vec::new();
    chain.push(p.clone());
    let mut cur = p;
    loop
        invariant
            chain@.len() >= 1,
            chain@.last()@ == cur@,
            ancestry(p0, p0.len()) == chain@.map_values(|s: String| s@).drop_last() + ancestry(cur@, k as nat),
        ensures
            ancestry(p0, p0.len()) == chain@.map_values(|s: String| s@),
        decreases k,
    {
        let ghost cv = chain@.map_values(|s: String| s@);
        if k == 0 {
            assert(cv =~= cv.drop_last() + seq![cur@]);
            break;
        }
        match parent_of(cur.as_str()) {
            Some(q) => {
                chain.push(q.clone());
                assert(chain@.map_values(|s: String| s@).drop_last() =~= cv.drop_last() + seq![cur@]);
                cur = q;
                k = k - 1;
            },
            None => {
                assert(cv =~= cv.drop_last() + seq![cur@]);
                break;
            },
        }
    }
    let ghost cv = chain@.map_values(|s: String| s@);
    let mut out: Vec<TData> = Vec::new();
    let mut i: usize = chain.len();
    while i > 0
        invariant
            i <= chain@.len(),
            cv == chain@.map_values(|s: String| s@),
            out@.len() == cv.len() - i,
            forall|j: int| 0 <= j < out@.len() ==> #[trigger] data_v(out@[j]) == VData::String(cv.reverse()[j]),
        decreases i,
    {
        i = i - 1;
        out.push(TData::String(chain[i].clone()));
    }
    proof {
        lemma_datas_v_map(out@);
        assert(datas_v(out@) =~= cv.reverse().map_values(|t: Seq<char>| VData::String(t)));
    }
    Ok(TData::List(out))
}

/// `base_name`: the final component of the joined path.
pub open spec fn base_name_s(a: Seq<VData>) -> Result<VData, ()> {
    match path_file_name(joined_path(a)) {
        Some(n) => Ok(VData::String(n)),
        None => Err(()),
    }
}

/// The final component of the path the arguments join to; an error where there is none.
pub fn base_name(args: &[TData]) -> (r: Result<TData, Error>)
    ensures
        data_agrees(r, base_name_s(datas_v(args@))),
{
    let p = join_args(args);
    match file_name_of(p.as_str()) {
        Some(n) => Ok(TData::String(n)),
        None => Err(ea_str("Could not get file base_name")),
    }
}

/// `base_name_sure`: the final component of the joined path, or the empty text.
pub open spec fn base_name_sure_s(a: Seq<VData>) -> VData {
    match path_file_name(joined_path(a)) {
        Some(n) => VData::String(n),
        None => VData::String(seq![]),
    }
}

/// The final component of the path the arguments join to; the empty text where there is none.
pub fn base_name_sure(args: &[TData]) -> (r: Result<TData, Error>)
    ensures
        r matches Ok(d) && d@ == base_name_sure_s(datas_v(args@)),
{
    let p = join_args(args);
    match file_name_of(p.as_str()) {
        Some(n) => Ok(TData::String(n)),
        None => Ok(TData::String(String::new())),
    }
}

/// Whether the text holds a path separator: a slash or a backslash.
pub open spec fn has_separator(t: Seq<char>) -> bool {
    exists|i: int| 0 <= i < t.len() && (t[i] == '/' || t[i] == '\\')
}

/// Whether the characters hold a path separator.
pub fn has_separator_x(t: &Vec<char>) -> (r: bool)
    ensures
        r == has_separator(t@),
{
    let mut i: usize = 0;
    while i < t.len()
        invariant
            i <= t.len(),
            forall|j: int| 0 <= j < i ==> !(t@[j] == '/' || t@[j] == '\\'),
        decreases t.len() - i,
    {
        if t[i] == '/' || t[i] == '\\' {
            return true;
        }
        i = i + 1;
    }
    false
}

/// `with_ext`: the first argument's path with the second argument's text as its extension; an
/// extension that holds a path separator is refused.
pub open spec fn with_ext_s(a: Seq<VData>) -> Result<VData, ()> {
    if a.len() < 2 || has_separator(v_display(a[1])) {
        Err(())
    } else {
        Ok(VData::String(path_with_extension(v_display(a[0]), v_display(a[1]))))
    }
}

/// The first argument's path with its extension replaced by the second argument's text.
pub fn with_ext(args: &[TData]) -> (r: Result<TData, Error>)
    ensures
        data_agrees(r, with_ext_s(datas_v(args@))),
{
    proof { lemma_datas_v_len(args@); }
    if args.len() < 2 {
        return Err(ea_str("'with_ext' requires a filenae then an extension"));
    }
    proof {
        lemma_datas_v_index(args@, 0);
        lemma_datas_v_index(args@, 1);
    }
    let p = args[0].to_string();
    let e = args[1].to_string();
    if has_separator_x(&chars_of(e.as_str())) {
        return Err(ea_str("'with_ext' extension cannot hold a path separator"));
    }
    Ok(TData::String(with_extension_of(p.as_str(), e.as_str())))
}

/// `stem`: the final component of the joined path without its extension.
pub open spec fn stem_s(a: Seq<VData>) -> Result<VData, ()> {
    match path_file_stem(joined_path(a)) {
        Some(n) => Ok(VData::String(n)),
        None => Err(()),
    }
}

/// The final component of the path the arguments join to, without its extension; an error
/// where there is no final component.
pub fn stem(args: &[TData]) -> (r: Result<TData, Error>)
    ensures
        data_agrees(r, stem_s(datas_v(args@))),
{
    let p = join_args(args);
    match file_stem_of(p.as_str()) {
        Some(n) => Ok(TData::String(n)),
        None => Err(ea_str("No File to stem")),
    }
}

/// `full_stem`: the joined path with its final component replaced by that component's stem.
pub open spec fn full_stem_s(a: Seq<VData>) -> Result<VData, ()> {
    let p = joined_path(a);
    match path_file_stem(p) {
        Some(n) => Ok(VData::String(path_with_file_name(p, n))),
        None => Err(()),
    }
}

/// The path the arguments join to, without the extension of its final component; an error
/// where there is no final component.
pub fn full_stem(args: &[TData]) -> (r: Result<TData, Error>)
    ensures
        data_agrees(r, full_stem_s(datas_v(args@))),
{
    let p = join_args(args);
    match file_stem_of(p.as_str()) {
        Some(n) => Ok(TData::String(with_file_name_of(p.as_str(), n.as_str()))),
        None => Err(ea_str("No file to stem")),
    }
}

} // verus!
