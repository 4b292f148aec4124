//! The built-in functions by name, and [`BasicFuncs`], a function manager offering a chosen set
//! of them.
use vstd::prelude::*;
use crate::err::Error;
use crate::eval::data_agrees;
use crate::func_man::FuncManager;
use crate::strs::{str_eq, string_from};
use crate::tdata::{datas_v, TData, VData};
use crate::funcs::bools;
use crate::funcs::math;
use crate::funcs::strings;
use crate::funcs::{bytes, lists, maps, svg};
use crate::funcs::lists::{append_all, get_s, groups_s, len_s, slice_s};
use crate::funcs::maps::map_s;
use crate::funcs::table::{table_fn, table_s};
use crate::funcs::svg::{cxyrr_s, fl_stk_s, font_s, xml_all, xy12_s, xy_s, xywh_s};
use crate::funcs::bytes::{as_base64_s, from_base64_s};
use crate::funcs::path;
use crate::funcs::sort;
use crate::funcs::sort::{bin_get_s, bin_search_s, sort_on_s, sort_s};
use crate::funcs::formats;
use crate::funcs::formats::{r_card_s, r_json_s};
use crate::funcs::path::{base_name_s, base_name_sure_s, bread_crumbs_s, full_stem_s, joined_path, parent_s, stem_s, with_ext_s};
use crate::funcs::bools::{all_true, any_true, eq_any_s, eq_s, neq_s, order_s, type_of_s};
use crate::funcs::math::{fold_s, negate_s, Arith};
use crate::funcs::strings::{concat_display, contains_s, html_esc_all, md_all, regex_s, replace_n_s, replace_s, split_s, word_wrap_s};

verus! {

/// The comparison and logic functions by name.
pub open spec fn bools_s(k: Seq<char>, a: Seq<VData>) -> Option<Result<VData, ()>> {
    if k == "eq"@ { Some(eq_s(a)) }
    else if k == "neq"@ { Some(neq_s(a)) }
    else if k == "eq_any"@ { Some(eq_any_s(a)) }
    else if k == "gt"@ { Some(order_s(a, false, false, true)) }
    else if k == "gte"@ { Some(order_s(a, false, true, true)) }
    else if k == "lt"@ { Some(order_s(a, true, false, false)) }
    else if k == "lte"@ { Some(order_s(a, true, true, false)) }
    else if k == "and"@ { Some(Ok(VData::Bool(all_true(a)))) }
    else if k == "nand"@ { Some(Ok(VData::Bool(!all_true(a)))) }
    else if k == "or"@ { Some(Ok(VData::Bool(any_true(a)))) }
    else if k == "nor"@ { Some(Ok(VData::Bool(!any_true(a)))) }
    else if k == "type_of"@ { Some(type_of_s(a)) }
    else { None }
}

/// The arithmetic functions by name.
pub open spec fn math_s(k: Seq<char>, a: Seq<VData>) -> Option<Result<VData, ()>> {
    if k == "add"@ { Some(fold_s(Arith::Add, a)) }
    else if k == "sub"@ { Some(if a.len() == 1 { negate_s(a[0]) } else { fold_s(Arith::Sub, a) }) }
    else if k == "mul"@ { Some(fold_s(Arith::Mul, a)) }
    else if k == "div"@ { Some(fold_s(Arith::Div, a)) }
    else if k == "mod"@ { Some(fold_s(Arith::Mod, a)) }
    else if k == "min"@ { Some(fold_s(Arith::Min, a)) }
    else if k == "max"@ { Some(fold_s(Arith::Max, a)) }
    else { None }
}

/// The text functions by name.
pub open spec fn strings_s(k: Seq<char>, a: Seq<VData>) -> Option<Result<VData, ()>> {
    if k == "cat"@ { Some(Ok(VData::String(concat_display(a)))) }
    else if k == "split"@ { Some(split_s(a)) }
    else if k == "str_contains"@ { Some(contains_s(a)) }
    else if k == "str_replace"@ { Some(replace_s(a)) }
    else if k == "str_replace_n"@ { Some(replace_n_s(a)) }
    else if k == "html_esc"@ { Some(Ok(VData::String(html_esc_all(a)))) }
    else if k == "md"@ { Some(Ok(VData::String(md_all(a)))) }
    else if k == "table"@ { Some(table_s(a)) }
    else if k == "regex"@ { Some(regex_s(a)) }
    else if k == "word_wrap"@ { Some(word_wrap_s(a)) }
    else { None }
}

/// The list and map functions by name.
pub open spec fn lists_s(k: Seq<char>, a: Seq<VData>) -> Option<Result<VData, ()>> {
    if k == "list"@ { Some(Ok(VData::List(a))) }
    else if k == "sort"@ { Some(Ok(sort_s(a))) }
    else if k == "sort_on"@ { Some(sort_on_s(a)) }
    else if k == "bin_search"@ { Some(bin_search_s(a)) }
    else if k == "bin_get"@ { Some(bin_get_s(a)) }
    else if k == "append"@ { Some(Ok(VData::List(append_all(a)))) }
    else if k == "get"@ { Some(get_s(a)) }
    else if k == "len"@ { Some(len_s(a)) }
    else if k == "slice"@ { Some(slice_s(a)) }
    else if k == "groups"@ { Some(groups_s(a)) }
    else if k == "map"@ { Some(map_s(a)) }
    else { None }
}

/// The SVG and base64 functions by name.
pub open spec fn svg_s(k: Seq<char>, a: Seq<VData>) -> Option<Result<VData, ()>> {
    if k == "xy"@ { Some(xy_s(a)) }
    else if k == "xywh"@ { Some(xywh_s(a)) }
    else if k == "cxyrr"@ { Some(cxyrr_s(a)) }
    else if k == "xy12"@ { Some(xy12_s(a)) }
    else if k == "fl_stk"@ { Some(fl_stk_s(a)) }
    else if k == "xml_esc"@ { Some(Ok(VData::String(xml_all(a)))) }
    else if k == "font"@ { Some(font_s(a)) }
    else if k == "as_base64"@ { Some(as_base64_s(a)) }
    else if k == "from_base64"@ { Some(from_base64_s(a)) }
    else { None }
}

/// The path and reading functions by name.
pub open spec fn path_s(k: Seq<char>, a: Seq<VData>) -> Option<Result<VData, ()>> {
    if k == "parent"@ { Some(Ok(parent_s(a))) }
    else if k == "join"@ { Some(Ok(VData::String(joined_path(a)))) }
    else if k == "bread_crumbs"@ { Some(Ok(bread_crumbs_s(a))) }
    else if k == "base_name"@ { Some(base_name_s(a)) }
    else if k == "base_name_sure"@ { Some(Ok(base_name_sure_s(a))) }
    else if k == "with_ext"@ { Some(with_ext_s(a)) }
    else if k == "stem"@ { Some(stem_s(a)) }
    else if k == "full_stem"@ { Some(full_stem_s(a)) }
    else if k == "r_json"@ { Some(r_json_s(a)) }
    else if k == "r_card"@ { Some(r_card_s(a)) }
    else { None }
}

/// What calling the built-in function `k` on arguments gives; `None` for a name that is no
/// built-in function.
pub open spec fn builtin_s(k: Seq<char>, a: Seq<VData>) -> Option<Result<VData, ()>> {
    if bools_s(k, a) is Some {
        bools_s(k, a)
    } else if math_s(k, a) is Some {
        math_s(k, a)
    } else if strings_s(k, a) is Some {
        strings_s(k, a)
    } else if lists_s(k, a) is Some {
        lists_s(k, a)
    } else if path_s(k, a) is Some {
        path_s(k, a)
    } else {
        svg_s(k, a)
    }
}

/// A call result agrees with a result of the semantics.
pub open spec fn call_agrees(r: Option<Result<TData, Error>>, s: Option<Result<VData, ()>>) -> bool {
    match s {
        None => r is None,
        Some(Ok(x)) => r matches Some(Ok(y)) && y@ == x,
        Some(Err(())) => r matches Some(Err(_)),
    }
}

fn bools_x(k: &str, a: &[TData]) -> (r: Option<Result<TData, Error>>)
    ensures
        call_agrees(r, bools_s(k@, datas_v(a@))),
{
    if str_eq(k, "eq") { Some(bools::eq(a)) }
    else if str_eq(k, "neq") { Some(bools::neq(a)) }
    else if str_eq(k, "eq_any") { Some(bools::eq_any(a)) }
    else if str_eq(k, "gt") { Some(bools::gt(a)) }
    else if str_eq(k, "gte") { Some(bools::gte(a)) }
    else if str_eq(k, "lt") { Some(bools::lt(a)) }
    else if str_eq(k, "lte") { Some(bools::lte(a)) }
    else if str_eq(k, "and") { Some(bools::and(a)) }
    else if str_eq(k, "nand") { Some(bools::nand(a)) }
    else if str_eq(k, "or") { Some(bools::or(a)) }
    else if str_eq(k, "nor") { Some(bools::nor(a)) }
    else if str_eq(k, "type_of") { Some(bools::type_of(a)) }
    else { None }
}

fn math_x(k: &str, a: &[TData]) -> (r: Option<Result<TData, Error>>)
    ensures
        call_agrees(r, math_s(k@, datas_v(a@))),
{
    if str_eq(k, "add") { Some(math::add(a)) }
    else if str_eq(k, "sub") { Some(math::sub(a)) }
    else if str_eq(k, "mul") { Some(math::mul(a)) }
    else if str_eq(k, "div") { Some(math::div(a)) }
    else if str_eq(k, "mod") { Some(math::modulo(a)) }
    else if str_eq(k, "min") { Some(math::min(a)) }
    else if str_eq(k, "max") { Some(math::max(a)) }
    else { None }
}

fn strings_x(k: &str, a: &[TData]) -> (r: Option<Result<TData, Error>>)
    ensures
        call_agrees(r, strings_s(k@, datas_v(a@))),
{
    if str_eq(k, "cat") { Some(strings::cat(a)) }
    else if str_eq(k, "split") { Some(strings::split(a)) }
    else if str_eq(k, "str_contains") { Some(strings::contains(a)) }
    else if str_eq(k, "str_replace") { Some(strings::replace(a)) }
    else if str_eq(k, "str_replace_n") { Some(strings::replace_n(a)) }
    else if str_eq(k, "html_esc") { Some(strings::html_esc(a)) }
    else if str_eq(k, "md") { Some(strings::md(a)) }
    else if str_eq(k, "table") { Some(table_fn(a)) }
    else if str_eq(k, "regex") { Some(strings::regex(a)) }
    else if str_eq(k, "word_wrap") { Some(strings::word_wrap(a)) }
    else { None }
}

/// Calls the built-in function `k`, if there is one by that name.
pub fn call_builtin(k: &str, a: &[TData]) -> (r: Option<Result<TData, Error>>)
    ensures
        call_agrees(r, builtin_s(k@, datas_v(a@))),
{
    match bools_x(k, a) {
        Some(x) => { return Some(x); },
        None => {},
    }
    match math_x(k, a) {
        Some(x) => { return Some(x); },
        None => {},
    }
    match strings_x(k, a) {
        Some(x) => { return Some(x); },
        None => {},
    }
    match lists_x(k, a) {
        Some(x) => { return Some(x); },
        None => {},
    }
    match path_x(k, a) {
        Some(x) => { return Some(x); },
        None => {},
    }
    svg_x(k, a)
}

fn lists_x(k: &str, a: &[TData]) -> (r: Option<Result<TData, Error>>)
    ensures
        call_agrees(r, lists_s(k@, datas_v(a@))),
{
    if str_eq(k, "list") { Some(lists::list(a)) }
    else if str_eq(k, "sort") { Some(sort::sort(a)) }
    else if str_eq(k, "sort_on") { Some(sort::sort_on(a)) }
    else if str_eq(k, "bin_search") { Some(sort::bin_search(a)) }
    else if str_eq(k, "bin_get") { Some(sort::bin_get(a)) }
    else if str_eq(k, "append") { Some(lists::append(a)) }
    else if str_eq(k, "get") { Some(lists::get(a)) }
    else if str_eq(k, "len") { Some(lists::len(a)) }
    else if str_eq(k, "slice") { Some(lists::slice(a)) }
    else if str_eq(k, "groups") { Some(lists::groups(a)) }
    else if str_eq(k, "map") { Some(maps::map(a)) }
    else { None }
}

fn path_x(k: &str, a: &[TData]) -> (r: Option<Result<TData, Error>>)
    ensures
        call_agrees(r, path_s(k@, datas_v(a@))),
{
    if str_eq(k, "parent") { Some(path::parent(a)) }
    else if str_eq(k, "join") { Some(path::join(a)) }
    else if str_eq(k, "bread_crumbs") { Some(path::bread_crumbs(a)) }
    else if str_eq(k, "base_name") { Some(path::base_name(a)) }
    else if str_eq(k, "base_name_sure") { Some(path::base_name_sure(a)) }
    else if str_eq(k, "with_ext") { Some(path::with_ext(a)) }
    else if str_eq(k, "stem") { Some(path::stem(a)) }
    else if str_eq(k, "full_stem") { Some(path::full_stem(a)) }
    else if str_eq(k, "r_json") { Some(formats::r_json(a)) }
    else if str_eq(k, "r_card") { Some(formats::r_card(a)) }
    else { None }
}

fn svg_x(k: &str, a: &[TData]) -> (r: Option<Result<TData, Error>>)
    ensures
        call_agrees(r, svg_s(k@, datas_v(a@))),
{
    if str_eq(k, "xy") { Some(svg::xy(a)) }
    else if str_eq(k, "xywh") { Some(svg::xywh(a)) }
    else if str_eq(k, "cxyrr") { Some(svg::cxyrr(a)) }
    else if str_eq(k, "xy12") { Some(svg::xy12(a)) }
    else if str_eq(k, "fl_stk") { Some(svg::fl_stk(a)) }
    else if str_eq(k, "xml_esc") { Some(svg::xml_esc(a)) }
    else if str_eq(k, "font") { Some(svg::font(a)) }
    else if str_eq(k, "as_base64") { Some(bytes::as_base64(a)) }
    else if str_eq(k, "from_base64") { Some(bytes::from_base64(a)) }
    else { None }
}

/// The names and descriptions that `with_bools` adds.
pub open spec fn bools_table() -> Seq<(Seq<char>, Seq<char>)> {
    seq![
        ("eq"@, "(A,B...)->bool : Does A equal all the B's"@),
        ("neq"@, "(A,B...)->bool : Is A different to all the B's"@),
        ("eq_any"@, "(A,B...)->bool : Does A equal any of the B's"@),
        ("gt"@, "(A,B...)->bool : Is A greater than all the B's"@),
        ("gte"@, "(A,B...)->bool : Is A greater than or equal to all the B's"@),
        ("lt"@, "(A,B...)->bool : Is a Less than all the B's"@),
        ("lte"@, "(A,B...)->bool : Is a Less than or equal to all the B's"@),
        ("and"@, "(A...)->bool : Are all the values true"@),
        ("nand"@, "(A...)->bool : False if all values are true, with one are, equivilent to not"@),
        ("or"@, "(A...)->bool : True if any values are true"@),
        ("nor"@, "(A...)->bool : False if any values are true"@),
        ("type_of"@, "(value)->string : The type of the value"@),
    ]
}

/// The names and descriptions that `with_math` adds.
pub open spec fn math_table() -> Seq<(Seq<char>, Seq<char>)> {
    seq![
        ("add"@, "(number...)->number : Sum all the numbers"@),
        ("sub"@, "(up,down...)->number : Subtract all downs from up"@),
        ("mul"@, "(number...)->number : Multiply all the numbers"@),
        ("div"@, "(top,bottom)->number : Divide the top by the bottom, if both are integers then result will be an integer"@),
        ("mod"@, "(top,bottom...)->int : Top Modulo Bottom"@),
        ("min"@, "(number...)->number : The lowest of the numbers"@),
        ("max"@, "(number...)->number : The highest of the numbers"@),
    ]
}

/// The names and descriptions that `with_strings` adds.
pub open spec fn strings_table() -> Seq<(Seq<char>, Seq<char>)> {
    seq![
        ("cat"@, "(string...)->string : Concatenate strings"@),
        ("md"@, "(string)->string process a string as markdown"@),
        ("table"@, "use *table notation* to create an html table"@),
        ("split"@, "(string,splitter)->list<string> : split string on splitter"@),
        ("str_contains"@, "(haystack,needle...)->bool, does the haystack contain any of the needles"@),
        ("str_replace"@, "(string,needle,replacement)->string : Replace all copies of needle with replacement"@),
        ("str_replace_n"@, "(string, needle,replacement,?n)->string : Replace n or 1 copies of needle with replacement"@),
        ("html_esc"@, "(string)->string : sanitize input against html security"@),
        ("regex"@, "(string,regex)->bool : Does the string match the regex"@),
        ("word_wrap"@, "(string,width)->string : Add new lines to make sure text lines don't exceed width"@),
    ]
}

/// The names and descriptions that `with_lists` adds.
pub open spec fn lists_table() -> Seq<(Seq<char>, Seq<char>)> {
    seq![
        ("list"@, "(arg ...)->list<arg> : convert args to a single list"@),
        ("sort"@, "(list ...)->list : combine lists and sort final list on simple value"@),
        ("append"@, "(list ...)->list : join all list args to single list"@),
        ("sort_on"@, "(list, criteria...)->list : sort list by *criteria*"@),
        ("bin_search"@, "(list, criteria)->index : search sorted list for comparator must match sort *criteria*"@),
        ("bin_get"@, "(list, criteria)->value : search sorted list for comparator must match sort *criteria*"@),
        ("get"@, "(list,index)->value : get item from list by index (list,index)->value"@),
        ("len"@, "(list)->int : Length of the list"@),
        ("slice"@, "(list|string, start,?end)->list|string : take a section of a list"@),
        ("groups"@, "(int,list)->list<list> : break a list into groups of the given size"@),
    ]
}

/// The names and descriptions that `with_maps` adds.
pub open spec fn maps_table() -> Seq<(Seq<char>, Seq<char>)> {
    seq![
        ("map"@, "(key,value,key,value, ...)->map : build map from list of key value pairs"@),
    ]
}

/// The names and descriptions that `with_svg` adds.
pub open spec fn svg_table() -> Seq<(Seq<char>, Seq<char>)> {
    seq![
        ("xy"@, "(x,y,?units)->string : set svg x and y values"@),
        ("xywh"@, "(x,y,w,h,?units)->string : set svg x,y,width and hight values"@),
        ("cxyrr"@, "(cx,cy,rx,ry,?units)->string : set svg ellipse values"@),
        ("xy12"@, "(x,y,x2,y2,?units)->string : set svg x,y,x2 and y2 values"@),
        ("fl_stk"@, "(fill_color,stroke_color,stroke_width)->string : set svg fill and stroke values"@),
        ("xml_esc"@, "(string)->string : escape an xml string"@),
        ("font"@, "(size,?name,?units)->string : set svg font"@),
    ]
}

/// The names and descriptions that `with_path` adds.
pub open spec fn path_table() -> Seq<(Seq<char>, Seq<char>)> {
    seq![
        ("parent"@, "(path)->path : The parent path"@),
        ("join"@, "(path...)->path : Join paths"@),
        ("bread_crumbs"@, "(path)->list<path> : A list of paths for each parent of this path"@),
        ("base_name"@, "(path)->string : Return file name within the folder Panics on empty"@),
        ("base_name_sure"@, "(path)->string : Return file name within the folder empty string on empty"@),
        ("with_ext"@, "(path,ext)->path : replaces the current exstension an extension to a path,ext should not have a dot "@),
        ("stem"@, "(path)->string : basename without extension"@),
        ("full_stem"@, "(path)->path : file path without extension"@),
    ]
}

/// The names and descriptions that `with_format` adds.
pub open spec fn format_table() -> Seq<(Seq<char>, Seq<char>)> {
    seq![
        ("r_json"@, "(string)->value : read json data to value, normally a map"@),
        ("r_card"@, "(string)->map : read card_format data to list of values"@),
    ]
}

/// The names and descriptions that `with_bytes` adds.
pub open spec fn bytes_table() -> Seq<(Seq<char>, Seq<char>)> {
    seq![
        ("as_base64"@, "(int)->string: Convert a number to base 64"@),
        ("from_base64"@, "(string)->int:Convert a to a number from base 64 string "@),
    ]
}

/// A function manager offering a chosen set of the built-in functions, with their descriptions.
pub struct BasicFuncs {
    funcs: Vec<(String, String)>,
}

impl BasicFuncs {
    /// The names of the functions offered, in the order they were added.
    pub closed spec fn names(&self) -> Seq<Seq<char>> {
        self.funcs@.map_values(|e: (String, String)| e.0@)
    }

    /// The names of the functions offered, each with its description, in the order they were
    /// added.
    pub closed spec fn table(&self) -> Seq<(Seq<char>, Seq<char>)> {
        self.funcs@.map_values(|e: (String, String)| (e.0@, e.1@))
    }

    /// A manager offering no functions.
    pub fn new() -> (r: BasicFuncs)
        ensures
            r.names() == Seq::<Seq<char>>::empty(),
            r.table() == Seq::<(Seq<char>, Seq<char>)>::empty(),
    {
        let r = BasicFuncs { funcs: Vec::new() };
        assert(r.names() =~= Seq::<Seq<char>>::empty());
        assert(r.table() =~= Seq::<(Seq<char>, Seq<char>)>::empty());
        r
    }

    /// Offers the built-in function `k` with a description.
    pub fn add_builtin(&mut self, k: &str, description: &str)
        ensures
            final(self).names() == old(self).names().push(k@),
            final(self).table() == old(self).table().push((k@, description@)),
    {
        let ghost n0 = self.names();
        let ghost t0 = self.table();
        self.funcs.push((string_from(k), string_from(description)));
        assert(self.names() =~= n0.push(k@));
        assert(self.table() =~= t0.push((k@, description@)));
    }

    /// Adds the comparison and logic functions.
    pub fn with_bools(self) -> (r: BasicFuncs)
        ensures
            r.table() == self.table() + bools_table(),
            r.names() == self.names() + seq!["eq"@, "neq"@, "eq_any"@, "gt"@, "gte"@, "lt"@, "lte"@, "and"@, "nand"@, "or"@, "nor"@, "type_of"@],
    {
        let mut s = self;
        let ghost t0 = s.table();
        let ghost n0 = s.names();
        s.add_builtin("eq", "(A,B...)->bool : Does A equal all the B's");
        s.add_builtin("neq", "(A,B...)->bool : Is A different to all the B's");
        s.add_builtin("eq_any", "(A,B...)->bool : Does A equal any of the B's");
        s.add_builtin("gt", "(A,B...)->bool : Is A greater than all the B's");
        s.add_builtin("gte", "(A,B...)->bool : Is A greater than or equal to all the B's");
        s.add_builtin("lt", "(A,B...)->bool : Is a Less than all the B's");
        s.add_builtin("lte", "(A,B...)->bool : Is a Less than or equal to all the B's");
        s.add_builtin("and", "(A...)->bool : Are all the values true");
        s.add_builtin("nand", "(A...)->bool : False if all values are true, with one are, equivilent to not");
        s.add_builtin("or", "(A...)->bool : True if any values are true");
        s.add_builtin("nor", "(A...)->bool : False if any values are true");
        s.add_builtin("type_of", "(value)->string : The type of the value");
        assert(s.names() =~= n0 + seq!["eq"@, "neq"@, "eq_any"@, "gt"@, "gte"@, "lt"@, "lte"@, "and"@, "nand"@, "or"@, "nor"@, "type_of"@]);
        assert(s.table() =~= t0 + bools_table());
        s
    }

    /// Adds the arithmetic functions.
    pub fn with_math(self) -> (r: BasicFuncs)
        ensures
            r.table() == self.table() + math_table(),
            r.names() == self.names() + seq!["add"@, "sub"@, "mul"@, "div"@, "mod"@, "min"@, "max"@],
    {
        let mut s = self;
        let ghost t0 = s.table();
        let ghost n0 = s.names();
        s.add_builtin("add", "(number...)->number : Sum all the numbers");
        s.add_builtin("sub", "(up,down...)->number : Subtract all downs from up");
        s.add_builtin("mul", "(number...)->number : Multiply all the numbers");
        s.add_builtin("div", "(top,bottom)->number : Divide the top by the bottom, if both are integers then result will be an integer");
        s.add_builtin("mod", "(top,bottom...)->int : Top Modulo Bottom");
        s.add_builtin("min", "(number...)->number : The lowest of the numbers");
        s.add_builtin("max", "(number...)->number : The highest of the numbers");
        assert(s.names() =~= n0 + seq!["add"@, "sub"@, "mul"@, "div"@, "mod"@, "min"@, "max"@]);
        assert(s.table() =~= t0 + math_table());
        s
    }

    /// Adds the text functions.
    pub fn with_strings(self) -> (r: BasicFuncs)
        ensures
            r.table() == self.table() + strings_table(),
            r.names() == self.names() + seq!["cat"@, "md"@, "table"@, "split"@, "str_contains"@, "str_replace"@, "str_replace_n"@, "html_esc"@, "regex"@, "word_wrap"@],
    {
        let mut s = self;
        let ghost t0 = s.table();
        let ghost n0 = s.names();
        s.add_builtin("cat", "(string...)->string : Concatenate strings");
        s.add_builtin("md", "(string)->string process a string as markdown");
        s.add_builtin("table", "use *table notation* to create an html table");
        s.add_builtin("split", "(string,splitter)->list<string> : split string on splitter");
        s.add_builtin("str_contains", "(haystack,needle...)->bool, does the haystack contain any of the needles");
        s.add_builtin("str_replace", "(string,needle,replacement)->string : Replace all copies of needle with replacement");
        s.add_builtin("str_replace_n", "(string, needle,replacement,?n)->string : Replace n or 1 copies of needle with replacement");
        s.add_builtin("html_esc", "(string)->string : sanitize input against html security");
        s.add_builtin("regex", "(string,regex)->bool : Does the string match the regex");
        s.add_builtin("word_wrap", "(string,width)->string : Add new lines to make sure text lines don't exceed width");
        assert(s.names() =~= n0 + seq!["cat"@, "md"@, "table"@, "split"@, "str_contains"@, "str_replace"@, "str_replace_n"@, "html_esc"@, "regex"@, "word_wrap"@]);
        assert(s.table() =~= t0 + strings_table());
        s
    }

    /// Adds the list functions.
    pub fn with_lists(self) -> (r: BasicFuncs)
        ensures
            r.table() == self.table() + lists_table(),
            r.names() == self.names() + seq!["list"@, "sort"@, "append"@, "sort_on"@, "bin_search"@, "bin_get"@, "get"@, "len"@, "slice"@, "groups"@],
    {
        let mut s = self;
        let ghost t0 = s.table();
        let ghost n0 = s.names();
        s.add_builtin("list", "(arg ...)->list<arg> : convert args to a single list");
        s.add_builtin("sort", "(list ...)->list : combine lists and sort final list on simple value");
        s.add_builtin("append", "(list ...)->list : join all list args to single list");
        s.add_builtin("sort_on", "(list, criteria...)->list : sort list by *criteria*");
        s.add_builtin("bin_search", "(list, criteria)->index : search sorted list for comparator must match sort *criteria*");
        s.add_builtin("bin_get", "(list, criteria)->value : search sorted list for comparator must match sort *criteria*");
        s.add_builtin("get", "(list,index)->value : get item from list by index (list,index)->value");
        s.add_builtin("len", "(list)->int : Length of the list");
        s.add_builtin("slice", "(list|string, start,?end)->list|string : take a section of a list");
        s.add_builtin("groups", "(int,list)->list<list> : break a list into groups of the given size");
        assert(s.names() =~= n0 + seq!["list"@, "sort"@, "append"@, "sort_on"@, "bin_search"@, "bin_get"@, "get"@, "len"@, "slice"@, "groups"@]);
        assert(s.table() =~= t0 + lists_table());
        s
    }

    /// Adds the map building functions.
    pub fn with_maps(self) -> (r: BasicFuncs)
        ensures
            r.table() == self.table() + maps_table(),
            r.names() == self.names() + seq!["map"@],
    {
        let mut s = self;
        let ghost t0 = s.table();
        let ghost n0 = s.names();
        s.add_builtin("map", "(key,value,key,value, ...)->map : build map from list of key value pairs");
        assert(s.names() =~= n0 + seq!["map"@]);
        assert(s.table() =~= t0 + maps_table());
        s
    }

    /// Adds the SVG functions.
    pub fn with_svg(self) -> (r: BasicFuncs)
        ensures
            r.table() == self.table() + svg_table(),
            r.names() == self.names() + seq!["xy"@, "xywh"@, "cxyrr"@, "xy12"@, "fl_stk"@, "xml_esc"@, "font"@],
    {
        let mut s = self;
        let ghost t0 = s.table();
        let ghost n0 = s.names();
        s.add_builtin("xy", "(x,y,?units)->string : set svg x and y values");
        s.add_builtin("xywh", "(x,y,w,h,?units)->string : set svg x,y,width and hight values");
        s.add_builtin("cxyrr", "(cx,cy,rx,ry,?units)->string : set svg ellipse values");
        s.add_builtin("xy12", "(x,y,x2,y2,?units)->string : set svg x,y,x2 and y2 values");
        s.add_builtin("fl_stk", "(fill_color,stroke_color,stroke_width)->string : set svg fill and stroke values");
        s.add_builtin("xml_esc", "(string)->string : escape an xml string");
        s.add_builtin("font", "(size,?name,?units)->string : set svg font");
        assert(s.names() =~= n0 + seq!["xy"@, "xywh"@, "cxyrr"@, "xy12"@, "fl_stk"@, "xml_esc"@, "font"@]);
        assert(s.table() =~= t0 + svg_table());
        s
    }

    /// Adds the path functions.
    pub fn with_path(self) -> (r: BasicFuncs)
        ensures
            r.table() == self.table() + path_table(),
            r.names() == self.names() + seq!["parent"@, "join"@, "bread_crumbs"@, "base_name"@, "base_name_sure"@, "with_ext"@, "stem"@, "full_stem"@],
    {
        let mut s = self;
        let ghost t0 = s.table();
        let ghost n0 = s.names();
        s.add_builtin("parent", "(path)->path : The parent path");
        s.add_builtin("join", "(path...)->path : Join paths");
        s.add_builtin("bread_crumbs", "(path)->list<path> : A list of paths for each parent of this path");
        s.add_builtin("base_name", "(path)->string : Return file name within the folder Panics on empty");
        s.add_builtin("base_name_sure", "(path)->string : Return file name within the folder empty string on empty");
        s.add_builtin("with_ext", "(path,ext)->path : replaces the current exstension an extension to a path,ext should not have a dot ");
        s.add_builtin("stem", "(path)->string : basename without extension");
        s.add_builtin("full_stem", "(path)->path : file path without extension");
        assert(s.names() =~= n0 + seq!["parent"@, "join"@, "bread_crumbs"@, "base_name"@, "base_name_sure"@, "with_ext"@, "stem"@, "full_stem"@]);
        assert(s.table() =~= t0 + path_table());
        s
    }

    /// Adds the functions that read values out of text.
    pub fn with_format(self) -> (r: BasicFuncs)
        ensures
            r.table() == self.table() + format_table(),
            r.names() == self.names() + seq!["r_json"@, "r_card"@],
    {
        let mut s = self;
        let ghost t0 = s.table();
        let ghost n0 = s.names();
        s.add_builtin("r_json", "(string)->value : read json data to value, normally a map");
        s.add_builtin("r_card", "(string)->map : read card_format data to list of values");
        assert(s.names() =~= n0 + seq!["r_json"@, "r_card"@]);
        assert(s.table() =~= t0 + format_table());
        s
    }

    /// Adds the base64 functions.
    pub fn with_bytes(self) -> (r: BasicFuncs)
        ensures
            r.table() == self.table() + bytes_table(),
            r.names() == self.names() + seq!["as_base64"@, "from_base64"@],
    {
        let mut s = self;
        let ghost t0 = s.table();
        let ghost n0 = s.names();
        s.add_builtin("as_base64", "(int)->string: Convert a number to base 64");
        s.add_builtin("from_base64", "(string)->int:Convert a to a number from base 64 string ");
        assert(s.names() =~= n0 + seq!["as_base64"@, "from_base64"@]);
        assert(s.table() =~= t0 + bytes_table());
        s
    }

    /// Adds the default functions (see [`default_names`]).
    pub fn with_defaults(self) -> (r: BasicFuncs)
        ensures
            r.names() == self.names() + default_names(),
            r.table() == self.table() + default_table(),
    {
        let ghost n0 = self.names();
        let ghost t0 = self.table();
        let r = self.with_bools().with_strings().with_math().with_path().with_lists().with_maps().with_format().with_bytes().with_svg();
        assert(r.names() =~= n0 + default_names());
        assert(r.table() =~= t0 + default_table());
        r
    }

    /// Whether a name is offered.
    fn has(&self, k: &str) -> (r: bool)
        ensures
            r == self.names().contains(k@),
    {
        let mut i: usize = 0;
        while i < self.funcs.len()
            invariant
                i <= self.funcs.len(),
                forall|j: int| 0 <= j < i ==> self.names()[j] != k@,
            decreases self.funcs.len() - i,
        {
            if str_eq(self.funcs[i].0.as_str(), k) {
                assert(self.names()[i as int] == k@);
                return true;
            }
            i = i + 1;
        }
        false
    }
}

impl FuncManager for BasicFuncs {
    open spec fn spec_checked(&self) -> bool {
        true
    }

    open spec fn spec_call(&self, k: Seq<char>, args: Seq<VData>) -> Option<Result<VData, ()>> {
        if self.names().contains(k) {
            builtin_s(k, args)
        } else {
            None
        }
    }

    fn call_func(&self, k: &str, args: &[TData]) -> (r: Option<Result<TData, Error>>) {
        if self.has(k) {
            call_builtin(k, args)
        } else {
            None
        }
    }

    /// The names offered, in order, each with its description.
    fn descriptions(&self) -> (r: Vec<(String, String)>)
        ensures
            r@.map_values(|e: (String, String)| e.0@) == self.names(),
            r@.map_values(|e: (String, String)| (e.0@, e.1@)) == self.table(),
    {
        let mut r: Vec<(String, String)> = Vec::new();
        let mut i: usize = 0;
        while i < self.funcs.len()
            invariant
                i <= self.funcs.len(),
                r@.len() == i,
                forall|j: int| 0 <= j < i ==> #[trigger] r@[j].0@ == self.funcs@[j].0@ && r@[j].1@ == self.funcs@[j].1@,
            decreases self.funcs.len() - i,
        {
            r.push((self.funcs[i].0.clone(), self.funcs[i].1.clone()));
            i = i + 1;
        }
        assert(r@.map_values(|e: (String, String)| e.0@) =~= self.names());
        assert(r@.map_values(|e: (String, String)| (e.0@, e.1@)) =~= self.table());
        r
    }
}

/// The names of the default functions, in the order they are added.
pub open spec fn default_names() -> Seq<Seq<char>> {
    Seq::<Seq<char>>::empty() + seq!["eq"@, "neq"@, "eq_any"@, "gt"@, "gte"@, "lt"@, "lte"@, "and"@, "nand"@, "or"@, "nor"@, "type_of"@]
        + seq!["cat"@, "md"@, "table"@, "split"@, "str_contains"@, "str_replace"@, "str_replace_n"@, "html_esc"@, "regex"@, "word_wrap"@]
        + seq!["add"@, "sub"@, "mul"@, "div"@, "mod"@, "min"@, "max"@]
        + seq!["parent"@, "join"@, "bread_crumbs"@, "base_name"@, "base_name_sure"@, "with_ext"@, "stem"@, "full_stem"@]
        + seq!["list"@, "sort"@, "append"@, "sort_on"@, "bin_search"@, "bin_get"@, "get"@, "len"@, "slice"@, "groups"@]
        + seq!["map"@]
        + seq!["r_json"@, "r_card"@]
        + seq!["as_base64"@, "from_base64"@]
        + seq!["xy"@, "xywh"@, "cxyrr"@, "xy12"@, "fl_stk"@, "xml_esc"@, "font"@]
}

/// The names and descriptions of the default functions, in the order they are added.
pub open spec fn default_table() -> Seq<(Seq<char>, Seq<char>)> {
    bools_table() + strings_table() + math_table() + path_table() + lists_table() + maps_table()
        + format_table() + bytes_table() + svg_table()
}

/// A function manager with the default functions: comparisons and logic, text, arithmetic on
/// whole numbers, paths, lists, maps, reading values out of text, base64 and SVG
/// attributes.
pub fn default_func_man() -> (r: BasicFuncs)
    ensures
        r.names() == default_names(),
        r.table() == default_table(),
{
    let r = BasicFuncs::new().with_defaults();
    assert(r.names() =~= default_names());
    assert(r.table() =~= default_table());
    r
}

proof fn lemma_name_eq(a: Seq<VData>)
    ensures
        builtin_s("eq"@, a) == Some(eq_s(a)),
{
    reveal_strlit("eq");
    assert(bools_s("eq"@, a) == Some(eq_s(a)));
}

proof fn lemma_name_neq(a: Seq<VData>)
    ensures
        builtin_s("neq"@, a) == Some(neq_s(a)),
{
    reveal_strlit("neq");
    reveal_strlit("eq");
    assert("neq"@.len() != "eq"@.len());
    assert(bools_s("neq"@, a) == Some(neq_s(a)));
}

proof fn lemma_name_gt(a: Seq<VData>)
    ensures
        builtin_s("gt"@, a) == Some(order_s(a, false, false, true)),
{
    reveal_strlit("gt");
    reveal_strlit("eq");
    assert("gt"@[0] != "eq"@[0]);
    reveal_strlit("neq");
    assert("gt"@.len() != "neq"@.len());
    reveal_strlit("eq_any");
    assert("gt"@.len() != "eq_any"@.len());
    assert(bools_s("gt"@, a) == Some(order_s(a, false, false, true)));
}

proof fn lemma_name_gte(a: Seq<VData>)
    ensures
        builtin_s("gte"@, a) == Some(order_s(a, false, true, true)),
{
    reveal_strlit("gte");
    reveal_strlit("eq");
    assert("gte"@.len() != "eq"@.len());
    reveal_strlit("neq");
    assert("gte"@[0] != "neq"@[0]);
    reveal_strlit("eq_any");
    assert("gte"@.len() != "eq_any"@.len());
    reveal_strlit("gt");
    assert("gte"@.len() != "gt"@.len());
    assert(bools_s("gte"@, a) == Some(order_s(a, false, true, true)));
}

proof fn lemma_name_lt(a: Seq<VData>)
    ensures
        builtin_s("lt"@, a) == Some(order_s(a, true, false, false)),
{
    reveal_strlit("lt");
    reveal_strlit("eq");
    assert("lt"@[0] != "eq"@[0]);
    reveal_strlit("neq");
    assert("lt"@.len() != "neq"@.len());
    reveal_strlit("eq_any");
    assert("lt"@.len() != "eq_any"@.len());
    reveal_strlit("gt");
    assert("lt"@[0] != "gt"@[0]);
    reveal_strlit("gte");
    assert("lt"@.len() != "gte"@.len());
    assert(bools_s("lt"@, a) == Some(order_s(a, true, false, false)));
}

proof fn lemma_name_lte(a: Seq<VData>)
    ensures
        builtin_s("lte"@, a) == Some(order_s(a, true, true, false)),
{
    reveal_strlit("lte");
    reveal_strlit("eq");
    assert("lte"@.len() != "eq"@.len());
    reveal_strlit("neq");
    assert("lte"@[0] != "neq"@[0]);
    reveal_strlit("eq_any");
    assert("lte"@.len() != "eq_any"@.len());
    reveal_strlit("gt");
    assert("lte"@.len() != "gt"@.len());
    reveal_strlit("gte");
    assert("lte"@[0] != "gte"@[0]);
    reveal_strlit("lt");
    assert("lte"@.len() != "lt"@.len());
    assert(bools_s("lte"@, a) == Some(order_s(a, true, true, false)));
}

proof fn lemma_name_and(a: Seq<VData>)
    ensures
        builtin_s("and"@, a) == Some(Ok::<VData, ()>(VData::Bool(all_true(a)))),
{
    reveal_strlit("and");
    reveal_strlit("eq");
    assert("and"@.len() != "eq"@.len());
    reveal_strlit("neq");
    assert("and"@[0] != "neq"@[0]);
    reveal_strlit("eq_any");
    assert("and"@.len() != "eq_any"@.len());
    reveal_strlit("gt");
    assert("and"@.len() != "gt"@.len());
    reveal_strlit("gte");
    assert("and"@[0] != "gte"@[0]);
    reveal_strlit("lt");
    assert("and"@.len() != "lt"@.len());
    reveal_strlit("lte");
    assert("and"@[0] != "lte"@[0]);
    assert(bools_s("and"@, a) == Some(Ok::<VData, ()>(VData::Bool(all_true(a)))));
}

proof fn lemma_name_or(a: Seq<VData>)
    ensures
        builtin_s("or"@, a) == Some(Ok::<VData, ()>(VData::Bool(any_true(a)))),
{
    reveal_strlit("or");
    reveal_strlit("eq");
    assert("or"@[0] != "eq"@[0]);
    reveal_strlit("neq");
    assert("or"@.len() != "neq"@.len());
    reveal_strlit("eq_any");
    assert("or"@.len() != "eq_any"@.len());
    reveal_strlit("gt");
    assert("or"@[0] != "gt"@[0]);
    reveal_strlit("gte");
    assert("or"@.len() != "gte"@.len());
    reveal_strlit("lt");
    assert("or"@[0] != "lt"@[0]);
    reveal_strlit("lte");
    assert("or"@.len() != "lte"@.len());
    reveal_strlit("and");
    assert("or"@.len() != "and"@.len());
    reveal_strlit("nand");
    assert("or"@.len() != "nand"@.len());
    assert(bools_s("or"@, a) == Some(Ok::<VData, ()>(VData::Bool(any_true(a)))));
}

proof fn lemma_name_nand(a: Seq<VData>)
    ensures
        builtin_s("nand"@, a) == Some(Ok::<VData, ()>(VData::Bool(!all_true(a)))),
{
    reveal_strlit("nand");
    reveal_strlit("eq");
    assert("nand"@.len() != "eq"@.len());
    reveal_strlit("neq");
    assert("nand"@.len() != "neq"@.len());
    reveal_strlit("eq_any");
    assert("nand"@.len() != "eq_any"@.len());
    reveal_strlit("gt");
    assert("nand"@.len() != "gt"@.len());
    reveal_strlit("gte");
    assert("nand"@.len() != "gte"@.len());
    reveal_strlit("lt");
    assert("nand"@.len() != "lt"@.len());
    reveal_strlit("lte");
    assert("nand"@.len() != "lte"@.len());
    reveal_strlit("and");
    assert("nand"@.len() != "and"@.len());
    assert(bools_s("nand"@, a) == Some(Ok::<VData, ()>(VData::Bool(!all_true(a)))));
}

proof fn lemma_name_nor(a: Seq<VData>)
    ensures
        builtin_s("nor"@, a) == Some(Ok::<VData, ()>(VData::Bool(!any_true(a)))),
{
    reveal_strlit("nor");
    reveal_strlit("eq");
    assert("nor"@.len() != "eq"@.len());
    reveal_strlit("neq");
    assert("nor"@[1] != "neq"@[1]);
    reveal_strlit("eq_any");
    assert("nor"@.len() != "eq_any"@.len());
    reveal_strlit("gt");
    assert("nor"@.len() != "gt"@.len());
    reveal_strlit("gte");
    assert("nor"@[0] != "gte"@[0]);
    reveal_strlit("lt");
    assert("nor"@.len() != "lt"@.len());
    reveal_strlit("lte");
    assert("nor"@[0] != "lte"@[0]);
    reveal_strlit("and");
    assert("nor"@[0] != "and"@[0]);
    reveal_strlit("nand");
    assert("nor"@.len() != "nand"@.len());
    reveal_strlit("or");
    assert("nor"@.len() != "or"@.len());
    assert(bools_s("nor"@, a) == Some(Ok::<VData, ()>(VData::Bool(!any_true(a)))));
}

proof fn lemma_name_add(a: Seq<VData>)
    ensures
        builtin_s("add"@, a) == Some(fold_s(Arith::Add, a)),
{
    reveal_strlit("add");
    reveal_strlit("eq");
    assert("add"@.len() != "eq"@.len());
    reveal_strlit("neq");
    assert("add"@[0] != "neq"@[0]);
    reveal_strlit("eq_any");
    assert("add"@.len() != "eq_any"@.len());
    reveal_strlit("gt");
    assert("add"@.len() != "gt"@.len());
    reveal_strlit("gte");
    assert("add"@[0] != "gte"@[0]);
    reveal_strlit("lt");
    assert("add"@.len() != "lt"@.len());
    reveal_strlit("lte");
    assert("add"@[0] != "lte"@[0]);
    reveal_strlit("and");
    assert("add"@[1] != "and"@[1]);
    reveal_strlit("nand");
    assert("add"@.len() != "nand"@.len());
    reveal_strlit("or");
    assert("add"@.len() != "or"@.len());
    reveal_strlit("nor");
    assert("add"@[0] != "nor"@[0]);
    reveal_strlit("type_of");
    assert("add"@.len() != "type_of"@.len());
    assert(math_s("add"@, a) == Some(fold_s(Arith::Add, a)));
    assert(bools_s("add"@, a) is None);
}

proof fn lemma_name_mul(a: Seq<VData>)
    ensures
        builtin_s("mul"@, a) == Some(fold_s(Arith::Mul, a)),
{
    reveal_strlit("mul");
    reveal_strlit("eq");
    assert("mul"@.len() != "eq"@.len());
    reveal_strlit("neq");
    assert("mul"@[0] != "neq"@[0]);
    reveal_strlit("eq_any");
    assert("mul"@.len() != "eq_any"@.len());
    reveal_strlit("gt");
    assert("mul"@.len() != "gt"@.len());
    reveal_strlit("gte");
    assert("mul"@[0] != "gte"@[0]);
    reveal_strlit("lt");
    assert("mul"@.len() != "lt"@.len());
    reveal_strlit("lte");
    assert("mul"@[0] != "lte"@[0]);
    reveal_strlit("and");
    assert("mul"@[0] != "and"@[0]);
    reveal_strlit("nand");
    assert("mul"@.len() != "nand"@.len());
    reveal_strlit("or");
    assert("mul"@.len() != "or"@.len());
    reveal_strlit("nor");
    assert("mul"@[0] != "nor"@[0]);
    reveal_strlit("type_of");
    assert("mul"@.len() != "type_of"@.len());
    reveal_strlit("add");
    assert("mul"@[0] != "add"@[0]);
    reveal_strlit("sub");
    assert("mul"@[0] != "sub"@[0]);
    assert(math_s("mul"@, a) == Some(fold_s(Arith::Mul, a)));
    assert(bools_s("mul"@, a) is None);
}

proof fn lemma_name_min(a: Seq<VData>)
    ensures
        builtin_s("min"@, a) == Some(fold_s(Arith::Min, a)),
{
    reveal_strlit("min");
    reveal_strlit("eq");
    assert("min"@.len() != "eq"@.len());
    reveal_strlit("neq");
    assert("min"@[0] != "neq"@[0]);
    reveal_strlit("eq_any");
    assert("min"@.len() != "eq_any"@.len());
    reveal_strlit("gt");
    assert("min"@.len() != "gt"@.len());
    reveal_strlit("gte");
    assert("min"@[0] != "gte"@[0]);
    reveal_strlit("lt");
    assert("min"@.len() != "lt"@.len());
    reveal_strlit("lte");
    assert("min"@[0] != "lte"@[0]);
    reveal_strlit("and");
    assert("min"@[0] != "and"@[0]);
    reveal_strlit("nand");
    assert("min"@.len() != "nand"@.len());
    reveal_strlit("or");
    assert("min"@.len() != "or"@.len());
    reveal_strlit("nor");
    assert("min"@[0] != "nor"@[0]);
    reveal_strlit("type_of");
    assert("min"@.len() != "type_of"@.len());
    reveal_strlit("add");
    assert("min"@[0] != "add"@[0]);
    reveal_strlit("sub");
    assert("min"@[0] != "sub"@[0]);
    reveal_strlit("mul");
    assert("min"@[1] != "mul"@[1]);
    reveal_strlit("div");
    assert("min"@[0] != "div"@[0]);
    reveal_strlit("mod");
    assert("min"@[1] != "mod"@[1]);
    assert(math_s("min"@, a) == Some(fold_s(Arith::Min, a)));
    assert(bools_s("min"@, a) is None);
}

proof fn lemma_name_max(a: Seq<VData>)
    ensures
        builtin_s("max"@, a) == Some(fold_s(Arith::Max, a)),
{
    reveal_strlit("max");
    reveal_strlit("eq");
    assert("max"@.len() != "eq"@.len());
    reveal_strlit("neq");
    assert("max"@[0] != "neq"@[0]);
    reveal_strlit("eq_any");
    assert("max"@.len() != "eq_any"@.len());
    reveal_strlit("gt");
    assert("max"@.len() != "gt"@.len());
    reveal_strlit("gte");
    assert("max"@[0] != "gte"@[0]);
    reveal_strlit("lt");
    assert("max"@.len() != "lt"@.len());
    reveal_strlit("lte");
    assert("max"@[0] != "lte"@[0]);
    reveal_strlit("and");
    assert("max"@[0] != "and"@[0]);
    reveal_strlit("nand");
    assert("max"@.len() != "nand"@.len());
    reveal_strlit("or");
    assert("max"@.len() != "or"@.len());
    reveal_strlit("nor");
    assert("max"@[0] != "nor"@[0]);
    reveal_strlit("type_of");
    assert("max"@.len() != "type_of"@.len());
    reveal_strlit("add");
    assert("max"@[0] != "add"@[0]);
    reveal_strlit("sub");
    assert("max"@[0] != "sub"@[0]);
    reveal_strlit("mul");
    assert("max"@[1] != "mul"@[1]);
    reveal_strlit("div");
    assert("max"@[0] != "div"@[0]);
    reveal_strlit("mod");
    assert("max"@[1] != "mod"@[1]);
    reveal_strlit("min");
    assert("max"@[1] != "min"@[1]);
    assert(math_s("max"@, a) == Some(fold_s(Arith::Max, a)));
    assert(bools_s("max"@, a) is None);
}

proof fn lemma_name_cat(a: Seq<VData>)
    ensures
        builtin_s("cat"@, a) == Some(Ok::<VData, ()>(VData::String(concat_display(a)))),
{
    reveal_strlit("cat");
    reveal_strlit("eq");
    assert("cat"@.len() != "eq"@.len());
    reveal_strlit("neq");
    assert("cat"@[0] != "neq"@[0]);
    reveal_strlit("eq_any");
    assert("cat"@.len() != "eq_any"@.len());
    reveal_strlit("gt");
    assert("cat"@.len() != "gt"@.len());
    reveal_strlit("gte");
    assert("cat"@[0] != "gte"@[0]);
    reveal_strlit("lt");
    assert("cat"@.len() != "lt"@.len());
    reveal_strlit("lte");
    assert("cat"@[0] != "lte"@[0]);
    reveal_strlit("and");
    assert("cat"@[0] != "and"@[0]);
    reveal_strlit("nand");
    assert("cat"@.len() != "nand"@.len());
    reveal_strlit("or");
    assert("cat"@.len() != "or"@.len());
    reveal_strlit("nor");
    assert("cat"@[0] != "nor"@[0]);
    reveal_strlit("type_of");
    assert("cat"@.len() != "type_of"@.len());
    reveal_strlit("add");
    assert("cat"@[0] != "add"@[0]);
    reveal_strlit("sub");
    assert("cat"@[0] != "sub"@[0]);
    reveal_strlit("mul");
    assert("cat"@[0] != "mul"@[0]);
    reveal_strlit("div");
    assert("cat"@[0] != "div"@[0]);
    reveal_strlit("mod");
    assert("cat"@[0] != "mod"@[0]);
    reveal_strlit("min");
    assert("cat"@[0] != "min"@[0]);
    reveal_strlit("max");
    assert("cat"@[0] != "max"@[0]);
    assert(strings_s("cat"@, a) == Some(Ok::<VData, ()>(VData::String(concat_display(a)))));
    assert(bools_s("cat"@, a) is None);
    assert(math_s("cat"@, a) is None);
}

proof fn lemma_name_split(a: Seq<VData>)
    ensures
        builtin_s("split"@, a) == Some(split_s(a)),
{
    reveal_strlit("split");
    reveal_strlit("eq");
    assert("split"@.len() != "eq"@.len());
    reveal_strlit("neq");
    assert("split"@.len() != "neq"@.len());
    reveal_strlit("eq_any");
    assert("split"@.len() != "eq_any"@.len());
    reveal_strlit("gt");
    assert("split"@.len() != "gt"@.len());
    reveal_strlit("gte");
    assert("split"@.len() != "gte"@.len());
    reveal_strlit("lt");
    assert("split"@.len() != "lt"@.len());
    reveal_strlit("lte");
    assert("split"@.len() != "lte"@.len());
    reveal_strlit("and");
    assert("split"@.len() != "and"@.len());
    reveal_strlit("nand");
    assert("split"@.len() != "nand"@.len());
    reveal_strlit("or");
    assert("split"@.len() != "or"@.len());
    reveal_strlit("nor");
    assert("split"@.len() != "nor"@.len());
    reveal_strlit("type_of");
    assert("split"@.len() != "type_of"@.len());
    reveal_strlit("add");
    assert("split"@.len() != "add"@.len());
    reveal_strlit("sub");
    assert("split"@.len() != "sub"@.len());
    reveal_strlit("mul");
    assert("split"@.len() != "mul"@.len());
    reveal_strlit("div");
    assert("split"@.len() != "div"@.len());
    reveal_strlit("mod");
    assert("split"@.len() != "mod"@.len());
    reveal_strlit("min");
    assert("split"@.len() != "min"@.len());
    reveal_strlit("max");
    assert("split"@.len() != "max"@.len());
    reveal_strlit("cat");
    assert("split"@.len() != "cat"@.len());
    assert(strings_s("split"@, a) == Some(split_s(a)));
    assert(bools_s("split"@, a) is None);
    assert(math_s("split"@, a) is None);
}

proof fn lemma_name_len(a: Seq<VData>)
    ensures
        builtin_s("len"@, a) == Some(len_s(a)),
{
    reveal_strlit("len");
    reveal_strlit("eq");
    assert("len"@.len() != "eq"@.len());
    reveal_strlit("neq");
    assert("len"@[0] != "neq"@[0]);
    reveal_strlit("eq_any");
    assert("len"@.len() != "eq_any"@.len());
    reveal_strlit("gt");
    assert("len"@.len() != "gt"@.len());
    reveal_strlit("gte");
    assert("len"@[0] != "gte"@[0]);
    reveal_strlit("lt");
    assert("len"@.len() != "lt"@.len());
    reveal_strlit("lte");
    assert("len"@[1] != "lte"@[1]);
    reveal_strlit("and");
    assert("len"@[0] != "and"@[0]);
    reveal_strlit("nand");
    assert("len"@.len() != "nand"@.len());
    reveal_strlit("or");
    assert("len"@.len() != "or"@.len());
    reveal_strlit("nor");
    assert("len"@[0] != "nor"@[0]);
    reveal_strlit("type_of");
    assert("len"@.len() != "type_of"@.len());
    reveal_strlit("add");
    assert("len"@[0] != "add"@[0]);
    reveal_strlit("sub");
    assert("len"@[0] != "sub"@[0]);
    reveal_strlit("mul");
    assert("len"@[0] != "mul"@[0]);
    reveal_strlit("div");
    assert("len"@[0] != "div"@[0]);
    reveal_strlit("mod");
    assert("len"@[0] != "mod"@[0]);
    reveal_strlit("min");
    assert("len"@[0] != "min"@[0]);
    reveal_strlit("max");
    assert("len"@[0] != "max"@[0]);
    reveal_strlit("cat");
    assert("len"@[0] != "cat"@[0]);
    reveal_strlit("split");
    assert("len"@.len() != "split"@.len());
    reveal_strlit("str_contains");
    assert("len"@.len() != "str_contains"@.len());
    reveal_strlit("str_replace");
    assert("len"@.len() != "str_replace"@.len());
    reveal_strlit("str_replace_n");
    assert("len"@.len() != "str_replace_n"@.len());
    reveal_strlit("html_esc");
    assert("len"@.len() != "html_esc"@.len());
    reveal_strlit("md");
    assert("len"@.len() != "md"@.len());
    reveal_strlit("table");
    assert("len"@.len() != "table"@.len());
    reveal_strlit("regex");
    assert("len"@.len() != "regex"@.len());
    reveal_strlit("word_wrap");
    assert("len"@.len() != "word_wrap"@.len());
    reveal_strlit("list");
    assert("len"@.len() != "list"@.len());
    reveal_strlit("sort");
    assert("len"@.len() != "sort"@.len());
    reveal_strlit("sort_on");
    assert("len"@.len() != "sort_on"@.len());
    reveal_strlit("bin_search");
    assert("len"@.len() != "bin_search"@.len());
    reveal_strlit("bin_get");
    assert("len"@.len() != "bin_get"@.len());
    reveal_strlit("append");
    assert("len"@.len() != "append"@.len());
    reveal_strlit("get");
    assert("len"@[0] != "get"@[0]);
    assert(lists_s("len"@, a) == Some(len_s(a)));
    assert(bools_s("len"@, a) is None);
    assert(math_s("len"@, a) is None);
    assert(strings_s("len"@, a) is None);
}

/// The comparison functions do by name what their names say: on two unsigned numbers `eq` and
/// `neq` tell whether they are equal, and `gt`, `gte`, `lt` and `lte` compare their values.
pub proof fn law_compare_by_name(x: usize, y: usize)
    ensures
        builtin_s("eq"@, seq![VData::UInt(x), VData::UInt(y)]) == Some(Ok::<VData, ()>(VData::Bool(x == y))),
        builtin_s("neq"@, seq![VData::UInt(x), VData::UInt(y)]) == Some(Ok::<VData, ()>(VData::Bool(x != y))),
        builtin_s("gt"@, seq![VData::UInt(x), VData::UInt(y)]) == Some(Ok::<VData, ()>(VData::Bool(x > y))),
        builtin_s("gte"@, seq![VData::UInt(x), VData::UInt(y)]) == Some(Ok::<VData, ()>(VData::Bool(x >= y))),
        builtin_s("lt"@, seq![VData::UInt(x), VData::UInt(y)]) == Some(Ok::<VData, ()>(VData::Bool(x < y))),
        builtin_s("lte"@, seq![VData::UInt(x), VData::UInt(y)]) == Some(Ok::<VData, ()>(VData::Bool(x <= y))),
{
    let u = seq![VData::UInt(x), VData::UInt(y)];
    lemma_name_eq(u);
    lemma_name_neq(u);
    lemma_name_gt(u);
    lemma_name_gte(u);
    lemma_name_lt(u);
    lemma_name_lte(u);
    let d = crate::tdata::Date { year: 0, month: 1, day: 1 };
    bools::law_eq_two(VData::UInt(x), VData::UInt(y), seq![], seq![], x, y, 0, 0, true, true, d, d);
    crate::order::law_whole_numbers_in_order(x, y, 0, 0);
    assert(u[0] == VData::UInt(x) && u[1] == VData::UInt(y));
    assert(bools::all_ordered(u, false, false, true) == (x > y));
    assert(bools::all_ordered(u, false, true, true) == (x >= y));
    assert(bools::all_ordered(u, true, false, false) == (x < y));
    assert(bools::all_ordered(u, true, true, false) == (x <= y));
}

/// The logic functions do by name what their names say on two truth values: `and`, `or`, and
/// their opposites `nand` and `nor`.
pub proof fn law_logic_by_name(p: bool, q: bool)
    ensures
        builtin_s("and"@, seq![VData::Bool(p), VData::Bool(q)]) == Some(Ok::<VData, ()>(VData::Bool(p && q))),
        builtin_s("or"@, seq![VData::Bool(p), VData::Bool(q)]) == Some(Ok::<VData, ()>(VData::Bool(p || q))),
        builtin_s("nand"@, seq![VData::Bool(p), VData::Bool(q)]) == Some(Ok::<VData, ()>(VData::Bool(!(p && q)))),
        builtin_s("nor"@, seq![VData::Bool(p), VData::Bool(q)]) == Some(Ok::<VData, ()>(VData::Bool(!(p || q)))),
{
    let t = seq![VData::Bool(p), VData::Bool(q)];
    lemma_name_and(t);
    lemma_name_or(t);
    lemma_name_nand(t);
    lemma_name_nor(t);
    assert(t[0] == VData::Bool(p) && t[1] == VData::Bool(q));
    assert(all_true(t) == (p && q)) by {
        if p && q {
            assert forall|i: int| 0 <= i < t.len() implies crate::tdata::v_as_bool(#[trigger] t[i]) == Some(true) by {
                if i == 0 { assert(t[i] == VData::Bool(p)); } else { assert(t[i] == VData::Bool(q)); }
            }
        } else if !p {
            assert(crate::tdata::v_as_bool(t[0]) != Some(true));
        } else {
            assert(crate::tdata::v_as_bool(t[1]) != Some(true));
        }
    }
    assert(any_true(t) == (p || q)) by {
        if p {
            assert(crate::tdata::v_as_bool(t[0]) == Some(true));
        } else if q {
            assert(crate::tdata::v_as_bool(t[1]) == Some(true));
        } else {
            assert forall|i: int| 0 <= i < t.len() implies crate::tdata::v_as_bool(#[trigger] t[i]) != Some(true) by {
                if i == 0 { assert(t[i] == VData::Bool(p)); } else { assert(t[i] == VData::Bool(q)); }
            }
        }
    }
}

/// The arithmetic functions do by name what their names say on two unsigned numbers: `add`
/// and `mul` compute the sum and the product when it fits, `min` and `max` pick one of them.
#[verifier::rlimit(40)]
pub proof fn law_arith_by_name(x: usize, y: usize)
    ensures
        builtin_s("min"@, seq![VData::UInt(x), VData::UInt(y)]) matches Some(Ok(VData::UInt(z)))
            && z <= x && z <= y && (z == x || z == y),
        builtin_s("max"@, seq![VData::UInt(x), VData::UInt(y)]) matches Some(Ok(VData::UInt(z)))
            && z >= x && z >= y && (z == x || z == y),
        x + y <= usize::MAX ==> (builtin_s("add"@, seq![VData::UInt(x), VData::UInt(y)]) matches Some(Ok(VData::UInt(z))) && z == x + y),
        x * y <= usize::MAX ==> (builtin_s("mul"@, seq![VData::UInt(x), VData::UInt(y)]) matches Some(Ok(VData::UInt(z))) && z == x * y),
{
    let u = seq![VData::UInt(x), VData::UInt(y)];
    lemma_name_min(u);
    lemma_name_max(u);
    lemma_name_add(u);
    lemma_name_mul(u);
    math::law_unsigned_arith(x, y);
}

/// The text and list functions do by name what their names say: `cat` of two texts joins
/// them, `len` of a list counts its elements, and `split` of a text alone cuts it at new lines.
pub proof fn law_text_list_by_name(a: Seq<char>, b: Seq<char>, l: Seq<VData>)
    requires
        l.len() <= usize::MAX,
    ensures
        builtin_s("cat"@, seq![VData::String(a), VData::String(b)]) == Some(Ok::<VData, ()>(VData::String(a + b))),
        builtin_s("len"@, seq![VData::List(l)]) matches Some(Ok(VData::UInt(n))) && n == l.len(),
        builtin_s("split"@, seq![VData::String(a)]) == builtin_s("split"@, seq![VData::String(a), VData::String(seq!['\n'])]),
{
    lemma_name_cat(seq![VData::String(a), VData::String(b)]);
    lemma_name_len(seq![VData::List(l)]);
    lemma_name_split(seq![VData::String(a)]);
    lemma_name_split(seq![VData::String(a), VData::String(seq!['\n'])]);
    crate::laws::law_cat_joins(a, b);
    lists::law_len_counts(l, seq![], VData::Null, VData::Null);
    crate::laws::law_split_defaults_to_lines(a, VData::Null);
}

} // verus!
