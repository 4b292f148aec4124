use templito::funcs::formats::{r_card, r_json};
use templito::funcs::path::{base_name, base_name_sure, bread_crumbs, full_stem, join, join_with, parent, stem, with_ext};
use templito::tdata::TData;

/// Whether two values are the same value, kind for kind and item for item.
fn same(a: TData, b: TData) {
    assert_eq!(format!("{:?}", a), format!("{:?}", b));
}

fn text(s: &str) -> TData {
    TData::String(s.to_string())
}

fn texts(l: &[&str]) -> TData {
    TData::List(l.iter().map(|s| text(s)).collect())
}

#[test]
fn path_join_pushes_each_part() {
    assert_eq!(join(&[text("a"), text("b"), text("c.txt")]).unwrap(), text("a/b/c.txt"));
    assert_eq!(join(&[text("a"), text("/abs")]).unwrap(), text("/abs"));
    assert_eq!(join(&[]).unwrap(), text(""));
    assert_eq!(join(&[text("dir"), TData::UInt(3)]).unwrap(), text("dir/3"));
}

#[test]
fn path_parent_of_joined_path() {
    assert_eq!(parent(&[text("a/b/c")]).unwrap(), text("a/b"));
    assert_eq!(parent(&[text("a"), text("b")]).unwrap(), text("a"));
    assert_eq!(parent(&[text("/")]).unwrap(), text(""));
    assert_eq!(parent(&[text("")]).unwrap(), text(""));
}

#[test]
fn path_bread_crumbs_go_outermost_first() {
    same(bread_crumbs(&[text("a/b/c")]).unwrap(), texts(&["", "a", "a/b", "a/b/c"]));
    same(bread_crumbs(&[text("/x/y")]).unwrap(), texts(&["/", "/x", "/x/y"]));
    same(bread_crumbs(&[text("")]).unwrap(), texts(&[""]));
}

#[test]
fn path_base_names() {
    assert_eq!(base_name(&[text("a/b/file.md")]).unwrap(), text("file.md"));
    assert!(base_name(&[text("/")]).is_err());
    assert_eq!(base_name_sure(&[text("a"), text("f.txt")]).unwrap(), text("f.txt"));
    assert_eq!(base_name_sure(&[text("/")]).unwrap(), text(""));
}

#[test]
fn path_extensions_and_stems() {
    assert_eq!(with_ext(&[text("a/b.md"), text("html")]).unwrap(), text("a/b.html"));
    assert_eq!(with_ext(&[text("a/b"), text("txt")]).unwrap(), text("a/b.txt"));
    assert!(with_ext(&[text("a/b.md")]).is_err());
    assert!(with_ext(&[text("a/b.md"), text("x/y")]).is_err());
    assert_eq!(stem(&[text("a/b.tar.gz")]).unwrap(), text("b.tar"));
    assert!(stem(&[text("")]).is_err());
    assert_eq!(full_stem(&[text("a/b.md")]).unwrap(), text("a/b"));
    assert!(full_stem(&[text("/")]).is_err());
}

#[test]
fn path_join_with_separator() {
    let l = TData::List(vec![text("x"), TData::UInt(2), TData::Bool(true)]);
    assert_eq!(join_with(&[text(", "), l]).unwrap(), text("x, 2, true"));
    same(join_with(&[text("-"), TData::List(vec![])]).unwrap(), text(""));
    assert!(join_with(&[text("-"), text("nolist")]).is_err());
    assert!(join_with(&[text("-")]).is_err());
}

#[test]
fn r_json_reads_value_at_start() {
    let v = r_json(&[text(" {\"a\": [1, -2, \"x\"], \"b\": null}")]).unwrap();
    same(v, TData::Dict(vec![
            ("a".to_string(), TData::List(vec![TData::UInt(1), TData::Int(-2), text("x")])),
            ("b".to_string(), TData::Null),
        ]));
    assert_eq!(r_json(&[text("true trailing")]).unwrap(), TData::Bool(true));
    assert!(r_json(&[text("{oops}")]).is_err());
    assert!(r_json(&[TData::UInt(3)]).is_err());
    assert!(r_json(&[]).is_err());
}

#[test]
fn r_card_reads_cards_with_name_and_num() {
    let v = r_card(&[text("4 * help:\n    .tx:\"can make sandwiches\"\n")]).unwrap();
    same(v, TData::List(vec![TData::Dict(vec![
            ("tx".to_string(), text("can make sandwiches")),
            ("Name".to_string(), text("help")),
            ("Num".to_string(), TData::UInt(4)),
        ])]));
    assert!(r_card(&[TData::Null]).is_err());
    assert!(r_card(&[]).is_err());
}

#[test]
fn tdata_from_str_reads_basic_values() {
    same(TData::from_str("[1 2,3]").unwrap(), TData::List(vec![TData::UInt(1), TData::UInt(2), TData::UInt(3)]));
    same(TData::from_str("{\"k\":\"v\"}").unwrap(), TData::Dict(vec![("k".to_string(), text("v"))]));
    assert!(TData::from_str("{\"k\": \"v\"}").is_err());
    assert_eq!(TData::from_str("-7").unwrap(), TData::Int(-7));
    assert!(TData::from_str(" 1").is_err());
}

use templito::funcs::filter::filter;
use templito::funcs::sort::{bin_get, bin_search, sort, sort_on};

fn dict(es: &[(&str, TData)]) -> TData {
    TData::Dict(es.iter().map(|(k, v)| (k.to_string(), v.clone())).collect())
}

#[test]
fn sort_combines_lists_and_orders_values() {
    let a = TData::List(vec![TData::UInt(3), TData::Int(-1), TData::UInt(2)]);
    let b = TData::List(vec![TData::UInt(1)]);
    let r = sort(&[a, text("ignored"), b]).unwrap();
    same(r, TData::List(vec![TData::Int(-1), TData::UInt(1), TData::UInt(2), TData::UInt(3)]));
    same(sort(&[texts(&["pear", "apple", "fig"])]).unwrap(), texts(&["apple", "fig", "pear"]));
    same(sort(&[]).unwrap(), TData::List(vec![]));
}

#[test]
fn sort_on_by_criteria_is_stable() {
    let people = TData::List(vec![
        dict(&[("name", text("b")), ("age", TData::UInt(30))]),
        dict(&[("name", text("a")), ("age", TData::UInt(20))]),
        dict(&[("name", text("c")), ("age", TData::UInt(30))]),
    ]);
    let by_age = sort_on(&[people.clone(), text("age")]).unwrap();
    same(by_age, TData::List(vec![
            dict(&[("name", text("a")), ("age", TData::UInt(20))]),
            dict(&[("name", text("b")), ("age", TData::UInt(30))]),
            dict(&[("name", text("c")), ("age", TData::UInt(30))]),
        ]));
    let down = sort_on(&[people.clone(), text("-age"), text("name")]).unwrap();
    same(down, TData::List(vec![
            dict(&[("name", text("b")), ("age", TData::UInt(30))]),
            dict(&[("name", text("c")), ("age", TData::UInt(30))]),
            dict(&[("name", text("a")), ("age", TData::UInt(20))]),
        ]));
    assert!(sort_on(&[people.clone()]).is_err());
    assert!(sort_on(&[people.clone(), TData::UInt(1)]).is_err());
    assert!(sort_on(&[people, text("!bad")]).is_err());
    assert!(sort_on(&[text("nolist"), text("age")]).is_err());
}

#[test]
fn bin_search_and_get_find_items() {
    let l = TData::List(vec![
        dict(&[("k", TData::UInt(1)), ("v", text("one"))]),
        dict(&[("k", TData::UInt(3)), ("v", text("three"))]),
        dict(&[("k", TData::UInt(5)), ("v", text("five"))]),
    ]);
    let probe = dict(&[("k", TData::UInt(3))]);
    assert_eq!(bin_search(&[l.clone(), probe.clone(), text("k")]).unwrap(), TData::UInt(1));
    same(bin_get(&[l.clone(), probe, text("k")]).unwrap(), dict(&[("k", TData::UInt(3)), ("v", text("three"))]));
    let missing = dict(&[("k", TData::UInt(4))]);
    assert_eq!(bin_search(&[l.clone(), missing.clone(), text("k")]).unwrap(), TData::Null);
    assert_eq!(bin_get(&[l.clone(), missing, text("k")]).unwrap(), TData::Null);
    assert!(bin_search(&[l.clone(), TData::Null]).is_err());
    assert!(bin_get(&[text("x"), TData::Null, text("k")]).is_err());
}

#[test]
fn filter_keeps_items_the_pipeline_accepts() {
    let l = TData::List(vec![TData::UInt(1), TData::UInt(5), TData::UInt(10)]);
    same(filter(&[l.clone(), text("gt $0 3")]).unwrap(), TData::List(vec![TData::UInt(5), TData::UInt(10)]));
    same(filter(&[l.clone(), text("eq $0 7")]).unwrap(), TData::List(vec![]));
    assert!(filter(&[l]).is_err());
    assert!(filter(&[text("nolist"), text("gt $0 3")]).is_err());
}

#[test]
fn law_split_then_join_gives_text_back() {
    let parts = templito::funcs::strings::split(&[text("a,b,,c"), text(",")]).unwrap();
    same(join_with(&[text(","), parts]).unwrap(), text("a,b,,c"));
}

#[test]
fn law_sort_twice_and_sorted_input() {
    let once = sort(&[TData::List(vec![TData::UInt(3), TData::UInt(1), TData::UInt(2), TData::UInt(1)])]).unwrap();
    let twice = sort(&[once.clone()]).unwrap();
    same(once.clone(), TData::List(vec![TData::UInt(1), TData::UInt(1), TData::UInt(2), TData::UInt(3)]));
    same(twice, once);
    let ordered = TData::List(vec![text("a"), text("b"), text("c")]);
    same(sort(&[ordered.clone()]).unwrap(), ordered);
}
