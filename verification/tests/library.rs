use templito::funcs::bools::{and, eq, eq_any, gt, gte, is_null, is_num, lt, lte, nand, neq, nor, or, type_of};
use templito::funcs::bytes::{as_base64, from_base64};
use templito::funcs::folder::{safe_path, scan_entry, scan_hides};
use templito::funcs::lists::{append, get, groups, index_of, len, list, slice};
use templito::funcs::math::{add, div, max, min, modulo, mul, sub};
use templito::funcs::registry::{default_func_man, BasicFuncs};
use templito::funcs::sort::o_flip;
use templito::funcs::strings::{cat, contains, html_esc, md, regex, replace, replace_n, split, word_wrap};
use templito::funcs::svg::{cxyrr, fl_stk, font, xml_esc, xy, xy12, xywh};
use templito::funcs::table::{table, write_row};
use templito::func_man::FuncManager;
use templito::scope::Scope;
use templito::tdata::TData;
use templito::temp_man::{BasicTemps, NoTemplates, TempManager};
use templito::template::{TreeTemplate, VarPart};
use templito::tparam::{TParam, KV};

use std::cmp::Ordering;

/// Whether two values are the same value, kind for kind and item for item.
fn same(a: TData, b: TData) {
    assert_eq!(format!("{:?}", a), format!("{:?}", b));
}

fn text(s: &str) -> TData {
    TData::String(s.to_string())
}

fn u(n: usize) -> TData {
    TData::UInt(n)
}

fn run(t: &str, params: &[TData]) -> String {
    let tt = TreeTemplate::from_str(t).unwrap();
    tt.run(params, &mut NoTemplates, &default_func_man()).unwrap()
}

#[test]
fn readme_if_elif_else_picks_second() {
    let t = "{{let x=3;y=9;list=[\"fish\",\"dog\"]}}{{if gt $x 3}}{{$x}}{{elif gt $y 3}}{{$y}}{{else}}Something else{{/if}}";
    assert_eq!(run(t, &[]), "9");
}

#[test]
fn readme_for_over_list() {
    let t = "{{let list=[\"fish\",\"dog\"]}}{{for k v in $list}}list at {{$k}} equals {{$v}};{{/for}}";
    assert_eq!(run(t, &[]), "list at 0 equals fish;list at 1 equals dog;");
}

#[test]
fn readme_at_let_lines_split() {
    let t = "{{@let lines}}\napple\ncat\nsandwhich\n{{/let}}\\\n{{for k v in split $lines \"\\n\"}}{{if $v}}<p>{{$v}}</p>{{/if}}{{/for}}";
    assert_eq!(run(t, &[]), "<p>apple</p><p>cat</p><p>sandwhich</p>");
}

#[test]
fn crate_doc_example_renders() {
    let tp = r#"
    <h1>{{$0}}</h1>
    {{for k v in $1}}\
        <p>{{$k}} = {{$v}}</p>
    {{/for}}\
    {{#Get a list member by reference#}}\
    {{$1.1}}
    {{#Or Even Markdown on a templatable block#}}\
    {{@md}}
* {{$1.0}}
* {{$1.2}}
    {{/md}}
"#;
    let animals = TData::List(vec![text("cat"), text("dog"), text("fish")]);
    let s = run(tp, &[text("hello"), animals]);
    assert_eq!(
        s,
        r#"
    <h1>hello</h1>
    <p>0 = cat</p>
    <p>1 = dog</p>
    <p>2 = fish</p>
    dog
    <ul>
<li>cat</li>
<li>fish</li>
</ul>

"#
    );
}

#[test]
fn law_let_then_var_on_values() {
    assert_eq!(run("{{let x = \"seven\"}}{{$x}}", &[]), "seven");
    assert_eq!(run("{{let x = [1,2]}}{{$x}}", &[]), "[1,2]");
}

#[test]
fn law_export_returned_on_values() {
    let tt = TreeTemplate::from_str("{{export a = 5}}body").unwrap();
    let (s, m) = tt.run_exp(&[], &mut NoTemplates, &default_func_man()).unwrap();
    assert_eq!(s, "body");
    assert_eq!(m, vec![("a".to_string(), u(5))]);
}

#[test]
fn law_at_let_then_var_on_values() {
    assert_eq!(run("{{@let n}}inner{{/let}}<{{$n}}>", &[]), "<inner>");
}

#[test]
fn law_if_branches_on_values() {
    assert_eq!(run("{{if true}}Y{{else}}N{{/if}}", &[]), "Y");
    assert_eq!(run("{{if false}}Y{{else}}N{{/if}}", &[]), "N");
    assert_eq!(run("{{if false}}Y{{/if}}", &[]), "");
}

#[test]
fn law_define_then_run_on_values() {
    assert_eq!(run("{{define t}}[{{$0}}]{{/define}}{{run $t 4}}", &[]), "[4]");
}

#[test]
fn law_for_prints_each_on_values() {
    assert_eq!(run("{{for k v in $0}}{{$v}}-{{/for}}", &[TData::List(vec![u(1), u(2), u(3)])]), "1-2-3-");
}

#[test]
fn law_plain_text_prints_itself_on_values() {
    assert_eq!(run("no tags at all", &[]), "no tags at all");
}

#[test]
fn law_split_then_join_on_values() {
    let parts = split(&[text("a,b,,c"), text(",")]).unwrap();
    same(parts, TData::List(vec![text("a"), text("b"), text(""), text("c")]));
}

#[test]
fn law_groups_flatten_on_values() {
    let l = TData::List(vec![u(1), u(2), u(3), u(4), u(5)]);
    let g = groups(&[u(2), l]).unwrap();
    same(g, TData::List(vec![
            TData::List(vec![u(1), u(2)]),
            TData::List(vec![u(3), u(4)]),
            TData::List(vec![u(5)]),
        ]));
    same(groups(&[u(3), TData::List(vec![])]).unwrap(), TData::List(vec![]));
    assert!(groups(&[text("x"), TData::List(vec![])]).is_err());
}

#[test]
fn law_html_escape_on_values() {
    assert_eq!(html_esc(&[text("'1")]).unwrap(), text("&#39;1"));
    assert_eq!(
        html_esc(&[text("<a href='x'>&\"")]).unwrap(),
        text("&lt;a href=&#39;x&#39;&gt;&amp;&quot;")
    );
}

#[test]
fn scope_laws_on_values() {
    let mut sc = Scope::new(&[u(7)]);
    sc.set("k".to_string(), text("v"));
    assert_eq!(sc.get(&[VarPart::Id("k".to_string())]), Some(text("v")));
    assert_eq!(sc.get(&[VarPart::Num(0)]), Some(u(7)));
    sc.push();
    sc.set("inner".to_string(), u(1));
    sc.set_root("out".to_string(), u(2));
    assert_eq!(sc.get(&[VarPart::Id("k".to_string())]), Some(text("v")));
    sc.pop();
    assert_eq!(sc.get(&[VarPart::Id("inner".to_string())]), None);
    assert_eq!(sc.get(&[VarPart::Id("out".to_string())]), Some(u(2)));
}

#[test]
fn float_literal_is_printed_as_rust_prints_it() {
    assert_eq!(run("{{2.50}}", &[]), "2.5");
    assert_eq!(run("{{ -1.5 }}", &[]), "-1.5");
    // gobble reads the sign from the whole part, so a negative number below one loses it.
    assert_eq!(run("{{ -0.125 }}", &[]), "0.125");
}

#[test]
fn whitespace_escape_and_trim_tags() {
    assert_eq!(run("a\\\n   b", &[]), "ab");
    assert_eq!(run("x  {{- \"y\" -}}  z", &[]), "xyz");
    assert_eq!(run("\\{{\"lit\"}}", &[]), "{{\"lit\"}}");
}

#[test]
fn bad_templates_are_refused() {
    assert!(TreeTemplate::from_str("{{if true}}open").is_err());
    assert!(TreeTemplate::from_str("{{/for}}").is_err());
    assert!(TreeTemplate::from_str("{{").is_err());
}

#[test]
fn comparisons_and_logic() {
    assert_eq!(eq(&[u(3), TData::Int(3)]).unwrap(), TData::Bool(true));
    assert_eq!(eq(&[u(3), u(3), u(4)]).unwrap(), TData::Bool(false));
    assert_eq!(neq(&[u(3), u(4)]).unwrap(), TData::Bool(true));
    assert_eq!(neq(&[u(1), u(1), u(2)]).unwrap(), TData::Bool(false));
    assert_eq!(neq(&[u(1), u(3), u(2)]).unwrap(), TData::Bool(true));
    assert_eq!(eq_any(&[text("a"), text("b"), text("a")]).unwrap(), TData::Bool(true));
    assert_eq!(gt(&[u(5), u(3), u(4)]).unwrap(), TData::Bool(true));
    assert_eq!(lt(&[u(5), u(3)]).unwrap(), TData::Bool(false));
    assert_eq!(gte(&[u(3), u(3)]).unwrap(), TData::Bool(true));
    assert_eq!(lte(&[text("a"), text("b")]).unwrap(), TData::Bool(true));
    assert!(eq(&[]).is_err());
    assert_eq!(and(&[TData::Bool(true), u(1)]).unwrap(), TData::Bool(true));
    assert_eq!(and(&[TData::Bool(true), TData::Null]).unwrap(), TData::Bool(false));
    assert_eq!(nand(&[TData::Bool(true)]).unwrap(), TData::Bool(false));
    assert_eq!(or(&[TData::Bool(false), text("x")]).unwrap(), TData::Bool(true));
    assert_eq!(nor(&[TData::Bool(false)]).unwrap(), TData::Bool(true));
    assert_eq!(is_null(&[TData::Null]).unwrap(), TData::Bool(true));
    assert_eq!(is_num(&[text("3")]).unwrap(), TData::Bool(false));
    assert_eq!(type_of(&[u(2)]).unwrap(), text("uint"));
    same(type_of(&[TData::List(vec![])]).unwrap(), text("list"));
}

#[test]
fn arithmetic_on_whole_numbers() {
    assert_eq!(add(&[u(1), u(2), TData::Int(-4)]).unwrap(), TData::Int(-1));
    assert_eq!(add(&[text("x")]).unwrap(), text("x"));
    assert!(add(&[]).is_err());
    assert!(add(&[u(1), text("x")]).is_err());
    assert_eq!(sub(&[u(3), u(5)]).unwrap(), TData::Int(-2));
    assert_eq!(sub(&[u(4)]).unwrap(), TData::Int(-4));
    assert_eq!(sub(&[u(9), u(4)]).unwrap(), u(5));
    assert_eq!(mul(&[TData::Int(-2), u(3)]).unwrap(), TData::Int(-6));
    assert_eq!(div(&[u(7), u(2)]).unwrap(), u(3));
    assert_eq!(modulo(&[TData::Int(-7), u(3)]).unwrap(), TData::Int(-1));
    assert_eq!(min(&[u(4), u(2), u(9)]).unwrap(), u(2));
    assert_eq!(max(&[TData::Int(-4), u(2)]).unwrap(), TData::Int(2));
    assert!(div(&[u(1), u(0)]).is_err());
}

#[test]
fn text_functions() {
    assert_eq!(cat(&[text("a"), u(1), TData::Bool(false)]).unwrap(), text("a1false"));
    assert_eq!(contains(&[text("haystack"), text("zz"), text("st")]).unwrap(), TData::Bool(true));
    assert_eq!(replace(&[text("a-b-c"), text("-"), text("+")]).unwrap(), text("a+b+c"));
    assert_eq!(replace_n(&[text("a-b-c"), text("-"), text("+")]).unwrap(), text("a+b-c"));
    assert_eq!(replace_n(&[text("a-b-c"), text("-"), text("+"), u(2)]).unwrap(), text("a+b+c"));
    assert!(replace(&[text("a")]).is_err());
    assert_eq!(md(&[text("# Hi")]).unwrap(), text("<h1>Hi</h1>\n"));
    assert_eq!(regex(&[text("abc"), text("^a.c$")]).unwrap(), TData::Bool(true));
    assert_eq!(regex(&[text("abc"), text("^b")]).unwrap(), TData::Bool(false));
    assert!(regex(&[text("abc"), text("(")]).is_err());
    assert!(regex(&[text("abc")]).is_err());
}

#[test]
fn word_wrap_breaks_at_spaces() {
    assert_eq!(word_wrap(&[text("hello world foo"), u(6)]).unwrap(), text("hello\nworld\nfoo"));
    assert_eq!(word_wrap(&[text("ab cde fg"), u(5)]).unwrap(), text("ab\ncde\nfg"));
    assert_eq!(word_wrap(&[text("a b\nc  d"), u(10)]).unwrap(), text("a b\nc d"));
    assert_eq!(word_wrap(&[text("  one two\tthree  "), u(7)]).unwrap(), text("one two\nthree"));
    assert_eq!(word_wrap(&[text("toolongword x"), u(4)]).unwrap(), text("toolongword\nx"));
    assert!(word_wrap(&[text("x"), text("y")]).is_err());
    assert_eq!(word_wrap(&[text("\u{3000}ab\u{a0}"), u(10)]).unwrap(), text("ab"));
}

#[test]
fn lists_and_maps() {
    same(list(&[u(1), text("a")]).unwrap(), TData::List(vec![u(1), text("a")]));
    same(len(&[TData::List(vec![u(1), u(2)]), text("x")]).unwrap(), u(3));
    same(slice(&[TData::List(vec![u(1), u(2), u(3)]), u(1)]).unwrap(), TData::List(vec![u(2), u(3)]));
    assert_eq!(slice(&[text("hello"), u(1), u(3)]).unwrap(), text("el"));
    assert!(slice(&[text("hello"), u(4), u(9)]).is_err());
    same(get(&[TData::List(vec![u(5), u(6)]), u(1)]).unwrap(), u(6));
    same(get(&[TData::List(vec![u(5)]), u(3)]).unwrap(), TData::Null);
    assert_eq!(get(&[text("abc"), u(1)]).unwrap(), text("b"));
    assert_eq!(get(&[TData::List(vec![u(5)])]).unwrap_err().to_string(), "Get requires List and Number");
    assert!(get(&[TData::List(vec![u(5)]), u(0), u(0)]).unwrap_err().to_string().starts_with("Get requires List and exactly 1"));
    same(append(&[TData::List(vec![u(1)]), u(2)]).unwrap(), TData::List(vec![u(1), u(2)]));
    same(index_of(&[u(6), TData::List(vec![u(5), u(6)])]).unwrap(), u(1));
    same(index_of(&[u(7), TData::List(vec![u(5), u(6)])]).unwrap(), TData::Null);
    let m = templito::funcs::maps::map(&[text("a"), u(1), text("b"), u(2)]).unwrap();
    same(m.clone(), TData::Dict(vec![("a".to_string(), u(1)), ("b".to_string(), u(2))]));
    assert_eq!(m.get_key_string("a"), Some("1".to_string()));
    assert_eq!(m.get_key_str("a"), None);
}

#[test]
fn svg_attributes() {
    assert_eq!(xy(&[u(1), u(2)]).unwrap(), text("x=\"1\" y=\"2\""));
    assert_eq!(xy(&[u(1), u(2), text("px")]).unwrap(), text("x=\"1px\" y=\"2px\""));
    assert!(xy(&[u(1)]).is_err());
    assert_eq!(xywh(&[u(1), u(2), u(3), u(4)]).unwrap(), text("x=\"1\" y=\"2\" width=\"3\" height=\"4\""));
    assert_eq!(cxyrr(&[u(1), u(2), u(3), u(4)]).unwrap(), text("cx=\"1\" cy=\"2\" rx=\"3\" ry=\"4\""));
    assert_eq!(xy12(&[u(1), u(2), u(3), u(4)]).unwrap(), text("x=\"1\" y=\"2\" x2=\"3\" y2=\"4\""));
    assert_eq!(fl_stk(&[text("red"), text("blue"), u(2)]).unwrap(), text("fill=\"red\" stroke=\"blue\" stroke-width=\"2\""));
    assert_eq!(font(&[u(12)]).unwrap(), text("font-size=\"12\" "));
    assert_eq!(font(&[u(12), text("Arial"), text("px")]).unwrap(), text("font-size=\"12px\" font-family=\"Arial\" "));
    assert_eq!(xml_esc(&[text("<a&'\">")]).unwrap(), text("&lt;a&amp;&apos;&quot;&gt;"));
}

#[test]
fn base64_round_trip() {
    assert_eq!(as_base64(&[text("hi")]).unwrap(), text("aGk="));
    same(from_base64(&[text("aGk=")]).unwrap(), TData::Bytes(vec![104, 105]));
    assert!(from_base64(&[text("!!")]).is_err());
    assert!(as_base64(&[u(3)]).is_err());
}

#[test]
fn tables_from_notation() {
    let s = table("|a|b|\n|1|2|\n", "class=\"t\"").unwrap();
    assert_eq!(s, "<table class=\"t\">\n<tr><td>a</td><td>b</td></tr>\n<tr><td>1</td><td>2</td></tr>\n</table>\n");
    let h = table("*|h1|h2|\n|a|b|\n-|c|d|\n", "x").unwrap();
    assert_eq!(h, "<table x>\n<tr><th>h1</th><th>h2</th></tr>\n<tr><td>a c</td><td>b d</td></tr>\n</table>\n");
    let mut out = String::from("x");
    write_row(&mut out, &["a".to_string(), "b".to_string()], true);
    assert_eq!(out, "x<tr><th>a</th><th>b</th></tr>\n");
}

#[test]
fn folder_helpers() {
    assert_eq!(safe_path("/site", "pages/a.md"), Some("/site/pages/a.md".to_string()));
    assert_eq!(safe_path("/site", "/etc/passwd"), None);
    assert_eq!(safe_path("/base", "../etc/passwd"), None);
    assert_eq!(safe_path("/base", "a/../../x"), None);
    assert_eq!(safe_path("/base", "a/..b/c"), Some("/base/a/..b/c".to_string()));
    assert!(scan_hides("_draft.md"));
    assert!(!scan_hides("post.md"));
    let e = scan_entry(&default_func_man(), "/s/p/a.md", "p", "a.md", "{{export title = \"T\"}}body");
    same(e, TData::Dict(vec![
            ("item_full_path".to_string(), text("/s/p/a.md")),
            ("item_path".to_string(), text("p")),
            ("item_file".to_string(), text("a.md")),
            ("title".to_string(), text("T")),
        ]));
}

fn tm_missing_message() -> String {
    let mut tm = BasicTemps::new();
    tm.get_t("missing").unwrap_err().to_string()
}

#[test]
fn managers_and_params() {
    let fm = BasicFuncs::new().with_math();
    assert_eq!(fm.call_func("add", &[u(1), u(2)]).unwrap().unwrap(), u(3));
    assert!(fm.call_func("cat", &[]).is_none());
    assert_eq!(fm.descriptions().len(), 7);
    assert_eq!(
        fm.descriptions()[0],
        ("add".to_string(), "(number...)->number : Sum all the numbers".to_string())
    );
    let d = default_func_man().descriptions();
    assert!(d.contains(&("neq".to_string(), "(A,B...)->bool : Is A different to all the B's".to_string())));
    assert_eq!(tm_missing_message(), "Template not found");
    assert_eq!(NoTemplates.get_t("x").unwrap_err().to_string(), "No Templates on \"NoTemplates\" type");
    let mut tm = BasicTemps::new();
    let t = TreeTemplate::from_str("T{{$0}}").unwrap();
    tm.insert_t("t".to_string(), t);
    assert!(tm.get_t("t").is_ok());
    assert!(tm.get_t("missing").is_err());
    let kv = KV("name".to_string(), u(4));
    assert_eq!(kv.get_v(&[VarPart::Id("name".to_string())]), Some(u(4)));
    assert_eq!(kv.get_v(&[VarPart::Id("other".to_string())]), None);
    let v: Vec<&str> = vec!["a", "b"];
    assert_eq!(v.get_v(&[VarPart::Num(1)]), Some(text("b")));
    assert_eq!(TData::from("s".to_string()), text("s"));
    assert_eq!(TData::from(3usize), u(3));
    same(TData::from_texts(&["p", "q"]), TData::List(vec![text("p"), text("q")]));
}

#[test]
fn o_flip_reverses_when_asked() {
    assert_eq!(o_flip(Ordering::Less, true), Ordering::Greater);
    assert_eq!(o_flip(Ordering::Less, false), Ordering::Less);
    assert_eq!(o_flip(Ordering::Equal, true), Ordering::Equal);
}

#[test]
fn value_equality_and_order_follow_numbers() {
    assert!(u(3) == TData::Int(3));
    assert!(TData::Float("1.5".to_string()) == TData::Float("1.5".to_string()));
    assert!(TData::Float("NaN".to_string()) != TData::Float("NaN".to_string()));
    assert!(u(2) == TData::Float("2".to_string()));
    assert!(TData::List(vec![]) != TData::List(vec![]));
    assert!(text("a") != u(1));
    assert!(u(2) < TData::Int(3));
    assert!(text("apple") < text("banana"));
    assert!(TData::Float("2.5".to_string()) > u(2));
    assert_eq!(u(1).partial_cmp(&u(1)), Some(Ordering::Equal));
}
