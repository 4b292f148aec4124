use templito::err::Error;
use templito::func_man::FuncManager;
use templito::funcs::registry::{default_func_man, BasicFuncs};
use templito::pipeline::Pipeline;
use templito::tdata::TData;
use templito::temp_man::{BasicTemps, NoTemplates};
use templito::template::{FlatItem, FlatTemplate, TreeTemplate};

fn text(s: &str) -> TData {
    TData::String(s.to_string())
}

fn float(f: f64) -> TData {
    TData::Float(f.to_string())
}

#[test]
fn can_parse_simple_template() {
    let p = FlatTemplate::from_str("{{let x = 3}}").unwrap();
    assert_eq!(
        p,
        FlatTemplate {
            v: vec![FlatItem::Let(vec![(
                "x".to_string(),
                Pipeline::Lit(TData::UInt(3))
            )])]
        }
    );
}

#[test]
fn let_assign_vars() {
    let p = TreeTemplate::from_str("{{let x = 3\ny=\"poo\"}}{{$x}} + {{$y}}").unwrap();
    let fm = default_func_man();
    let res = p.run(&[], &mut NoTemplates, &fm).unwrap();
    assert_eq!(res, "3 + poo");
}

#[test]
fn cat_can_print_all_members() {
    let tt = TreeTemplate::from_str(r#"Hello{{cat $0 "go" 3}} "#).unwrap();
    let data = text("GOBBLE");
    let fm = default_func_man();
    let mut tm = BasicTemps::new();
    let res = tt.run(&[data], &mut tm, &fm).unwrap();
    assert_eq!(res, "HelloGOBBLEgo3 ");
}

#[test]
fn test_if() {
    let tt = TreeTemplate::from_str(
        r#"It's a {{if $1}}YES {{cat "from " $0}}{{else}}NO {{cat "from " $0}}{{/if}} too"#,
    )
    .unwrap();
    let fm = default_func_man();
    let mut tm = BasicTemps::new();
    let res = tt.run(&[text("HIM"), TData::Bool(true)], &mut tm, &fm).unwrap();
    assert_eq!(res, "It's a YES from HIM too");
    let res2 = tt.run(&[text("HIM"), TData::Bool(false)], &mut tm, &fm).unwrap();
    assert_eq!(res2, "It's a NO from HIM too", "false is not false");
}

#[test]
fn test_for_array() {
    let tt =
        TreeTemplate::from_str(r#"Looping {{for k y in $0}}(k={{$k}},y={{$y}}){{/for}}"#).unwrap();
    let data = TData::List(vec![text("zero"), text("one"), text("two"), text("three")]);
    let mut tm = BasicTemps::new();
    let fm = default_func_man();
    let res = tt.run(&[data], &mut tm, &fm).unwrap();
    assert_eq!(
        res,
        "Looping (k=0,y=zero)(k=1,y=one)(k=2,y=two)(k=3,y=three)"
    );
}

#[test]
fn first_gets_first_valid() {
    let tt = TreeTemplate::from_str(
        r#"{{select $0 "MOO" "NOO"}} is\    
        \ {{select $1 null $10 $2 $3}} {{first $10 null $3}} "#,
    )
    .unwrap();
    let mut tm = BasicTemps::new();
    let fm = default_func_man();
    let res = tt
        .run(&[TData::Bool(true), TData::Int(2), text("HELLO"), text("GOODBYE")], &mut tm, &fm)
        .unwrap();
    assert_eq!(res, "MOO is HELLO GOODBYE ");
}

/// A function manager that does arithmetic on floats too, as an embedding program would, and
/// leaves everything else to the default functions.
struct FloatMath {
    base: BasicFuncs,
}

fn as_f64(d: &TData) -> Option<f64> {
    match d {
        TData::UInt(u) => Some(*u as f64),
        TData::Int(i) => Some(*i as f64),
        TData::Float(t) => t.parse::<f64>().ok(),
        _ => None,
    }
}

impl FuncManager for FloatMath {
    fn call_func(&self, k: &str, args: &[TData]) -> Option<Result<TData, Error>> {
        let has_float = args.iter().any(|a| matches!(a, TData::Float(_)));
        if has_float && (k == "add" || k == "mul") && !args.is_empty() {
            let mut acc = match as_f64(&args[0]) {
                Some(v) => v,
                None => return Some(Err(Error::Str("not a number"))),
            };
            for a in &args[1..] {
                let v = match as_f64(a) {
                    Some(v) => v,
                    None => return Some(Err(Error::Str("not a number"))),
                };
                if k == "add" {
                    acc += v;
                } else {
                    acc *= v;
                }
            }
            return Some(Ok(float(acc)));
        }
        self.base.call_func(k, args)
    }

    fn descriptions(&self) -> Vec<(String, String)> {
        self.base.descriptions()
    }
}

#[test]
fn json_math() {
    let tt =
        TreeTemplate::from_str(r#"3*({{$0}}+{{$1}}+{{$2}})={{mul 3 (add $0 $1 $2)}}"#).unwrap();
    let mut tm = BasicTemps::new();
    let fm = FloatMath { base: default_func_man() };
    let res = tt.run(&[TData::Int(3), float(5.2), TData::Int(100)], &mut tm, &fm).unwrap();
    assert_eq!(res, "3*(3+5.2+100)=324.6");
}

#[test]
fn can_access_arrays() {
    let tt = TreeTemplate::from_str(r#"{{$0.0}}+{{$0.1}}+{{$0.2}}"#).unwrap();
    let mut tm = BasicTemps::new();
    let fm = default_func_man();
    let res = tt
        .run(&[TData::List(vec![TData::Int(3), float(5.2), TData::Int(100)])], &mut tm, &fm)
        .unwrap();
    assert_eq!(res, "3+5.2+100");
}

#[test]
fn at_can_be_used_in_params() {
    let tt = TreeTemplate::from_str(r#"{{@cat "Food" @ "noobs"}} {{$0}} {{/cat}}!!"#).unwrap();
    let mut tm = BasicTemps::new();
    let fm = default_func_man();
    let res = tt.run(&[text("is for")], &mut tm, &fm).unwrap();
    assert_eq!(res, "Food is for noobs!!");
}

#[test]
fn can_call_defined_templates() {
    let tt =
        TreeTemplate::from_str(r#"{{define good}}{{$0}} > {{$1}}{{/define}}{{run $good 3 4}}"#)
            .unwrap();
    let mut tm = BasicTemps::new();
    let fm = default_func_man();
    let res = tt.run(&[text("is for")], &mut tm, &fm).unwrap();
    assert_eq!(res, "3 > 4");
}

#[test]
fn test_toml_values_come_out_correct() {
    let tt = TreeTemplate::from_str(
        r#"{{let n='5';b='false';s="hat"}}{{if $b}}BTRUEERROR{{else}}{{$n}}>{{$0}}*{{$s}}{{/if}}"#,
    )
    .unwrap();
    let data = text("GOBBLE");
    let fm = default_func_man();
    let mut tm = BasicTemps::new();
    let res = tt.run(&[data], &mut tm, &fm).unwrap();
    assert_eq!(res, "5>GOBBLE*hat");
}

#[test]
fn quoted_word_that_is_no_literal_names_a_command() {
    let tt = TreeTemplate::from_str(r#"{{let n='cat' "a" "b"}}{{$n}}"#).unwrap();
    let fm = default_func_man();
    let res = tt.run(&[], &mut NoTemplates, &fm).unwrap();
    assert_eq!(res, "ab");
}

fn run_err(src: &str) -> String {
    let fm = default_func_man();
    match TreeTemplate::from_str(src) {
        Ok(t) => t.run(&[], &mut NoTemplates, &fm).unwrap_err().to_string(),
        Err(e) => e.to_string(),
    }
}

#[test]
fn error_messages_name_the_fault() {
    assert_eq!(run_err("{{if true}}a"), "Expected '/if' 'else' or 'elif'");
    assert_eq!(run_err("a{{else}}b"), "Unexpected Else");
    assert_eq!(run_err("a{{/if}}"), "Unexpected EndIf");
    assert_eq!(run_err("a{{elif $x}}b"), "Unexpected Elif(Var([Id(\"x\")]))");
    assert_eq!(
        run_err("a{{elif eq $x 1}}b"),
        "Unexpected Elif(Command(\"eq\", [Var([Id(\"x\")]), Lit(UInt(1))]))"
    );
    assert_eq!(run_err("{{for k v in 3}}x{{/for}}"), "Cannot loop over non map or list");
    assert_eq!(run_err("{{select 1 2}}"), "n_sel requires at least 1 test and 2 possible values");
    assert_eq!(
        run_err("{{select 5 \"a\" \"b\"}}"),
        "select first param must choose return a value less than the length of the rest of the args"
    );
    assert!(run_err("{{select 1/2/2020 \"a\" \"b\"}}").starts_with("As Bool failed on "));
    assert_eq!(run_err("{{nosuchthing 1}}"), "Getting template nosuchthing");
}

#[test]
fn float_exponents_are_bounded() {
    let fm = default_func_man();
    let t = TreeTemplate::from_str("{{1.5e2}}").unwrap();
    assert_eq!(t.run(&[], &mut NoTemplates, &fm).unwrap(), "150");
    assert!(TreeTemplate::from_str("{{1.0e99999}}").is_err());
}
