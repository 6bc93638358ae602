use inline_globals::config::GlobalPassOption;
use inline_globals::parse::{literal_of, LiteralValue};
use inline_globals::table::{resolve, GlobalError, InlineGlobals};
use inline_globals::{make_global_label, prepare_source};

fn pairs(v: &[(&str, &str)]) -> Vec<(String, String)> {
    v.iter().map(|(a, b)| (a.to_string(), b.to_string())).collect()
}

fn build(cfg: &[(&str, &str)], env: &[(&str, &str)]) -> Result<InlineGlobals, GlobalError> {
    let opt = GlobalPassOption { vars: pairs(cfg) };
    opt.build(pairs(env))
}

fn parse_direct(src: &str) -> swc_ecma_ast::Expr {
    let cm = swc_common::SourceMap::default();
    let fm = cm.new_source_file(
        swc_common::FileName::Custom("direct".to_string()).into(),
        src.to_string(),
    );
    let mut errs = Vec::new();
    let expr = swc_ecma_parser::parse_file_as_expr(
        &fm,
        Default::default(),
        Default::default(),
        None,
        &mut errs,
    )
    .expect("direct parse failed");
    assert!(errs.is_empty());
    *expr
}

#[test]
fn resolves_valid_expression_like_direct_parse() {
    let table = build(&[("SUM", "1+1")], &[]).expect("build failed");
    let expr = table.globals.get("SUM").expect("SUM missing");
    assert_eq!(*expr, parse_direct("1+1"));
}

#[test]
fn env_value_resolves_to_string_literal() {
    let table = build(&[], &[("GREETING", "hello")]).expect("build failed");
    let expr = table.envs.get("GREETING").expect("GREETING missing");
    match literal_of(expr) {
        LiteralValue::Str(s) => assert_eq!(s, "hello"),
        _ => panic!("environment value did not resolve to a string literal"),
    }
    assert_eq!(*expr, parse_direct("'hello'"));
}

#[test]
fn env_value_with_spaces_keeps_text() {
    let table = build(&[], &[("MSG", "hello world")]).expect("build failed");
    let expr = table.envs.get("MSG").expect("MSG missing");
    match literal_of(expr) {
        LiteralValue::Str(s) => assert_eq!(s, "hello world"),
        _ => panic!("environment value did not resolve to a string literal"),
    }
}

#[test]
fn empty_env_value_is_empty_string_literal() {
    let table = build(&[], &[("EMPTY", "")]).expect("build failed");
    let expr = table.envs.get("EMPTY").expect("EMPTY missing");
    match literal_of(expr) {
        LiteralValue::Str(s) => assert_eq!(s, ""),
        _ => panic!("empty environment value did not resolve to a string literal"),
    }
}

#[test]
fn env_value_with_quote_fails_to_parse() {
    let r = build(&[], &[("Q", "a'b")]);
    match r {
        Err(GlobalError::Parse { name, label, .. }) => {
            assert_eq!(name, "Q");
            assert_eq!(label, "GLOBAL_Q");
        }
        _ => panic!("embedded quote should make the synthesized source malformed"),
    }
}

#[test]
fn config_numeric_is_not_string_literal() {
    let table = build(&[("N", "42")], &[]).expect("build failed");
    let expr = table.globals.get("N").expect("N missing");
    assert!(matches!(literal_of(expr), LiteralValue::Other));
    assert_eq!(*expr, parse_direct("42"));
}

#[test]
fn config_boolean_is_boolean_literal() {
    let table = build(&[("FLAG", "true")], &[]).expect("build failed");
    let expr = table.globals.get("FLAG").expect("FLAG missing");
    match literal_of(expr) {
        LiteralValue::Bool(b) => assert!(b),
        _ => panic!("boolean text did not resolve to a boolean literal"),
    }
}

#[test]
fn config_member_path_is_not_string_literal() {
    let table = build(&[("P", "x.y.z")], &[]).expect("build failed");
    let expr = table.globals.get("P").expect("P missing");
    assert!(matches!(literal_of(expr), LiteralValue::Other));
    assert_eq!(*expr, parse_direct("x.y.z"));
}

#[test]
fn build_is_deterministic() {
    let cfg = [("A", "1+1"), ("B", "true")];
    let env = [("HOME", "/home/user")];
    let t1 = build(&cfg, &env).expect("first build failed");
    let t2 = build(&cfg, &env).expect("second build failed");
    assert_eq!(t1.globals.len(), t2.globals.len());
    assert_eq!(t1.envs.len(), t2.envs.len());
    for i in 0..t1.globals.len() {
        assert_eq!(t1.globals.key_at(i), t2.globals.key_at(i));
        assert_eq!(t1.globals.expr_at(i), t2.globals.expr_at(i));
    }
    for i in 0..t1.envs.len() {
        assert_eq!(t1.envs.key_at(i), t2.envs.key_at(i));
        assert_eq!(t1.envs.expr_at(i), t2.envs.expr_at(i));
    }
}

#[test]
fn statement_fails_as_not_an_expression() {
    let r = build(&[("IF", "if (x) {}")], &[]);
    match r {
        Err(GlobalError::NotAnExpression { name, source }) => {
            assert_eq!(name, "IF");
            assert_eq!(source, "if (x) {}");
        }
        _ => panic!("a statement should not resolve to an expression"),
    }
}

#[test]
fn malformed_source_fails_as_parse_error() {
    let r = build(&[("BAD", "(1+2")], &[]);
    match r {
        Err(GlobalError::Parse { name, label, diagnostic }) => {
            assert_eq!(name, "BAD");
            assert_eq!(label, "GLOBAL_BAD");
            assert!(!diagnostic.is_empty());
        }
        _ => panic!("unbalanced parentheses should fail the parse"),
    }
}

#[test]
fn same_name_in_both_sources_stays_separate() {
    let table = build(&[("A", "1+1")], &[("A", "hello")]).expect("build failed");
    let from_cfg = table.globals.get("A").expect("A missing from globals");
    let from_env = table.envs.get("A").expect("A missing from envs");
    assert!(matches!(literal_of(from_cfg), LiteralValue::Other));
    match literal_of(from_env) {
        LiteralValue::Str(s) => assert_eq!(s, "hello"),
        _ => panic!("environment binding of A should be a string literal"),
    }
}

#[test]
fn debug_true_scenario() {
    let table = build(&[("__DEBUG__", "true")], &[]).expect("build failed");
    assert_eq!(table.globals.len(), 1);
    assert_eq!(table.envs.len(), 0);
    let expr = table.globals.get("__DEBUG__").expect("__DEBUG__ missing");
    match literal_of(expr) {
        LiteralValue::Bool(b) => assert!(b),
        _ => panic!("__DEBUG__ should be a boolean literal"),
    }
}

#[test]
fn later_duplicate_entry_wins() {
    let table = build(&[("K", "true"), ("K", "false")], &[]).expect("build failed");
    assert_eq!(table.globals.len(), 2);
    let expr = table.globals.get("K").expect("K missing");
    match literal_of(expr) {
        LiteralValue::Bool(b) => assert!(!b),
        _ => panic!("K should be a boolean literal"),
    }
}

#[test]
fn last_top_level_item_is_taken() {
    let expr = resolve("N", "1; true", false).expect("resolve failed");
    match literal_of(&expr) {
        LiteralValue::Bool(b) => assert!(b),
        _ => panic!("the last statement's expression should be taken"),
    }
}

#[test]
fn empty_source_is_not_an_expression() {
    let r = resolve("E", "", false);
    match r {
        Err(GlobalError::NotAnExpression { name, source }) => {
            assert_eq!(name, "E");
            assert_eq!(source, "");
        }
        _ => panic!("an empty program holds no expression"),
    }
}

#[test]
fn first_failing_entry_is_reported() {
    let r = build(&[("A", "("), ("B", "if (x) {}")], &[]);
    match r {
        Err(e) => assert_eq!(e.entry_name().as_str(), "A"),
        Ok(_) => panic!("build should fail on the first entry"),
    }
}

#[test]
fn config_errors_come_before_env_errors() {
    let r = build(&[("A", "1")], &[("Q", "a'b")]);
    match r {
        Err(e) => assert_eq!(e.entry_name().as_str(), "Q"),
        Ok(_) => panic!("build should fail on the environment entry"),
    }
}

#[test]
fn quoting_and_label_helpers() {
    assert_eq!(prepare_source("v", true), "'v'");
    assert_eq!(prepare_source("1+1", false), "1+1");
    assert_eq!(prepare_source("", true), "''");
    assert_eq!(make_global_label("X"), "GLOBAL_X");
}

#[test]
fn absent_name_is_not_found() {
    let table = build(&[("A", "1")], &[]).expect("build failed");
    assert!(table.globals.get("MISSING").is_none());
    assert!(table.envs.get("A").is_none());
}
