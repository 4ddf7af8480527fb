use backend::analyzer::template_engine::{RenderError, TemplateEngine};
use std::collections::HashMap;

fn params(pairs: &[(&str, &str)]) -> HashMap<String, String> {
    let mut m = HashMap::new();
    for (k, v) in pairs {
        m.insert(k.to_string(), v.to_string());
    }
    m
}

fn entries(pairs: &[(&str, &str)]) -> Vec<(String, String)> {
    pairs.iter().map(|(k, v)| (k.to_string(), v.to_string())).collect()
}

#[test]
fn render_replaces_every_placeholder() {
    let mut engine = TemplateEngine::new();
    let r = engine.render("SELECT {a}, {b} FROM t", &params(&[("a", "1"), ("b", "2")]));
    assert_eq!(r, Ok("SELECT 1, 2 FROM t".to_string()));
}

#[test]
fn render_replaces_repeated_placeholder() {
    let mut engine = TemplateEngine::new();
    let r = engine.render("{a}+{a}={b}", &params(&[("a", "1"), ("b", "2")]));
    assert_eq!(r, Ok("1+1=2".to_string()));
}

#[test]
fn render_without_parameter_fails() {
    let mut engine = TemplateEngine::new();
    let r = engine.render("SELECT {col}", &params(&[]));
    assert_eq!(r, Err(RenderError::UnresolvedPlaceholder));
}

#[test]
fn render_unknown_placeholder_fails() {
    let mut engine = TemplateEngine::new();
    let r = engine.render("{unknown}", &params(&[("known", "1")]));
    assert_eq!(r, Err(RenderError::UnresolvedPlaceholder));
}

#[test]
fn render_returns_cached_text_for_same_template() {
    let mut engine = TemplateEngine::new();
    let first = engine.render("SELECT {x};", &params(&[("x", "1")]));
    assert_eq!(first, Ok("SELECT 1;".to_string()));
    let second = engine.render("SELECT {x};", &params(&[("x", "2")]));
    assert_eq!(second, Ok("SELECT 1;".to_string()));
}

#[test]
fn failed_render_is_not_cached() {
    let mut engine = TemplateEngine::new();
    let first = engine.render("SELECT {x};", &params(&[]));
    assert_eq!(first, Err(RenderError::UnresolvedPlaceholder));
    let second = engine.render("SELECT {x};", &params(&[("x", "2")]));
    assert_eq!(second, Ok("SELECT 2;".to_string()));
}

#[test]
fn fresh_engines_agree() {
    let p = params(&[("table_name", "issuers"), ("id", "123")]);
    let t = "SELECT * FROM {table_name} WHERE id = {id};";
    let mut one = TemplateEngine::new();
    let mut two = TemplateEngine::new();
    let a = one.render(t, &p);
    let b = two.render(t, &p);
    assert_eq!(a, Ok("SELECT * FROM issuers WHERE id = 123;".to_string()));
    assert_eq!(a, b);
}

#[test]
fn lone_brace_passes_validation() {
    let mut engine = TemplateEngine::new();
    assert_eq!(engine.render("a { b", &params(&[])), Ok("a { b".to_string()));
    assert_eq!(engine.render("a } b", &params(&[])), Ok("a } b".to_string()));
}

#[test]
fn unpaired_braces_fail_validation() {
    let mut engine = TemplateEngine::new();
    assert_eq!(engine.render("} and {", &params(&[])), Err(RenderError::UnresolvedPlaceholder));
}

#[test]
fn render_entries_applies_in_list_order() {
    let mut engine = TemplateEngine::new();
    let r = engine.render_entries("{x{a}y}", &entries(&[("a", ""), ("xy", "done")]));
    assert_eq!(r, Ok("done".to_string()));
    let mut other = TemplateEngine::new();
    let r = other.render_entries("{x{a}y}", &entries(&[("xy", "done"), ("a", "")]));
    assert_eq!(r, Err(RenderError::UnresolvedPlaceholder));
}

#[test]
fn render_entries_does_not_rescan_inserted_text() {
    let mut engine = TemplateEngine::new();
    let r = engine.render_entries("{a}", &entries(&[("a", "{a"), ("b", "x")]));
    assert_eq!(r, Ok("{a".to_string()));
}

#[test]
fn render_entries_hits_cache() {
    let mut engine = TemplateEngine::new();
    assert_eq!(engine.render_entries("v={v}", &entries(&[("v", "1")])), Ok("v=1".to_string()));
    assert_eq!(engine.render_entries("v={v}", &entries(&[])), Ok("v=1".to_string()));
}

#[test]
fn render_keeps_non_ascii_text() {
    let mut engine = TemplateEngine::new();
    let r = engine.render("é{k}ü", &params(&[("k", "ß")]));
    assert_eq!(r, Ok("éßü".to_string()));
}

#[test]
fn error_message_text() {
    assert_eq!(
        RenderError::UnresolvedPlaceholder.message(),
        "Missing parameter for one or more placeholders."
    );
}

#[test]
fn extend_query_strips_terminator() {
    assert_eq!(TemplateEngine::extend_query("SELECT 1;", "ORDER BY x"), "SELECT 1 ORDER BY x");
}

#[test]
fn extend_query_without_terminator() {
    assert_eq!(TemplateEngine::extend_query("SELECT 1", "ORDER BY x"), "SELECT 1 ORDER BY x");
}

#[test]
fn extend_query_strips_one_terminator_only() {
    assert_eq!(TemplateEngine::extend_query("SELECT 1;;", "ORDER BY x"), "SELECT 1; ORDER BY x");
}

#[test]
fn extend_query_keeps_trailing_space_and_clause() {
    assert_eq!(TemplateEngine::extend_query("SELECT 1; ", "LIMIT 1;"), "SELECT 1;  LIMIT 1;");
    assert_eq!(TemplateEngine::extend_query("", ""), " ");
    assert_eq!(TemplateEngine::extend_query(";", "x"), " x");
}

#[test]
fn render_agrees_with_render_entries_for_one_parameter() {
    let mut by_map = TemplateEngine::new();
    let mut by_list = TemplateEngine::new();
    let t = "SELECT {id}, '{id}' FROM t WHERE x = {id};";
    let a = by_map.render(t, &params(&[("id", "7")]));
    let b = by_list.render_entries(t, &entries(&[("id", "7")]));
    assert_eq!(a, Ok("SELECT 7, '7' FROM t WHERE x = 7;".to_string()));
    assert_eq!(a, b);
}

#[test]
fn value_with_braces_fails_validation() {
    let mut engine = TemplateEngine::new();
    let r = engine.render("v={v}", &params(&[("v", "{}")]));
    assert_eq!(r, Err(RenderError::UnresolvedPlaceholder));
}

#[test]
fn extended_template_renders_on_its_own() {
    let mut engine = TemplateEngine::new();
    let p = params(&[("table_name", "issuers"), ("id", "123")]);
    let base = "SELECT * FROM {table_name} WHERE id = {id};";
    assert_eq!(
        engine.render(base, &p),
        Ok("SELECT * FROM issuers WHERE id = 123;".to_string())
    );
    let extended = TemplateEngine::extend_query(base, "ORDER BY created_at DESC;");
    assert_eq!(extended, "SELECT * FROM {table_name} WHERE id = {id} ORDER BY created_at DESC;");
    assert_eq!(
        engine.render(&extended, &p),
        Ok("SELECT * FROM issuers WHERE id = 123 ORDER BY created_at DESC;".to_string())
    );
}

#[test]
fn engines_do_not_share_their_caches() {
    let mut one = TemplateEngine::new();
    let mut two = TemplateEngine::new();
    assert_eq!(one.render("{x}", &params(&[("x", "1")])), Ok("1".to_string()));
    assert_eq!(two.render("{x}", &params(&[("x", "2")])), Ok("2".to_string()));
    assert_eq!(one.render("{x}", &params(&[])), Ok("1".to_string()));
    assert_eq!(two.render("{x}", &params(&[])), Ok("2".to_string()));
}
