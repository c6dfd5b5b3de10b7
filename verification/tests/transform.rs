//! End-to-end scenarios for the scrubbing pass, driven through the public
//! transform entry on hand-built program trees.

use remove_matched_charset::ast::tpl_seg;
use remove_matched_charset::ast::LinkKind;
use remove_matched_charset::ast::Node;
use remove_matched_charset::process_transform;
use remove_matched_charset::Config;

const CJK: &str = "[\\u4E00-\\u9FFF]";

fn cjk_config() -> Config {
    Config { replace_with: None, matches: vec![String::from(CJK)] }
}

fn url_config(replace_with: Option<&str>) -> Config {
    Config {
        replace_with: replace_with.map(String::from),
        matches: vec![String::from("abc.com|cde.org")],
    }
}

fn str_lit(value: &str) -> Node {
    Node::StrLit { value: String::from(value) }
}

fn transform(program: Node, config: Config) -> Node {
    match process_transform(program, config) {
        Ok(t) => t,
        Err(e) => panic!("pattern {} refused", e.index),
    }
}

fn str_value(n: &Node) -> &str {
    match n {
        Node::StrLit { value } => value.as_str(),
        _ => panic!("not a string literal"),
    }
}

fn children(n: &Node) -> &Vec<Node> {
    match n {
        Node::Link { children, .. } => children,
        Node::Call { children, .. } => children,
        Node::Other { children } => children,
        _ => panic!("not an interior node"),
    }
}

#[test]
fn should_not_change() {
    let program = Node::Other { children: vec![str_lit("transform")] };
    let out = transform(program, cjk_config());
    assert_eq!(str_value(&children(&out)[0]), "transform");
}

#[test]
fn should_remove_in_method_calls() {
    let call = Node::Call {
        import_callee: false,
        children: vec![str_lit("transform\u{4E2D}\u{6587}")],
    };
    let program = Node::Other { children: vec![call] };
    let out = transform(program, cjk_config());
    assert_eq!(str_value(&children(&children(&out)[0])[0]), "transform");
}

#[test]
fn should_remove_in_object_property() {
    let program = Node::Other {
        children: vec![str_lit("\u{89C6}\u{9891}\u{4E0B}\u{8F7D}\u{9519}\u{8BEF}")],
    };
    let out = transform(program, cjk_config());
    assert_eq!(str_value(&children(&out)[0]), "");
}

#[test]
fn should_left_english_and_special_characters() {
    let text = "\u{53EA}\u{8981}\u{89C6}\u{9891}\u{4E0B}\u{8F7D}xhr\u{9519}\u{8BEF}\u{5C31}\u{4F7F}\u{7528}\u{FF0C}\u{6B64}\u{7C7B}\u{578B}";
    let program = Node::Other { children: vec![str_lit(text)] };
    let out = transform(program, cjk_config());
    assert_eq!(str_value(&children(&out)[0]), "xhr\u{FF0C}");
}

#[test]
fn should_remove_url() {
    let program = Node::Other { children: vec![str_lit("https://abc.com/faker-url")] };
    let out = transform(program, url_config(None));
    assert_eq!(str_value(&children(&out)[0]), "https:///faker-url");
}

#[test]
fn should_replace_as_passed_char() {
    let program = Node::Other { children: vec![str_lit("https://abc.com/faker-url")] };
    let out = transform(program, url_config(Some("*")));
    assert_eq!(str_value(&children(&out)[0]), "https://*******/faker-url");
}

#[test]
fn filler_is_cycled_to_the_matched_span_length() {
    let program = Node::Other { children: vec![str_lit("https://abc.com/faker-url")] };
    let out = transform(program, url_config(Some("xy")));
    assert_eq!(str_value(&children(&out)[0]), "https://xyxyxyx/faker-url");
}

#[test]
fn should_not_remove_slack() {
    let program = Node::Other { children: vec![str_lit("\\\\")] };
    let out = transform(program, cjk_config());
    assert_eq!(str_value(&children(&out)[0]), "\\\\");
}

#[test]
fn should_not_remove_slack_from_tpl() {
    let seg = tpl_seg(String::from("\\\\\u{4E2D}\u{6587}"), false);
    let program = Node::Other { children: vec![seg] };
    let out = transform(program, cjk_config());
    match &children(&out)[0] {
        Node::TplSeg { raw, cooked, tail } => {
            assert_eq!(raw, "\\\\");
            assert_eq!(cooked.as_deref(), Some("\\"));
            assert!(!tail);
        },
        _ => panic!("not a template segment"),
    }
}

#[test]
fn should_remove_from_tpl() {
    let seg = tpl_seg(String::from("https://abc.com/faker-url/"), true);
    let program = Node::Other { children: vec![seg] };
    let out = transform(program, url_config(None));
    match &children(&out)[0] {
        Node::TplSeg { raw, cooked, tail } => {
            assert_eq!(raw, "https:///faker-url/");
            assert_eq!(cooked.as_deref(), Some("https:///faker-url/"));
            assert!(tail);
        },
        _ => panic!("not a template segment"),
    }
}

#[test]
fn tpl_seg_derives_cooked_from_raw() {
    match tpl_seg(String::from("a\\nb\\u0041"), false) {
        Node::TplSeg { raw, cooked, .. } => {
            assert_eq!(raw, "a\\nb\\u0041");
            assert_eq!(cooked.as_deref(), Some("a\nbA"));
        },
        _ => panic!("not a template segment"),
    }
}

#[test]
fn unmatched_tpl_keeps_its_cooked_form() {
    let seg = Node::TplSeg { raw: String::from("plain"), cooked: None, tail: true };
    let program = Node::Other { children: vec![seg] };
    let out = transform(program, cjk_config());
    match &children(&out)[0] {
        Node::TplSeg { raw, cooked, .. } => {
            assert_eq!(raw, "plain");
            assert!(cooked.is_none());
        },
        _ => panic!("not a template segment"),
    }
}

#[test]
fn should_remove_chinese_on_jsx() {
    let inner = Node::Other {
        children: vec![Node::JsxText {
            raw: String::from("\u{6253}\u{5F00}"),
            value: String::from("\u{6253}\u{5F00}"),
        }],
    };
    let outer = Node::Other {
        children: vec![
            Node::JsxText {
                raw: String::from("\u{5173}\u{95ED}"),
                value: String::from("\u{5173}\u{95ED}"),
            },
            inner,
        ],
    };
    let out = transform(outer, cjk_config());
    match &children(&out)[0] {
        Node::JsxText { raw, value } => {
            assert_eq!(raw, "");
            assert_eq!(value, "");
        },
        _ => panic!("not a markup text node"),
    }
    match &children(&children(&out)[1])[0] {
        Node::JsxText { raw, value } => {
            assert_eq!(raw, "");
            assert_eq!(value, "");
        },
        _ => panic!("not a markup text node"),
    }
}

#[test]
fn should_remove_chinese_on_jsx_attr() {
    let program = Node::Other {
        children: vec![Node::Other { children: vec![str_lit("\u{4E2D}\u{6587}")] }],
    };
    let out = transform(program, cjk_config());
    assert_eq!(str_value(&children(&children(&out)[0])[0]), "");
}

#[test]
fn should_not_remove_from_import_decl() {
    let import = Node::Link {
        kind: LinkKind::ImportDecl,
        children: vec![str_lit("/abc.com/faker-url")],
    };
    let program = Node::Other { children: vec![import] };
    let out = transform(program, url_config(Some("*")));
    assert_eq!(str_value(&children(&children(&out)[0])[0]), "/abc.com/faker-url");
}

#[test]
fn should_not_remove_from_import_specifier() {
    let spec = Node::Link {
        kind: LinkKind::ImportSpecifier,
        children: vec![str_lit("abc.com")],
    };
    let program = Node::Other { children: vec![spec] };
    let out = transform(program, url_config(None));
    assert_eq!(str_value(&children(&children(&out)[0])[0]), "abc.com");
}

#[test]
fn should_not_remove_from_dynamic_import() {
    let call = Node::Call { import_callee: true, children: vec![str_lit("/abc.com/faker-url")] };
    let program = Node::Other { children: vec![call] };
    let out = transform(program, url_config(None));
    assert_eq!(str_value(&children(&children(&out)[0])[0]), "/abc.com/faker-url");
}

#[test]
fn should_not_remove_from_all_export() {
    let export = Node::Link {
        kind: LinkKind::ExportAll,
        children: vec![str_lit("/abc.com/faker-url")],
    };
    let program = Node::Other { children: vec![export] };
    let out = transform(program, url_config(None));
    assert_eq!(str_value(&children(&children(&out)[0])[0]), "/abc.com/faker-url");
}

#[test]
fn should_not_remove_from_named_export() {
    let export = Node::Link {
        kind: LinkKind::NamedExport,
        children: vec![str_lit("/abc.com/faker-url")],
    };
    let program = Node::Other { children: vec![export] };
    let out = transform(program, url_config(None));
    assert_eq!(str_value(&children(&children(&out)[0])[0]), "/abc.com/faker-url");
}

#[test]
fn should_not_recurse_into_default_export() {
    let export = Node::Link {
        kind: LinkKind::ExportDefaultDecl,
        children: vec![str_lit("\u{4E2D}\u{6587}")],
    };
    let program = Node::Other { children: vec![export] };
    let out = transform(program, cjk_config());
    assert_eq!(str_value(&children(&children(&out)[0])[0]), "\u{4E2D}\u{6587}");
}

#[test]
fn ordinary_calls_are_still_visited() {
    let call = Node::Call { import_callee: false, children: vec![str_lit("abc.com")] };
    let program = Node::Other { children: vec![call] };
    let out = transform(program, url_config(None));
    assert_eq!(str_value(&children(&children(&out)[0])[0]), "");
}

#[test]
fn rules_run_in_order_over_previous_output() {
    let config = Config {
        replace_with: None,
        matches: vec![String::from("b"), String::from("ac")],
    };
    let program = Node::Other { children: vec![str_lit("abc")] };
    let out = transform(program, config);
    assert_eq!(str_value(&children(&out)[0]), "");

    let reversed = Config {
        replace_with: None,
        matches: vec![String::from("ac"), String::from("b")],
    };
    let program = Node::Other { children: vec![str_lit("abc")] };
    let out = transform(program, reversed);
    assert_eq!(str_value(&children(&out)[0]), "ac");
}

#[test]
fn deletion_pass_is_idempotent_here() {
    let program = Node::Other { children: vec![str_lit("transform\u{4E2D}\u{6587}")] };
    let once = transform(program, cjk_config());
    assert_eq!(str_value(&children(&once)[0]), "transform");
    let twice = transform(once, cjk_config());
    assert_eq!(str_value(&children(&twice)[0]), "transform");
}

#[test]
fn default_config_is_a_no_op() {
    let program = Node::Other { children: vec![str_lit("\u{4E2D}\u{6587}")] };
    let out = transform(program, Config::default());
    assert_eq!(str_value(&children(&out)[0]), "\u{4E2D}\u{6587}");
}

#[test]
fn invalid_pattern_fails_before_any_rewrite() {
    let program = Node::Other { children: vec![str_lit("abc")] };
    let config = Config { replace_with: None, matches: vec![String::from("(")] };
    match process_transform(program, config) {
        Ok(_) => panic!("an unclosed group must be refused"),
        Err(e) => assert_eq!(e.index, 0),
    }
}

#[test]
fn first_invalid_pattern_is_reported() {
    let program = Node::Other { children: vec![str_lit("abc")] };
    let config = Config {
        replace_with: None,
        matches: vec![String::from("[a-z]+"), String::from("("), String::from("[")],
    };
    match process_transform(program, config) {
        Ok(_) => panic!("an unclosed group must be refused"),
        Err(e) => assert_eq!(e.index, 1),
    }
}
