use jsx_data_id::ident::{compose_identifier, decimal_string, Frame};
use jsx_data_id::json::JsonScalar;
use jsx_data_id::options::{
    decode_entries, default_custom_property, default_custom_separator, default_dir_level,
    resolve_options, PluginOptions,
};
use jsx_data_id::path::{normalize, split_components, stem_of_name, PathContext};
use jsx_data_id::tree::{contains_str, maybe_inject, Attribute, Element, Node};
use jsx_data_id::visitor::{JSXVisitor, TransformVisitor};

fn el(name: &str, children: Vec<Node>) -> Element {
    Element { name: name.to_string(), attrs: vec![], children }
}

fn header_tree() -> Element {
    el(
        "View",
        vec![Node::Element(el("Logo", vec![Node::Other])), Node::Element(el("Content", vec![Node::Other]))],
    )
}

fn attr<'a>(e: &'a Element, name: &str) -> Option<&'a str> {
    e.attrs.iter().find(|a| a.name == name).map(|a| a.value.as_str())
}

fn child(e: &Element, i: usize) -> &Element {
    match &e.children[i] {
        Node::Element(c) => c,
        Node::Other => panic!("not an element"),
    }
}

fn run(raw: Option<&str>, tree: Element) -> Element {
    let (visitor, _) =
        TransformVisitor::new(Some("/src/client/Components/Common/Header.jsx"), Some("/"), raw);
    let mut program = vec![tree];
    visitor.visit_mut_program(&mut program);
    program.pop().unwrap()
}

#[test]
fn default_configuration_example() {
    let out = run(None, header_tree());
    assert_eq!(attr(&out, "data-id"), Some("Common_Header_View_0"));
    assert_eq!(attr(child(&out, 0), "data-id"), Some("Common_Header_Logo_0"));
    assert_eq!(attr(child(&out, 1), "data-id"), Some("Common_Header_Content_1"));
}

#[test]
fn ignore_node_names_example() {
    let out = run(Some(r#"{"ignoreNodeNames": true}"#), header_tree());
    assert_eq!(attr(&out, "data-id"), Some("Common_Header_0"));
    assert_eq!(attr(child(&out, 0), "data-id"), Some("Common_Header_0"));
    assert_eq!(attr(child(&out, 1), "data-id"), Some("Common_Header_1"));
}

#[test]
fn first_child_only_example() {
    let out = run(Some(r#"{"firstChildOnly": true}"#), header_tree());
    assert_eq!(attr(&out, "data-id"), Some("Common_Header_View_0"));
    assert_eq!(attr(child(&out, 0), "data-id"), Some("Common_Header_Logo_0"));
    assert_eq!(child(&out, 1).attrs.len(), 0);
}

#[test]
fn existing_attribute_is_kept() {
    for raw in [None, Some(r#"{"prefix": "p", "ignoreTreeDepth": true}"#)] {
        let mut tree = header_tree();
        tree.attrs.push(Attribute { name: "data-id".to_string(), value: "manual".to_string() });
        let out = run(raw, tree);
        assert_eq!(out.attrs.len(), 1);
        assert_eq!(attr(&out, "data-id"), Some("manual"));
    }
}

#[test]
fn malformed_payload_falls_back_to_defaults() {
    let (opts, failed) = resolve_options(Some("{not json"));
    assert!(failed);
    let (defaults, none_failed) = resolve_options(None);
    assert!(!none_failed);
    assert_eq!(opts.custom_property, defaults.custom_property);
    assert_eq!(opts.dir_level, 1);
    let a = run(Some("{not json"), header_tree());
    let b = run(None, header_tree());
    assert_eq!(attr(&a, "data-id"), attr(&b, "data-id"));
    assert_eq!(attr(child(&a, 1), "data-id"), attr(child(&b, 1), "data-id"));
}

#[test]
fn wrong_shape_falls_back_to_defaults() {
    for raw in [r#"{"dirLevel": "two"}"#, r#"{"dirLevel": -1}"#, r#"{"prefix": null}"#, r#"[1, 2]"#, r#"{"match": 3}"#] {
        let (opts, failed) = resolve_options(Some(raw));
        assert!(failed, "{}", raw);
        assert_eq!(opts.custom_separator, "_");
        assert_eq!(opts.prefix, "");
    }
}

#[test]
fn payload_fields_are_decoded() {
    let raw = r#"{"customProperty": "data-test", "customSeparator": "-", "dirLevel": 2, "prefix": "app", "addModuleClassNames": true, "match": null, "unknown": 5}"#;
    let (opts, failed) = resolve_options(Some(raw));
    assert!(!failed);
    assert_eq!(opts.custom_property, "data-test");
    assert_eq!(opts.custom_separator, "-");
    assert_eq!(opts.dir_level, 2);
    assert_eq!(opts.prefix, "app");
    assert!(opts.add_module_class_names);
    assert!(opts.match_pattern.is_none());
    assert!(!opts.ignore_tree_depth);
    let out = run(Some(raw), header_tree());
    assert_eq!(attr(&out, "data-test"), Some("app-Components-Common-Header-View-0"));
    assert_eq!(attr(child(&out, 1), "data-test"), Some("app-Components-Common-Header-View-Content-1"));
}

#[test]
fn decode_entries_reads_each_shape() {
    let es = vec![
        ("slashChar".to_string(), JsonScalar::Str("/".to_string())),
        ("omitFileName".to_string(), JsonScalar::Bool(true)),
        ("match".to_string(), JsonScalar::Str("Logo".to_string())),
    ];
    let opts = decode_entries(&es).unwrap();
    assert_eq!(opts.slash_char, "/");
    assert!(opts.omit_file_name);
    assert_eq!(opts.match_pattern.as_deref(), Some("Logo"));
    assert!(decode_entries(&vec![("omitFileName".to_string(), JsonScalar::UInt(1))]).is_none());
    assert!(decode_entries(&vec![("dirLevel".to_string(), JsonScalar::Other)]).is_none());
}

#[test]
fn slash_char_joins_directories() {
    let out = run(Some(r#"{"slashChar": "/", "dirLevel": 3}"#), header_tree());
    assert_eq!(attr(&out, "data-id"), Some("client/Components/Common_Header_View_0"));
}

#[test]
fn match_filters_identifiers() {
    let out = run(Some(r#"{"match": "Logo"}"#), header_tree());
    assert_eq!(out.attrs.len(), 0);
    assert_eq!(attr(child(&out, 0), "data-id"), Some("Common_Header_Logo_0"));
    assert_eq!(child(&out, 1).attrs.len(), 0);
}

#[test]
fn injecting_twice_is_a_no_op() {
    let once = run(None, header_tree());
    let twice = run(None, run(None, header_tree()));
    assert_eq!(twice.attrs.len(), 1);
    assert_eq!(attr(&twice, "data-id"), attr(&once, "data-id"));
    assert_eq!(child(&twice, 0).attrs.len(), 1);
    assert_eq!(attr(child(&twice, 1), "data-id"), attr(child(&once, 1), "data-id"));
}

#[test]
fn repeated_runs_agree() {
    let a = run(Some(r#"{"addModuleClassNames": true}"#), header_tree());
    let b = run(Some(r#"{"addModuleClassNames": true}"#), header_tree());
    assert_eq!(attr(child(&a, 0), "data-id"), attr(child(&b, 0), "data-id"));
    assert_eq!(attr(child(&a, 0), "data-id"), Some("Common_Header_View_Logo_0"));
}

#[test]
fn siblings_get_distinct_identifiers() {
    let tree = el(
        "List",
        vec![
            Node::Element(el("Item", vec![])),
            Node::Other,
            Node::Element(el("Item", vec![])),
            Node::Element(el("Item", vec![])),
        ],
    );
    let out = run(None, tree);
    let ids: Vec<_> = [0, 2, 3].iter().map(|&i| attr(child(&out, i), "data-id").unwrap()).collect();
    assert_eq!(ids, vec!["Common_Header_Item_0", "Common_Header_Item_2", "Common_Header_Item_3"]);
}

#[test]
fn toggles_remove_their_segment_only() {
    let stack = vec![
        Frame { name: "View".to_string(), ordinal: 0 },
        Frame { name: "Logo".to_string(), ordinal: 12 },
    ];
    let ctx = normalize("/", "/src/client/Components/Common/Header.jsx");
    let mut opts = PluginOptions::default();
    opts.add_module_class_names = true;
    assert_eq!(compose_identifier(&stack, &ctx, &opts), "Common_Header_View_Logo_12");
    let mut o = opts.clone();
    o.omit_file_name = true;
    assert_eq!(compose_identifier(&stack, &ctx, &o), "Common_View_Logo_12");
    let mut o = opts.clone();
    o.ignore_node_names = true;
    assert_eq!(compose_identifier(&stack, &ctx, &o), "Common_Header_View_12");
    let mut o = opts.clone();
    o.ignore_tree_depth = true;
    assert_eq!(compose_identifier(&stack, &ctx, &o), "Common_Header_View_Logo");
    let mut o = opts.clone();
    o.add_module_class_names = false;
    assert_eq!(compose_identifier(&stack, &ctx, &o), "Common_Header_Logo_12");
}

#[test]
fn empty_segments_are_skipped() {
    let stack = vec![Frame { name: String::new(), ordinal: 3 }];
    let ctx = PathContext { relative_segments: vec![], file_stem: String::new() };
    let opts = PluginOptions::default();
    assert_eq!(compose_identifier(&stack, &ctx, &opts), "3");
}

#[test]
fn maybe_inject_gates_later_siblings() {
    let ctx = normalize("/", "/a/B.tsx");
    let mut opts = PluginOptions::default();
    opts.first_child_only = true;
    let stack = vec![Frame { name: "X".to_string(), ordinal: 1 }];
    let mut e = el("X", vec![]);
    maybe_inject(&mut e, &stack, &ctx, &opts);
    assert!(e.attrs.is_empty());
    let stack = vec![Frame { name: "X".to_string(), ordinal: 0 }];
    maybe_inject(&mut e, &stack, &ctx, &opts);
    assert_eq!(attr(&e, "data-id"), Some("a_B_X_0"));
}

#[test]
fn path_normalization() {
    let ctx = normalize("/home/me/project", "/home/me/project/src/./ui/Button.test.jsx");
    assert_eq!(ctx.relative_segments, vec!["src".to_string(), "ui".to_string()]);
    assert_eq!(ctx.file_stem, "Button.test");
    let ctx = normalize(r"C:\work", r"C:\work\app\Main.js");
    assert_eq!(ctx.relative_segments, vec!["app".to_string()]);
    assert_eq!(ctx.file_stem, "Main");
    let outside = normalize("/other", "/src/App.jsx");
    assert!(outside.relative_segments.is_empty());
    assert_eq!(outside.file_stem, "App");
    assert_eq!(split_components("//a/../b/"), vec!["a".to_string(), "b".to_string()]);
    assert_eq!(stem_of_name(".babelrc"), ".babelrc");
    assert_eq!(stem_of_name("a.b.c"), "a.b");
}

#[test]
fn missing_paths_use_sentinels() {
    let (v, _) = TransformVisitor::new(None, None, None);
    assert_eq!(v.filename, "/unknown.js");
    assert_eq!(v.root_dir, "/");
    let ctx = v.context();
    assert!(ctx.relative_segments.is_empty());
    assert_eq!(ctx.file_stem, "unknown");
}

#[test]
fn jsx_visitor_root_has_ordinal_zero() {
    let visitor = JSXVisitor {
        context: PathContext { relative_segments: vec!["x".to_string()], file_stem: "F".to_string() },
        options: PluginOptions::default(),
    };
    let mut root = el("", vec![Node::Element(el("A", vec![]))]);
    visitor.visit_mut_jsx_element(&mut root);
    assert_eq!(attr(&root, "data-id"), Some("x_F_0"));
    assert_eq!(attr(child(&root, 0), "data-id"), Some("x_F_A_0"));
}

#[test]
fn defaults_and_helpers() {
    assert_eq!(default_custom_property(), "data-id");
    assert_eq!(default_custom_separator(), "_");
    assert_eq!(default_dir_level(), 1);
    assert_eq!(decimal_string(0), "0");
    assert_eq!(decimal_string(1907), "1907");
    assert!(contains_str("Common_Header_Logo_0", "Logo"));
    assert!(!contains_str("Logo", "Logos"));
    assert!(contains_str("abc", ""));
}
