use cairo_lang_core::config::plugin::{
    get_kept_items_nodes, should_drop, Body, BodyItem, ConfigPlugin, HasItemsInCfgEx, ImplItem,
    ModuleItem, ModuleItemKind, NodeId, TraitItem,
};
use cairo_lang_core::config::predicate::{
    extract_config_predicate_part, parse_predicate, ArgExpr, Attribute, AttributeArg,
    AttributeArgVariant, CallExpr, ConfigPredicatePart, PathSegment, PluginDiagnostic,
};
use cairo_lang_core::semantic::ids::SyntaxStablePtrId;
use cairo_lang_filesystem::cfg::{Cfg, CfgSet};

fn cfg_set() -> CfgSet {
    CfgSet::from_iter([Cfg::name("test"), Cfg::kv("target", "lib"), Cfg::kv("empty", "")])
}

fn arg(variant: AttributeArgVariant) -> AttributeArg {
    AttributeArg { variant, stable_ptr: SyntaxStablePtrId(1) }
}

fn path(segments: &[&str]) -> ArgExpr {
    ArgExpr::Path(segments.iter().map(|s| PathSegment::Simple(s.to_string())).collect())
}

fn name(name: &str) -> AttributeArg {
    arg(AttributeArgVariant::Unnamed(path(&[name])))
}

fn key_value(name: &str, value: ArgExpr) -> AttributeArg {
    arg(AttributeArgVariant::Named { name: name.to_string(), value })
}

fn text(value: &str) -> ArgExpr {
    ArgExpr::String(Some(value.to_string()))
}

fn call(operator: &str, arguments: Vec<AttributeArg>) -> AttributeArg {
    arg(AttributeArgVariant::Unnamed(ArgExpr::FunctionCall(CallExpr {
        path: operator.to_string(),
        arguments,
        stable_ptr: SyntaxStablePtrId(2),
    })))
}

fn cfg(args: Vec<AttributeArg>) -> Attribute {
    Attribute { name: "cfg".to_string(), args }
}

fn holds(args: Vec<AttributeArg>) -> bool {
    let mut diagnostics = vec![];
    let predicate = parse_predicate(&cfg(args), &mut diagnostics).unwrap();
    assert!(diagnostics.is_empty());
    predicate.evaluate(&cfg_set())
}

#[test]
fn predicates_are_evaluated() {
    assert!(holds(vec![]));
    assert!(holds(vec![name("test")]));
    assert!(!holds(vec![name("target")]));
    assert!(holds(vec![key_value("target", text("lib"))]));
    assert!(holds(vec![key_value(
        "target",
        ArgExpr::ShortString(Some("lib".to_string()))
    )]));
    assert!(!holds(vec![key_value("target", text("bin"))]));
    assert!(holds(vec![key_value("empty", ArgExpr::String(None))]));
    assert!(!holds(vec![name("test"), name("other")]));
    assert!(!holds(vec![call("not", vec![name("test")])]));
    assert!(holds(vec![call("not", vec![name("other")])]));
    assert!(!holds(vec![call("and", vec![name("test"), name("other")])]));
    assert!(holds(vec![call("and", vec![name("test"), key_value("target", text("lib"))])]));
    assert!(holds(vec![call("or", vec![name("other"), name("test")])]));
    assert!(!holds(vec![call("or", vec![name("other"), name("another")])]));
    assert!(holds(vec![call(
        "not",
        vec![call("and", vec![name("test"), call("not", vec![name("test")])])]
    )]));
}

fn errors(args: Vec<AttributeArg>) -> Vec<(u64, String)> {
    let mut diagnostics = vec![];
    parse_predicate(&cfg(args), &mut diagnostics);
    diagnostics.into_iter().map(|d| (d.stable_ptr.0, d.message)).collect()
}

#[test]
fn wrong_predicates_are_reported() {
    let one = |place: u64, message: &str| vec![(place, message.to_string())];
    assert_eq!(
        errors(vec![call("not", vec![])]),
        one(2, "`not` operator expects exactly one argument.")
    );
    assert_eq!(
        errors(vec![call("not", vec![name("a"), name("b")])]),
        one(2, "`not` operator expects exactly one argument.")
    );
    assert_eq!(
        errors(vec![call("and", vec![name("a")])]),
        one(2, "`and` operator expects at least two arguments.")
    );
    assert_eq!(
        errors(vec![call("or", vec![name("a")])]),
        one(2, "`or` operator expects at least two arguments.")
    );
    assert_eq!(
        errors(vec![call("xor", vec![name("a"), name("b")])]),
        one(2, "Unsupported operator: `xor`.")
    );
    assert_eq!(
        errors(vec![arg(AttributeArgVariant::Unnamed(path(&["a", "b"])))]),
        one(1, "Invalid configuration argument.")
    );
    assert_eq!(
        errors(vec![arg(AttributeArgVariant::FieldInitShorthand)]),
        one(1, "Invalid configuration argument.")
    );
    assert_eq!(
        errors(vec![key_value("a", ArgExpr::Other)]),
        one(1, "Invalid configuration argument.")
    );
    assert_eq!(
        errors(vec![arg(AttributeArgVariant::Unnamed(ArgExpr::Path(vec![PathSegment::Other])))]),
        one(1, "Invalid configuration argument.")
    );
    // The error of an inner argument leaves out the whole `not`.
    assert_eq!(
        errors(vec![call("not", vec![call("not", vec![])])]),
        one(2, "`not` operator expects exactly one argument.")
    );
}

#[test]
fn wrong_arguments_are_left_out() {
    let mut diagnostics = vec![];
    let attr = cfg(vec![call("xor", vec![]), name("test")]);
    assert!(parse_predicate(&attr, &mut diagnostics).unwrap().evaluate(&cfg_set()));
    let attr = cfg(vec![call("xor", vec![]), name("other")]);
    assert!(!parse_predicate(&attr, &mut diagnostics).unwrap().evaluate(&cfg_set()));
    let attr = cfg(vec![call("xor", vec![])]);
    assert!(parse_predicate(&attr, &mut diagnostics).unwrap().evaluate(&cfg_set()));
    assert_eq!(diagnostics.len(), 3);
}

#[test]
fn parts_of_predicates() {
    match extract_config_predicate_part(&name("test")) {
        Some(ConfigPredicatePart::Cfg(cfg)) => {
            assert_eq!(cfg.key, "test");
            assert_eq!(cfg.value, None);
        }
        _ => panic!("a name is an option"),
    }
    match extract_config_predicate_part(&key_value("target", text("lib"))) {
        Some(ConfigPredicatePart::Cfg(cfg)) => {
            assert_eq!(cfg.key, "target");
            assert_eq!(cfg.value, Some("lib".to_string()));
        }
        _ => panic!("a name with a value is an option"),
    }
    match extract_config_predicate_part(&call("not", vec![])) {
        Some(ConfigPredicatePart::Call(call)) => assert_eq!(call.path, "not"),
        _ => panic!("a call is a call"),
    }
    assert!(extract_config_predicate_part(&key_value("a", ArgExpr::Other)).is_none());
}

fn item(attributes: Vec<Attribute>, node: u64) -> BodyItem {
    BodyItem { attributes, node: NodeId(node) }
}

fn other_attribute() -> Attribute {
    Attribute { name: "inline".to_string(), args: vec![name("never")] }
}

#[test]
fn items_are_dropped_where_an_attribute_fails() {
    let drops = |attributes: Vec<Attribute>| {
        let mut diagnostics: Vec<PluginDiagnostic> = vec![];
        let dropped = should_drop(&cfg_set(), &item(attributes, 0), &mut diagnostics);
        (dropped, diagnostics.len())
    };
    assert_eq!(drops(vec![]), (false, 0));
    assert_eq!(drops(vec![other_attribute()]), (false, 0));
    assert_eq!(drops(vec![cfg(vec![name("test")])]), (false, 0));
    assert_eq!(drops(vec![cfg(vec![name("test")]), cfg(vec![name("other")])]), (true, 0));
    assert_eq!(drops(vec![cfg(vec![call("xor", vec![])])]), (false, 1));
    // What comes after an attribute that fails is not looked at.
    assert_eq!(
        drops(vec![cfg(vec![name("other")]), cfg(vec![call("xor", vec![])])]),
        (true, 0)
    );
}

fn body(items: Vec<BodyItem>) -> Body {
    Body { lbrace: NodeId(100), items, rbrace: NodeId(101) }
}

fn mixed_items() -> Vec<BodyItem> {
    vec![
        item(vec![], 1),
        item(vec![cfg(vec![name("other")])], 2),
        item(vec![cfg(vec![name("test")])], 3),
    ]
}

#[test]
fn kept_items() {
    let mut diagnostics = vec![];
    assert_eq!(
        get_kept_items_nodes(&cfg_set(), &mixed_items(), &mut diagnostics),
        Some(vec![NodeId(1), NodeId(3)])
    );
    assert_eq!(
        get_kept_items_nodes(&cfg_set(), &vec![item(vec![], 1)], &mut diagnostics),
        None
    );
    let body = body(mixed_items());
    let kept: Vec<u64> = body.iter_items_in_cfg(&cfg_set()).iter().map(|i| i.node.0).collect();
    assert_eq!(kept, vec![1, 3]);
    // Kept items stay when they are looked at again.
    let again: Vec<BodyItem> =
        mixed_items().into_iter().filter(|item| kept.contains(&item.node.0)).collect();
    assert_eq!(get_kept_items_nodes(&cfg_set(), &again, &mut diagnostics), None);
}

fn trait_item(body: Option<Body>) -> ModuleItemKind {
    ModuleItemKind::Trait(TraitItem {
        attributes: NodeId(10),
        trait_kw: NodeId(11),
        name: NodeId(12),
        generic_params: NodeId(13),
        body,
    })
}

fn impl_item(body: Option<Body>) -> ModuleItemKind {
    ModuleItemKind::Impl(ImplItem {
        attributes: NodeId(10),
        impl_kw: NodeId(11),
        name: NodeId(12),
        generic_params: NodeId(13),
        of_kw: NodeId(14),
        trait_path: NodeId(15),
        body,
    })
}

#[test]
fn the_plugin_rewrites_items() {
    let plugin = ConfigPlugin::default();
    let generate = |attributes: Vec<Attribute>, kind: ModuleItemKind| {
        let result =
            plugin.generate_code(&ModuleItem { attributes, kind }, &cfg_set());
        let nodes = result.code.map(|file| {
            assert_eq!(file.name, "config");
            file.nodes.into_iter().map(|node| node.0).collect::<Vec<u64>>()
        });
        (nodes, result.remove_original_item, result.diagnostics.len())
    };
    // An item that is dropped.
    assert_eq!(
        generate(vec![cfg(vec![name("other")])], trait_item(Some(body(mixed_items())))),
        (None, true, 0)
    );
    // Items with elements that are dropped.
    assert_eq!(
        generate(vec![], trait_item(Some(body(mixed_items())))),
        (Some(vec![10, 11, 12, 13, 100, 1, 3, 101]), true, 0)
    );
    assert_eq!(
        generate(vec![cfg(vec![name("test")])], impl_item(Some(body(mixed_items())))),
        (Some(vec![10, 11, 12, 13, 14, 15, 100, 1, 3, 101]), true, 0)
    );
    // Items that stay as they are.
    assert_eq!(generate(vec![], trait_item(None)), (None, false, 0));
    assert_eq!(generate(vec![], impl_item(Some(body(vec![])))), (None, false, 0));
    assert_eq!(
        generate(vec![cfg(vec![call("xor", vec![])])], ModuleItemKind::Other),
        (None, false, 1)
    );
    let wrong = item(vec![cfg(vec![call("not", vec![])])], 1);
    assert_eq!(generate(vec![], trait_item(Some(body(vec![wrong])))), (None, false, 1));
    assert_eq!(plugin.declared_attributes(), vec!["cfg".to_string()]);
}
