use syn_parser::parser::graph::CodeGraph;
use syn_parser::parser::input::{
    AttributeInput, FnInput, GenericParamInput, Item, ParamInput, PathArgs, PathSegment, TypeExpr,
    VisibilityToken,
};
use syn_parser::parser::nodes::FunctionNode;
use syn_parser::parser::types::{GenericParamKind, TypeKind, VisibilityKind};
use syn_parser::parser::visitor::analyze_items;

fn named(path: &[&str]) -> TypeExpr {
    TypeExpr::Path {
        qualified: false,
        segments: path
            .iter()
            .map(|s| PathSegment { ident: s.to_string(), args: PathArgs::Empty })
            .collect(),
    }
}

fn named_with_args(ident: &str, args: Vec<TypeExpr>) -> TypeExpr {
    TypeExpr::Path {
        qualified: false,
        segments: vec![PathSegment { ident: ident.to_string(), args: PathArgs::Angle(args) }],
    }
}

fn param(name: &str, ty: TypeExpr) -> ParamInput {
    ParamInput::Typed { name: Some(name.to_string()), mutable: false, ty }
}

fn type_generic(name: &str) -> GenericParamInput {
    GenericParamInput::Type { name: name.to_string(), bounds: vec![], default: None }
}

fn plain_fn(name: &str, vis: VisibilityToken) -> FnInput {
    FnInput {
        name: name.to_string(),
        vis,
        params: vec![],
        ret: None,
        generics: vec![],
        attrs: vec![],
        body: Some("{ }".to_string()),
    }
}

/// The function declarations this suite analyzes, one item per shape.
fn functions_fixture() -> Vec<Item> {
    let mut items = Vec::new();
    items.push(Item::Fn(plain_fn("regular_function", VisibilityToken::Public)));
    items.push(Item::Fn(FnInput {
        name: "function_with_params".to_string(),
        vis: VisibilityToken::Public,
        params: vec![param("x", named(&["i32"])), param("y", named(&["i32"]))],
        ret: Some(named(&["i32"])),
        generics: vec![],
        attrs: vec![],
        body: Some("{ x + y }".to_string()),
    }));
    items.push(Item::Fn(FnInput {
        name: "generic_function".to_string(),
        vis: VisibilityToken::Public,
        params: vec![param("arg", named(&["T"]))],
        ret: Some(named(&["T"])),
        generics: vec![type_generic("T")],
        attrs: vec![],
        body: Some("{ arg }".to_string()),
    }));
    items.push(Item::Fn(FnInput {
        name: "attributed_function".to_string(),
        vis: VisibilityToken::Public,
        params: vec![],
        ret: None,
        generics: vec![],
        attrs: vec![AttributeInput {
            name: "cfg".to_string(),
            args: vec!["test".to_string()],
            value: Some("#[cfg(test)]".to_string()),
            doc: None,
        }],
        body: Some("{ }".to_string()),
    }));
    items.push(Item::Fn(FnInput {
        name: "documented_function".to_string(),
        vis: VisibilityToken::Public,
        params: vec![],
        ret: None,
        generics: vec![],
        attrs: vec![AttributeInput {
            name: "doc".to_string(),
            args: vec![],
            value: None,
            doc: Some("This is a documented function".to_string()),
        }],
        body: Some("{ }".to_string()),
    }));
    items.push(Item::Fn(plain_fn("unsafe_function", VisibilityToken::Public)));
    items.push(Item::Fn(FnInput {
        name: "lifetime_function".to_string(),
        vis: VisibilityToken::Public,
        params: vec![param(
            "param",
            TypeExpr::Reference {
                lifetime: Some("a".to_string()),
                mutable: false,
                target: Box::new(named(&["str"])),
            },
        )],
        ret: Some(TypeExpr::Reference {
            lifetime: Some("a".to_string()),
            mutable: false,
            target: Box::new(named(&["str"])),
        }),
        generics: vec![GenericParamInput::Lifetime { name: "a".to_string(), bounds: vec![] }],
        attrs: vec![],
        body: Some("{ param }".to_string()),
    }));
    items.push(Item::Fn(plain_fn("private_function", VisibilityToken::Inherited)));
    items.push(Item::Fn(FnInput {
        name: "multi_generic_function".to_string(),
        vis: VisibilityToken::Public,
        params: vec![param("t", named(&["T"])), param("u", named(&["U"]))],
        ret: Some(TypeExpr::Tuple { elems: vec![named(&["T"]), named(&["U"])] }),
        generics: vec![type_generic("T"), type_generic("U")],
        attrs: vec![],
        body: Some("{ (t, u) }".to_string()),
    }));
    items.push(Item::Fn(FnInput {
        name: "where_clause_function".to_string(),
        vis: VisibilityToken::Public,
        params: vec![param("arg", named(&["T"]))],
        ret: Some(named(&["T"])),
        generics: vec![type_generic("T")],
        attrs: vec![],
        body: Some("{ arg.clone() }".to_string()),
    }));
    items.push(Item::Fn(plain_fn("async_function", VisibilityToken::Public)));
    items.push(Item::Fn(FnInput {
        name: "default_params".to_string(),
        vis: VisibilityToken::Public,
        params: vec![
            param("required", named(&["i32"])),
            param("optional", named_with_args("Option", vec![named(&["String"])])),
        ],
        ret: Some(named(&["String"])),
        generics: vec![],
        attrs: vec![],
        body: Some("{ }".to_string()),
    }));
    items
}

fn parse_fixture() -> CodeGraph {
    analyze_items(functions_fixture())
}

fn find_function_by_name<'a>(graph: &'a CodeGraph, name: &str) -> Option<&'a FunctionNode> {
    graph.functions.iter().find(|f| f.name == name)
}

#[test]
fn test_regular_function_parsing() {
    let graph = parse_fixture();

    let function =
        find_function_by_name(&graph, "regular_function").expect("regular_function not found");

    assert_eq!(function.name, "regular_function");
    assert_eq!(function.visibility, VisibilityKind::Public);
    assert!(function.parameters.is_empty());
    assert_eq!(function.return_type, None);
    assert!(function.generic_params.is_empty());
    assert!(function.attributes.is_empty());
    assert_eq!(function.docstring, None);
}

#[test]
fn test_function_with_params_parsing() {
    let graph = parse_fixture();

    let function = find_function_by_name(&graph, "function_with_params")
        .expect("function_with_params not found");

    assert_eq!(function.name, "function_with_params");
    assert_eq!(function.visibility, VisibilityKind::Public);
    assert_eq!(function.parameters.len(), 2);
    assert_eq!(function.parameters[0].name, Some("x".to_string()));
    assert_eq!(function.parameters[1].name, Some("y".to_string()));
    assert!(function.return_type.is_some());
    assert!(function.generic_params.is_empty());
}

#[test]
fn test_generic_function_parsing() {
    let graph = parse_fixture();

    let function =
        find_function_by_name(&graph, "generic_function").expect("generic_function not found");

    assert_eq!(function.name, "generic_function");
    assert_eq!(function.visibility, VisibilityKind::Public);
    assert_eq!(function.parameters.len(), 1);
    assert_eq!(function.parameters[0].name, Some("arg".to_string()));
    assert!(function.return_type.is_some());
    assert_eq!(function.generic_params.len(), 1);

    if let GenericParamKind::Type { name, .. } = &function.generic_params[0].kind {
        assert_eq!(name, "T");
    } else {
        panic!("Expected Type generic parameter");
    }
}

#[test]
fn test_attributed_function_parsing() {
    let graph = parse_fixture();

    let function = find_function_by_name(&graph, "attributed_function")
        .expect("attributed_function not found");

    assert_eq!(function.name, "attributed_function");
    assert_eq!(function.visibility, VisibilityKind::Public);
    assert!(function.parameters.is_empty());
    assert_eq!(function.return_type, None);
    assert!(function.generic_params.is_empty());
    assert_eq!(function.attributes.len(), 1);
    assert_eq!(function.attributes[0].name, "cfg");
    assert_eq!(function.attributes[0].args, vec!["test".to_string()]);
}

#[test]
fn test_documented_function_parsing() {
    let graph = parse_fixture();

    let function = find_function_by_name(&graph, "documented_function")
        .expect("documented_function not found");

    assert_eq!(function.name, "documented_function");
    assert_eq!(function.visibility, VisibilityKind::Public);
    assert!(function.parameters.is_empty());
    assert_eq!(function.return_type, None);
    assert!(function.generic_params.is_empty());
    assert!(function.docstring.is_some());
    assert!(function
        .docstring
        .as_ref()
        .unwrap()
        .contains("documented function"));
}

#[test]
fn test_unsafe_function_parsing() {
    let graph = parse_fixture();

    let function =
        find_function_by_name(&graph, "unsafe_function").expect("unsafe_function not found");

    assert_eq!(function.name, "unsafe_function");
    assert_eq!(function.visibility, VisibilityKind::Public);
    assert!(function.parameters.is_empty());
    assert_eq!(function.return_type, None);
    assert!(function.generic_params.is_empty());
}

#[test]
fn test_lifetime_function_parsing() {
    let graph = parse_fixture();
    let function =
        find_function_by_name(&graph, "lifetime_function").expect("lifetime_function not found");

    assert_eq!(function.name, "lifetime_function");
    assert_eq!(function.visibility, VisibilityKind::Public);
    assert_eq!(function.generic_params.len(), 1);

    if let GenericParamKind::Lifetime { ref name, ref bounds } = function.generic_params[0].kind {
        assert_eq!(name, "a");
        assert!(bounds.is_empty());
    } else {
        panic!("Expected Lifetime generic parameter");
    }

    assert_eq!(function.parameters.len(), 1);
    assert_eq!(function.parameters[0].name, Some("param".to_string()));
    assert_eq!(
        function.parameters[0].type_id,
        graph
            .type_graph
            .iter()
            .find(|t| matches!(t.kind, TypeKind::Reference { lifetime: Some(ref lt), is_mutable: false } if lt == "a"))
            .map(|t| t.id)
            .expect("Reference type with the declared lifetime not found")
    );
    assert_eq!(
        function.return_type,
        Some(
            graph
                .type_graph
                .iter()
                .find(|t| matches!(t.kind, TypeKind::Reference { lifetime: Some(ref lt), is_mutable: false } if lt == "a"))
                .map(|t| t.id)
                .expect("Reference type with the declared lifetime not found")
        )
    );
}

#[test]
fn test_private_function_parsing() {
    let graph = parse_fixture();

    let function =
        find_function_by_name(&graph, "private_function").expect("private_function not found");

    assert_eq!(function.name, "private_function");
    assert_eq!(function.visibility, VisibilityKind::Inherited);
    assert!(function.parameters.is_empty());
    assert_eq!(function.return_type, None);
}

#[test]
fn test_multi_generic_function_parsing() {
    let graph = parse_fixture();

    let function = find_function_by_name(&graph, "multi_generic_function")
        .expect("multi_generic_function not found");

    assert_eq!(function.name, "multi_generic_function");
    assert_eq!(function.visibility, VisibilityKind::Public);
    assert_eq!(function.parameters.len(), 2);
    assert_eq!(function.generic_params.len(), 2);

    let generic_names: Vec<String> = function
        .generic_params
        .iter()
        .filter_map(|param| {
            if let GenericParamKind::Type { name, .. } = &param.kind {
                Some(name.clone())
            } else {
                None
            }
        })
        .collect();

    assert!(generic_names.contains(&"T".to_string()));
    assert!(generic_names.contains(&"U".to_string()));
}

#[test]
fn test_where_clause_function_parsing() {
    let graph = parse_fixture();

    let function = find_function_by_name(&graph, "where_clause_function")
        .expect("where_clause_function not found");

    assert_eq!(function.name, "where_clause_function");
    assert_eq!(function.visibility, VisibilityKind::Public);
    assert_eq!(function.parameters.len(), 1);
    assert_eq!(function.generic_params.len(), 1);
}

#[test]
fn test_async_function_parsing() {
    let graph = parse_fixture();

    let function =
        find_function_by_name(&graph, "async_function").expect("async_function not found");

    assert_eq!(function.name, "async_function");
    assert_eq!(function.visibility, VisibilityKind::Public);
}

#[test]
fn test_default_params_function_parsing() {
    let graph = parse_fixture();

    let function =
        find_function_by_name(&graph, "default_params").expect("default_params not found");

    assert_eq!(function.name, "default_params");
    assert_eq!(function.visibility, VisibilityKind::Public);
    assert_eq!(function.parameters.len(), 2);
    assert_eq!(function.parameters[0].name, Some("required".to_string()));
    assert_eq!(function.parameters[1].name, Some("optional".to_string()));
    assert!(function.return_type.is_some());
}
