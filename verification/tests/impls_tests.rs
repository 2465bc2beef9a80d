use syn_parser::parser::graph::CodeGraph;
use syn_parser::parser::input::{
    FieldInput, FieldsInput, GenericParamInput, ImplInput, ImplMethodInput, Item, ParamInput,
    PathArgs, PathSegment, StructInput, TraitInput, TraitMethodInput, TypeExpr, VisibilityToken,
};
use syn_parser::parser::nodes::TraitNode;
use syn_parser::parser::types::{GenericParamKind, TypeKind};
use syn_parser::parser::visitor::analyze_items;

fn named(path: &[&str]) -> TypeExpr {
    TypeExpr::Path {
        qualified: false,
        segments: path
            .iter()
            .map(|s| PathSegment { ident: s.to_string(), args: PathArgs::Empty })
            .collect(),
    }
}

fn segments(path: &[&str]) -> Vec<PathSegment> {
    path.iter().map(|s| PathSegment { ident: s.to_string(), args: PathArgs::Empty }).collect()
}

fn generic_named(ident: &str, args: Vec<TypeExpr>) -> TypeExpr {
    TypeExpr::Path {
        qualified: false,
        segments: vec![PathSegment { ident: ident.to_string(), args: PathArgs::Angle(args) }],
    }
}

fn receiver() -> ParamInput {
    ParamInput::Receiver { mutable: false, ty: named(&["Self"]) }
}

fn impl_method(name: &str, params: Vec<ParamInput>, ret: Option<TypeExpr>) -> ImplMethodInput {
    ImplMethodInput {
        name: name.to_string(),
        vis: VisibilityToken::Public,
        params,
        ret,
        generics: vec![],
        attrs: vec![],
        body: Some("{ }".to_string()),
    }
}

fn trait_method(name: &str, params: Vec<ParamInput>, ret: Option<TypeExpr>) -> TraitMethodInput {
    TraitMethodInput {
        name: name.to_string(),
        params,
        ret,
        generics: vec![],
        attrs: vec![],
        default_body: None,
    }
}

fn type_generic(name: &str) -> GenericParamInput {
    GenericParamInput::Type { name: name.to_string(), bounds: vec![], default: None }
}

/// The declarations this suite analyzes: two structs, two traits, and the
/// implementation blocks that tie them together.
fn impls_fixture() -> Vec<Item> {
    vec![
        Item::Struct(StructInput {
            name: "SampleStruct".to_string(),
            vis: VisibilityToken::Public,
            fields: FieldsInput::Named(vec![FieldInput {
                name: Some("field".to_string()),
                vis: VisibilityToken::Public,
                ty: named(&["String"]),
                attrs: vec![],
            }]),
            generics: vec![],
            attrs: vec![],
        }),
        Item::Trait(TraitInput {
            name: "SampleTrait".to_string(),
            vis: VisibilityToken::Public,
            methods: vec![trait_method("sample_method", vec![receiver()], Some(named(&["String"])))],
            supertraits: vec![],
            generics: vec![],
            attrs: vec![],
        }),
        Item::Impl(ImplInput {
            self_ty: named(&["SampleStruct"]),
            trait_path: Some(segments(&["SampleTrait"])),
            methods: vec![impl_method("sample_method", vec![receiver()], Some(named(&["String"])))],
            generics: vec![],
        }),
        Item::Impl(ImplInput {
            self_ty: named(&["SampleStruct"]),
            trait_path: None,
            methods: vec![
                impl_method(
                    "new",
                    vec![ParamInput::Typed {
                        name: Some("field".to_string()),
                        mutable: false,
                        ty: named(&["String"]),
                    }],
                    Some(named(&["Self"])),
                ),
                impl_method("get_field", vec![receiver()], Some(named(&["str"]))),
            ],
            generics: vec![],
        }),
        Item::Struct(StructInput {
            name: "GenericStruct".to_string(),
            vis: VisibilityToken::Public,
            fields: FieldsInput::Named(vec![FieldInput {
                name: Some("field".to_string()),
                vis: VisibilityToken::Public,
                ty: named(&["T"]),
                attrs: vec![],
            }]),
            generics: vec![type_generic("T")],
            attrs: vec![],
        }),
        Item::Impl(ImplInput {
            self_ty: generic_named("GenericStruct", vec![named(&["T"])]),
            trait_path: None,
            methods: vec![
                impl_method(
                    "new",
                    vec![ParamInput::Typed {
                        name: Some("field".to_string()),
                        mutable: false,
                        ty: named(&["T"]),
                    }],
                    Some(named(&["Self"])),
                ),
                impl_method("get_field", vec![receiver()], Some(named(&["T"]))),
            ],
            generics: vec![type_generic("T")],
        }),
        Item::Trait(TraitInput {
            name: "GenericTrait".to_string(),
            vis: VisibilityToken::Public,
            methods: vec![trait_method(
                "generic_method",
                vec![
                    receiver(),
                    ParamInput::Typed {
                        name: Some("param".to_string()),
                        mutable: false,
                        ty: named(&["T"]),
                    },
                ],
                Some(named(&["T"])),
            )],
            supertraits: vec![],
            generics: vec![type_generic("T")],
            attrs: vec![],
        }),
        Item::Impl(ImplInput {
            self_ty: generic_named("GenericStruct", vec![named(&["T"])]),
            trait_path: Some(segments(&["GenericTrait"])),
            methods: vec![impl_method(
                "generic_method",
                vec![
                    receiver(),
                    ParamInput::Typed {
                        name: Some("param".to_string()),
                        mutable: false,
                        ty: named(&["T"]),
                    },
                ],
                Some(named(&["T"])),
            )],
            generics: vec![type_generic("T")],
        }),
    ]
}

fn parse_fixture() -> CodeGraph {
    analyze_items(impls_fixture())
}

fn find_trait_by_name<'a>(graph: &'a CodeGraph, name: &str) -> Option<&'a TraitNode> {
    graph
        .traits
        .iter()
        .find(|t| t.name == name)
        .or_else(|| graph.private_traits.iter().find(|t| t.name == name))
}

#[test]
fn test_impl_for_struct() {
    let graph = parse_fixture();

    let impl_node = graph
        .impls
        .iter()
        .find(|impl_node| {
            if impl_node.trait_type.is_none() {
                if let Some(type_node) = graph
                    .type_graph
                    .iter()
                    .find(|t| t.id == impl_node.self_type)
                {
                    if let TypeKind::Named { path, .. } = &type_node.kind {
                        return path.last().map_or(false, |s| s == "SampleStruct");
                    }
                }
            }
            false
        })
        .expect("Impl for SampleStruct not found");

    assert_eq!(impl_node.methods.len(), 2);
    assert_eq!(impl_node.methods[0].name, "new");
    assert_eq!(impl_node.methods[1].name, "get_field");
}

#[test]
fn test_impl_for_trait() {
    let graph = parse_fixture();

    let impl_node = graph
        .impls
        .iter()
        .find(|impl_node| {
            if let Some(trait_type_id) = impl_node.trait_type {
                if let Some(type_node) = graph.type_graph.iter().find(|t| t.id == trait_type_id) {
                    if let TypeKind::Named { path, .. } = &type_node.kind {
                        if path.last().map_or(false, |s| s == "SampleTrait") {
                            if let Some(self_type) = graph
                                .type_graph
                                .iter()
                                .find(|t| t.id == impl_node.self_type)
                            {
                                if let TypeKind::Named { path: self_path, .. } = &self_type.kind {
                                    return self_path.last().map_or(false, |s| s == "SampleStruct");
                                }
                            }
                        }
                    }
                }
            }
            false
        })
        .expect("Impl of SampleTrait for SampleStruct not found");

    assert_eq!(impl_node.methods.len(), 1);
    assert_eq!(impl_node.methods[0].name, "sample_method");

    let _trait_type_id = impl_node
        .trait_type
        .expect("Trait type not found in impl block");
    let trait_node = find_trait_by_name(&graph, "SampleTrait").expect("Trait not found");
    assert_eq!(trait_node.name, "SampleTrait");
    assert_eq!(trait_node.methods.len(), 1);
    assert_eq!(trait_node.methods[0].name, "sample_method");
}

#[test]
fn test_find_impl_by_name() {
    let graph = parse_fixture();

    let sample_trait_impl = graph
        .impls
        .iter()
        .find(|impl_node| {
            if let Some(trait_type_id) = impl_node.trait_type {
                if let Some(type_node) = graph.type_graph.iter().find(|t| t.id == trait_type_id) {
                    if let TypeKind::Named { path, .. } = &type_node.kind {
                        return path.last().map_or(false, |s| s == "SampleTrait");
                    }
                }
            }
            false
        })
        .expect("Impl for SampleTrait not found");

    assert_eq!(sample_trait_impl.methods.len(), 1);
    assert_eq!(sample_trait_impl.methods[0].name, "sample_method");

    let generic_trait_impl = graph
        .impls
        .iter()
        .find(|impl_node| {
            if let Some(trait_type_id) = impl_node.trait_type {
                if let Some(type_node) = graph.type_graph.iter().find(|t| t.id == trait_type_id) {
                    if let TypeKind::Named { path, .. } = &type_node.kind {
                        return path.last().map_or(false, |s| s == "GenericTrait");
                    }
                }
            }
            false
        })
        .expect("Impl for GenericTrait not found");

    assert_eq!(generic_trait_impl.methods.len(), 1);
    assert_eq!(generic_trait_impl.methods[0].name, "generic_method");
}

#[test]
fn test_generic_impl_for_trait() {
    let graph = parse_fixture();

    let impl_node = graph
        .impls
        .iter()
        .find(|impl_node| {
            if let Some(trait_type_id) = impl_node.trait_type {
                if let Some(type_node) = graph.type_graph.iter().find(|t| t.id == trait_type_id) {
                    if let TypeKind::Named { path, .. } = &type_node.kind {
                        if path.last().map_or(false, |s| s == "GenericTrait") {
                            if let Some(self_type) = graph
                                .type_graph
                                .iter()
                                .find(|t| t.id == impl_node.self_type)
                            {
                                if let TypeKind::Named { path: self_path, .. } = &self_type.kind {
                                    return self_path
                                        .last()
                                        .map_or(false, |s| s == "GenericStruct");
                                }
                            }
                        }
                    }
                }
            }
            false
        })
        .expect("Impl of GenericTrait for GenericStruct not found");

    assert_eq!(impl_node.methods.len(), 1);
    assert_eq!(impl_node.methods[0].name, "generic_method");

    let _trait_type_id = impl_node
        .trait_type
        .expect("Trait type not found in impl block");
    let trait_node = find_trait_by_name(&graph, "GenericTrait").expect("Trait not found");
    assert_eq!(trait_node.name, "GenericTrait");
    assert_eq!(trait_node.methods.len(), 1);
    assert_eq!(trait_node.methods[0].name, "generic_method");
    assert_eq!(trait_node.generic_params.len(), 1);
    if let GenericParamKind::Type { name, .. } = &trait_node.generic_params[0].kind {
        assert_eq!(name, "T");
    } else {
        panic!("Expected Type generic parameter");
    }
}
