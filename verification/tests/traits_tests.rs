use syn_parser::parser::graph::CodeGraph;
use syn_parser::parser::input::{
    GenericParamInput, Item, ParamInput, PathArgs, PathSegment, TraitInput, TraitMethodInput,
    TypeExpr, VisibilityToken,
};
use syn_parser::parser::nodes::TraitNode;
use syn_parser::parser::types::{GenericParamKind, VisibilityKind};
use syn_parser::parser::visitor::analyze_items;

fn named(path: &[&str]) -> TypeExpr {
    TypeExpr::Path {
        qualified: false,
        segments: path
            .iter()
            .map(|s| PathSegment { ident: s.to_string(), args: PathArgs::Empty })
            .collect(),
    }
}

fn receiver() -> ParamInput {
    ParamInput::Receiver { mutable: false, ty: named(&["Self"]) }
}

fn method(name: &str, params: Vec<ParamInput>, ret: Option<TypeExpr>) -> TraitMethodInput {
    TraitMethodInput {
        name: name.to_string(),
        params,
        ret,
        generics: vec![],
        attrs: vec![],
        default_body: None,
    }
}

/// The trait declarations this suite analyzes.
fn traits_fixture() -> Vec<Item> {
    vec![
        Item::Trait(TraitInput {
            name: "SampleTrait".to_string(),
            vis: VisibilityToken::Public,
            methods: vec![method("sample_method", vec![receiver()], Some(named(&["String"])))],
            supertraits: vec![],
            generics: vec![],
            attrs: vec![],
        }),
        Item::Trait(TraitInput {
            name: "DefaultTrait".to_string(),
            vis: VisibilityToken::Public,
            methods: vec![TraitMethodInput {
                name: "default_method".to_string(),
                params: vec![receiver()],
                ret: Some(named(&["String"])),
                generics: vec![],
                attrs: vec![],
                default_body: Some("{ \"Default implementation\".to_string() }".to_string()),
            }],
            supertraits: vec![],
            generics: vec![],
            attrs: vec![],
        }),
        Item::Trait(TraitInput {
            name: "GenericTrait".to_string(),
            vis: VisibilityToken::Public,
            methods: vec![method(
                "generic_method",
                vec![
                    receiver(),
                    ParamInput::Typed {
                        name: Some("param".to_string()),
                        mutable: false,
                        ty: named(&["T"]),
                    },
                ],
                Some(named(&["T"])),
            )],
            supertraits: vec![],
            generics: vec![GenericParamInput::Type {
                name: "T".to_string(),
                bounds: vec![],
                default: None,
            }],
            attrs: vec![],
        }),
        Item::Trait(TraitInput {
            name: "assoc_type_trait".to_string(),
            vis: VisibilityToken::Public,
            methods: vec![method(
                "method_with_assoc",
                vec![receiver()],
                Some(named(&["Self", "AssocType"])),
            )],
            supertraits: vec![],
            generics: vec![],
            attrs: vec![],
        }),
        Item::Trait(TraitInput {
            name: "PrivateTrait".to_string(),
            vis: VisibilityToken::Inherited,
            methods: vec![method("private_method", vec![receiver()], Some(named(&["i32"])))],
            supertraits: vec![],
            generics: vec![],
            attrs: vec![],
        }),
    ]
}

fn parse_fixture() -> CodeGraph {
    analyze_items(traits_fixture())
}

fn find_trait_by_name<'a>(graph: &'a CodeGraph, name: &str) -> Option<&'a TraitNode> {
    graph
        .traits
        .iter()
        .find(|t| t.name == name)
        .or_else(|| graph.private_traits.iter().find(|t| t.name == name))
}

#[test]
fn test_trait_parsing() {
    let graph = parse_fixture();
    assert!(graph.traits.len() >= 4);
}

#[test]
fn test_regular_trait_parsing() {
    let graph = parse_fixture();

    let sample_trait = find_trait_by_name(&graph, "SampleTrait").expect("SampleTrait not found");

    assert_eq!(sample_trait.name, "SampleTrait");
    assert_eq!(sample_trait.visibility, VisibilityKind::Public);
    assert_eq!(sample_trait.methods.len(), 1);
    assert_eq!(sample_trait.methods[0].name, "sample_method");
}

#[test]
fn test_default_trait_parsing() {
    let graph = parse_fixture();

    let default_trait = find_trait_by_name(&graph, "DefaultTrait").expect("DefaultTrait not found");

    assert_eq!(default_trait.name, "DefaultTrait");
    assert_eq!(default_trait.visibility, VisibilityKind::Public);
    assert_eq!(default_trait.methods.len(), 1);
    assert_eq!(default_trait.methods[0].name, "default_method");
}

#[test]
fn test_generic_trait_parsing() {
    let graph = parse_fixture();

    let generic_trait = find_trait_by_name(&graph, "GenericTrait").expect("GenericTrait not found");

    assert_eq!(generic_trait.name, "GenericTrait");
    assert_eq!(generic_trait.visibility, VisibilityKind::Public);
    assert_eq!(generic_trait.methods.len(), 1);
    assert_eq!(generic_trait.methods[0].name, "generic_method");
    assert_eq!(generic_trait.generic_params.len(), 1);
    if let GenericParamKind::Type { name, .. } = &generic_trait.generic_params[0].kind {
        assert_eq!(name, "T");
    } else {
        panic!("Expected Type generic parameter");
    }
}

#[test]
fn test_assoc_type_trait_parsing() {
    let graph = parse_fixture();

    let assoc_type_trait =
        find_trait_by_name(&graph, "assoc_type_trait").expect("assoc_type_trait not found");

    assert_eq!(assoc_type_trait.name, "assoc_type_trait");
    assert_eq!(assoc_type_trait.visibility, VisibilityKind::Public);
    assert_eq!(assoc_type_trait.methods.len(), 1);
    assert_eq!(assoc_type_trait.methods[0].name, "method_with_assoc");
}

#[test]
fn test_private_trait_parsing() {
    let graph = parse_fixture();

    if let Some(private_trait) = find_trait_by_name(&graph, "PrivateTrait") {
        println!(
            "Visibility of private_trait is: {:?}",
            private_trait.visibility
        );
        assert!(matches!(
            private_trait.visibility,
            VisibilityKind::Restricted(_)
        ));
    } else {
        panic!("PrivateTrait not found in graph when using find_trait_by_name.")
    }
}
