use syn_parser::parser::graph::CodeGraph;
use syn_parser::parser::input::{
    EnumInput, FieldInput, FieldsInput, Item, PathArgs, PathSegment, TypeExpr, VariantInput,
    VisibilityToken,
};
use syn_parser::parser::nodes::{EnumNode, TypeDefNode};
use syn_parser::parser::types::VisibilityKind;
use syn_parser::parser::visitor::analyze_items;

fn named(path: &[&str]) -> TypeExpr {
    TypeExpr::Path {
        qualified: false,
        segments: path
            .iter()
            .map(|s| PathSegment { ident: s.to_string(), args: PathArgs::Empty })
            .collect(),
    }
}

fn unit_variant(name: &str) -> VariantInput {
    VariantInput {
        name: name.to_string(),
        fields: FieldsInput::Unit,
        discriminant: None,
        attrs: vec![],
    }
}

/// The enum declarations this suite analyzes.
fn enums_fixture() -> Vec<Item> {
    vec![
        Item::Enum(EnumInput {
            name: "SampleEnum1".to_string(),
            vis: VisibilityToken::Public,
            variants: vec![unit_variant("Variant1"), unit_variant("Variant2")],
            generics: vec![],
            attrs: vec![],
        }),
        Item::Enum(EnumInput {
            name: "EnumWithData".to_string(),
            vis: VisibilityToken::Public,
            variants: vec![
                VariantInput {
                    name: "Variant1".to_string(),
                    fields: FieldsInput::Unnamed(vec![FieldInput {
                        name: None,
                        vis: VisibilityToken::Inherited,
                        ty: named(&["i32"]),
                        attrs: vec![],
                    }]),
                    discriminant: None,
                    attrs: vec![],
                },
                VariantInput {
                    name: "Variant2".to_string(),
                    fields: FieldsInput::Unnamed(vec![FieldInput {
                        name: None,
                        vis: VisibilityToken::Inherited,
                        ty: named(&["String"]),
                        attrs: vec![],
                    }]),
                    discriminant: None,
                    attrs: vec![],
                },
            ],
            generics: vec![],
            attrs: vec![],
        }),
        Item::Enum(EnumInput {
            name: "SampleEnum".to_string(),
            vis: VisibilityToken::Public,
            variants: vec![
                unit_variant("Variant1"),
                VariantInput {
                    name: "Variant2".to_string(),
                    fields: FieldsInput::Named(vec![FieldInput {
                        name: Some("value".to_string()),
                        vis: VisibilityToken::Inherited,
                        ty: named(&["i32"]),
                        attrs: vec![],
                    }]),
                    discriminant: None,
                    attrs: vec![],
                },
                unit_variant("Variant3"),
            ],
            generics: vec![],
            attrs: vec![],
        }),
    ]
}

fn find_enum_by_name<'a>(graph: &'a CodeGraph, name: &str) -> Option<&'a EnumNode> {
    graph.defined_types.iter().find_map(|def| {
        if let TypeDefNode::Enum(e) = def {
            if e.name == name {
                return Some(e);
            }
        }
        None
    })
}

#[test]
fn test_enum_parsing() {
    let graph = analyze_items(enums_fixture());

    let sample_enum = find_enum_by_name(&graph, "SampleEnum").expect("SampleEnum not found");

    assert_eq!(sample_enum.name, "SampleEnum");
    assert_eq!(sample_enum.visibility, VisibilityKind::Public);
    assert_eq!(sample_enum.variants.len(), 3);
    assert_eq!(sample_enum.variants[0].name, "Variant1");
    assert_eq!(sample_enum.variants[1].name, "Variant2");
    assert_eq!(sample_enum.variants[2].name, "Variant3");

    if let Some(variant2) = sample_enum.variants.iter().find(|v| v.name == "Variant2") {
        assert_eq!(variant2.fields.len(), 1);
        assert_eq!(variant2.fields[0].name, Some("value".to_string()));
    } else {
        panic!("Variant2 not found");
    }
}
