use syn_parser::parser::graph::CodeGraph;
use syn_parser::parser::input::{
    AttributeInput, FieldInput, FieldsInput, GenericParamInput, Item, PathArgs, PathSegment,
    StructInput, TypeExpr, VisibilityToken,
};
use syn_parser::parser::nodes::{StructNode, TypeDefNode};
use syn_parser::parser::types::{GenericParamKind, VisibilityKind};
use syn_parser::parser::visitor::analyze_items;

fn named(path: &[&str]) -> TypeExpr {
    TypeExpr::Path {
        qualified: false,
        segments: path
            .iter()
            .map(|s| PathSegment { ident: s.to_string(), args: PathArgs::Empty })
            .collect(),
    }
}

fn pub_field(name: &str, ty: TypeExpr) -> FieldInput {
    FieldInput { name: Some(name.to_string()), vis: VisibilityToken::Public, ty, attrs: vec![] }
}

/// The struct declarations this suite analyzes, one item per shape.
fn structs_fixture() -> Vec<Item> {
    vec![
        Item::Struct(StructInput {
            name: "SampleStruct".to_string(),
            vis: VisibilityToken::Public,
            fields: FieldsInput::Named(vec![pub_field("field", named(&["String"]))]),
            generics: vec![],
            attrs: vec![],
        }),
        Item::Struct(StructInput {
            name: "TupleStruct".to_string(),
            vis: VisibilityToken::Public,
            fields: FieldsInput::Unnamed(vec![
                FieldInput {
                    name: None,
                    vis: VisibilityToken::Public,
                    ty: named(&["i32"]),
                    attrs: vec![],
                },
                FieldInput {
                    name: None,
                    vis: VisibilityToken::Public,
                    ty: named(&["i32"]),
                    attrs: vec![],
                },
            ]),
            generics: vec![],
            attrs: vec![],
        }),
        Item::Struct(StructInput {
            name: "UnitStruct".to_string(),
            vis: VisibilityToken::Public,
            fields: FieldsInput::Unit,
            generics: vec![],
            attrs: vec![],
        }),
        Item::Struct(StructInput {
            name: "GenericStruct".to_string(),
            vis: VisibilityToken::Public,
            fields: FieldsInput::Named(vec![pub_field("field", named(&["T"]))]),
            generics: vec![GenericParamInput::Type {
                name: "T".to_string(),
                bounds: vec![],
                default: None,
            }],
            attrs: vec![],
        }),
        Item::Struct(StructInput {
            name: "AttributedStruct".to_string(),
            vis: VisibilityToken::Public,
            fields: FieldsInput::Named(vec![pub_field("field", named(&["String"]))]),
            generics: vec![],
            attrs: vec![AttributeInput {
                name: "derive".to_string(),
                args: vec!["Debug".to_string()],
                value: Some("#[derive(Debug)]".to_string()),
                doc: None,
            }],
        }),
        Item::Struct(StructInput {
            name: "DocumentedStruct".to_string(),
            vis: VisibilityToken::Public,
            fields: FieldsInput::Named(vec![pub_field("field", named(&["String"]))]),
            generics: vec![],
            attrs: vec![AttributeInput {
                name: "doc".to_string(),
                args: vec![],
                value: None,
                doc: Some("This is a documented struct".to_string()),
            }],
        }),
    ]
}

fn parse_fixture() -> CodeGraph {
    analyze_items(structs_fixture())
}

fn find_struct_by_name<'a>(graph: &'a CodeGraph, name: &str) -> Option<&'a StructNode> {
    graph.defined_types.iter().find_map(|def| {
        if let TypeDefNode::Struct(s) = def {
            if s.name == name {
                return Some(s);
            }
        }
        None
    })
}

#[test]
fn test_regular_struct_parsing() {
    let graph = parse_fixture();

    let sample_struct = find_struct_by_name(&graph, "SampleStruct").expect("SampleStruct not found");

    assert_eq!(sample_struct.name, "SampleStruct");
    assert_eq!(sample_struct.visibility, VisibilityKind::Public);
    assert_eq!(sample_struct.fields.len(), 1);
    assert_eq!(sample_struct.fields[0].name, Some("field".to_string()));
}

#[test]
fn test_tuple_struct_parsing() {
    let graph = parse_fixture();

    let tuple_struct = find_struct_by_name(&graph, "TupleStruct").expect("TupleStruct not found");

    assert_eq!(tuple_struct.fields.len(), 2);
    assert_eq!(tuple_struct.fields[0].visibility, VisibilityKind::Public);
}

#[test]
fn test_unit_struct_parsing() {
    let graph = parse_fixture();

    let unit_struct = find_struct_by_name(&graph, "UnitStruct").expect("UnitStruct not found");

    assert_eq!(unit_struct.fields.len(), 0);
}

#[test]
fn test_struct_with_generics() {
    let graph = parse_fixture();

    let generic_struct =
        find_struct_by_name(&graph, "GenericStruct").expect("GenericStruct not found");

    assert_eq!(generic_struct.generic_params.len(), 1);
    if let GenericParamKind::Type { name, .. } = &generic_struct.generic_params[0].kind {
        assert_eq!(name, "T");
    } else {
        panic!("Expected Type generic parameter");
    }
}

#[test]
fn test_struct_with_attributes() {
    let graph = parse_fixture();

    let attributed_struct =
        find_struct_by_name(&graph, "AttributedStruct").expect("AttributedStruct not found");

    assert!(attributed_struct.attributes.iter().any(|attr| attr.name == "derive"));
}

#[test]
fn test_struct_with_docstring() {
    let graph = parse_fixture();

    let documented_struct =
        find_struct_by_name(&graph, "DocumentedStruct").expect("DocumentedStruct not found");

    assert!(documented_struct.docstring.is_some());
    assert!(documented_struct.docstring.as_ref().unwrap().contains("documented struct"));
}
