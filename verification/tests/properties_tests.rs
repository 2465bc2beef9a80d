use syn_parser::parser::graph::CodeGraph;
use syn_parser::parser::graph_ids::{GraphNodeId, NodeType};
use syn_parser::parser::input::{
    AttributeInput, ConstInput, EnumInput, ExternCrateInput, FieldInput, FieldsInput, FnInput,
    GenericParamInput, ImplInput, ImplMethodInput, Item, MacroCallInput, MacroDefInput,
    ModuleInput, ParamInput, PathArgs, PathSegment, StaticInput, StructInput, TraitInput,
    TraitMethodInput, TypeExpr, UseInput, UseTreeInput, VariantInput, VisibilityToken,
};
use syn_parser::parser::nodes::{ImplNode, NodeId, TypeDefNode, ValueKind};
use syn_parser::parser::relations::{
    validate, validate_graph, Relation, RelationError, RelationKind,
};
use syn_parser::parser::types::{GenericParamKind, GenericParamNode, TypeId, TypeKind, VisibilityKind};
use syn_parser::parser::visitor::analyze_items;

fn named(path: &[&str]) -> TypeExpr {
    TypeExpr::Path {
        qualified: false,
        segments: path
            .iter()
            .map(|s| PathSegment { ident: s.to_string(), args: PathArgs::Empty })
            .collect(),
    }
}

fn plain_fn(name: &str, vis: VisibilityToken) -> FnInput {
    FnInput {
        name: name.to_string(),
        vis,
        params: vec![],
        ret: None,
        generics: vec![],
        attrs: vec![],
        body: Some("{ }".to_string()),
    }
}

/// A mixed batch of declarations exercising every builder.
fn rich_fixture() -> Vec<Item> {
    vec![
        Item::Fn(FnInput {
            name: "f".to_string(),
            vis: VisibilityToken::Public,
            params: vec![ParamInput::Typed {
                name: Some("x".to_string()),
                mutable: false,
                ty: named(&["i32"]),
            }],
            ret: Some(named(&["i32"])),
            generics: vec![],
            attrs: vec![],
            body: Some("{ x }".to_string()),
        }),
        Item::Struct(StructInput {
            name: "S".to_string(),
            vis: VisibilityToken::Inherited,
            fields: FieldsInput::Named(vec![
                FieldInput {
                    name: Some("a".to_string()),
                    vis: VisibilityToken::Inherited,
                    ty: named(&["i32"]),
                    attrs: vec![],
                },
                FieldInput {
                    name: Some("a2".to_string()),
                    vis: VisibilityToken::Inherited,
                    ty: named(&["i32"]),
                    attrs: vec![],
                },
            ]),
            generics: vec![],
            attrs: vec![],
        }),
        Item::Enum(EnumInput {
            name: "E".to_string(),
            vis: VisibilityToken::Public,
            variants: vec![VariantInput {
                name: "V".to_string(),
                fields: FieldsInput::Unit,
                discriminant: Some("1".to_string()),
                attrs: vec![],
            }],
            generics: vec![],
            attrs: vec![],
        }),
        Item::Trait(TraitInput {
            name: "T".to_string(),
            vis: VisibilityToken::Inherited,
            methods: vec![],
            supertraits: vec![],
            generics: vec![],
            attrs: vec![],
        }),
        Item::Impl(ImplInput {
            self_ty: named(&["S"]),
            trait_path: Some(vec![PathSegment { ident: "T".to_string(), args: PathArgs::Empty }]),
            methods: vec![],
            generics: vec![],
        }),
        Item::Mod(ModuleInput {
            name: "inner".to_string(),
            vis: VisibilityToken::Inherited,
            attrs: vec![],
            content: Some(vec![Item::Fn(plain_fn("g", VisibilityToken::Public))]),
        }),
        Item::Use(UseInput {
            tree: UseTreeInput::Path {
                ident: "std".to_string(),
                sub: Box::new(UseTreeInput::Name("fmt".to_string())),
            },
        }),
        Item::ExternCrate(ExternCrateInput { name: "alloc".to_string() }),
        Item::Const(ConstInput {
            name: "LIMIT".to_string(),
            vis: VisibilityToken::Public,
            ty: named(&["u32"]),
            value: Some("7".to_string()),
            attrs: vec![],
        }),
        Item::Static(StaticInput {
            name: "COUNTER".to_string(),
            vis: VisibilityToken::Public,
            mutable: true,
            ty: named(&["u64"]),
            value: Some("0".to_string()),
            attrs: vec![],
        }),
        Item::MacroDef(MacroDefInput {
            name: Some("my_macro".to_string()),
            attrs: vec![AttributeInput {
                name: "macro_export".to_string(),
                args: vec![],
                value: Some("#[macro_export]".to_string()),
                doc: None,
            }],
            tokens: "($x:expr) => { $x + 1 }; ($x:expr, $y:expr) => { $x + $y }".to_string(),
        }),
        Item::MacroCall(MacroCallInput { path: vec!["my_macro".to_string()] }),
    ]
}

/// Determinism: re-analyzing identical input yields identical node, type, and
/// relation counts and identical id assignment order.
#[test]
fn analyze_twice_yields_identical_counts_and_ids() {
    let g1 = analyze_items(rich_fixture());
    let g2 = analyze_items(rich_fixture());
    assert_eq!(g1.functions.len(), g2.functions.len());
    assert_eq!(g1.defined_types.len(), g2.defined_types.len());
    assert_eq!(g1.type_graph.len(), g2.type_graph.len());
    assert_eq!(g1.impls.len(), g2.impls.len());
    assert_eq!(g1.traits.len(), g2.traits.len());
    assert_eq!(g1.private_traits.len(), g2.private_traits.len());
    assert_eq!(g1.relations.len(), g2.relations.len());
    assert_eq!(g1.modules.len(), g2.modules.len());
    assert_eq!(g1.values.len(), g2.values.len());
    assert_eq!(g1.macros.len(), g2.macros.len());
    let ids1: Vec<NodeId> = g1.functions.iter().map(|f| f.id).collect();
    let ids2: Vec<NodeId> = g2.functions.iter().map(|f| f.id).collect();
    assert_eq!(ids1, ids2);
    let tids1: Vec<TypeId> = g1.type_graph.iter().map(|t| t.id).collect();
    let tids2: Vec<TypeId> = g2.type_graph.iter().map(|t| t.id).collect();
    assert_eq!(tids1, tids2);
    let rels1: Vec<Relation> = g1.relations.clone();
    let rels2: Vec<Relation> = g2.relations.clone();
    assert_eq!(rels1, rels2);
}

/// Relation validity: every relation in a finished graph passes the
/// validator, and every implementation block's ids resolve.
#[test]
fn finished_graph_passes_validation() {
    let g = analyze_items(rich_fixture());
    let errs = validate_graph(&g);
    assert!(errs.is_empty(), "unexpected validation findings: {:?}", errs);
}

/// Containment acyclicity: every containment relation points from an
/// earlier-allocated node to a later-allocated one, so no module can
/// transitively contain itself.
#[test]
fn containment_is_strictly_ordered() {
    let nested = vec![Item::Mod(ModuleInput {
        name: "a".to_string(),
        vis: VisibilityToken::Public,
        attrs: vec![],
        content: Some(vec![Item::Mod(ModuleInput {
            name: "b".to_string(),
            vis: VisibilityToken::Public,
            attrs: vec![],
            content: Some(vec![Item::Fn(plain_fn("leaf", VisibilityToken::Public))]),
        })]),
    })];
    let g = analyze_items(nested);
    for r in &g.relations {
        if r.kind == RelationKind::Contains {
            assert!(r.source.unique_id < r.target.unique_id);
        }
    }
}

/// Interning idempotence at run time: identical canonical text maps to one
/// id, distinct text to distinct ids.
#[test]
fn interning_deduplicates_identical_type_text() {
    let items = vec![
        Item::Const(ConstInput {
            name: "A".to_string(),
            vis: VisibilityToken::Public,
            ty: named(&["i32"]),
            value: None,
            attrs: vec![],
        }),
        Item::Const(ConstInput {
            name: "B".to_string(),
            vis: VisibilityToken::Public,
            ty: named(&["i32"]),
            value: None,
            attrs: vec![],
        }),
        Item::Const(ConstInput {
            name: "C".to_string(),
            vis: VisibilityToken::Public,
            ty: named(&["u64"]),
            value: None,
            attrs: vec![],
        }),
    ];
    let g = analyze_items(items);
    assert_eq!(g.values[0].type_id, g.values[1].type_id);
    assert_ne!(g.values[0].type_id, g.values[2].type_id);
    let i32_entries = g
        .type_graph
        .iter()
        .filter(|t| matches!(&t.kind, TypeKind::Named { path, .. } if path == &vec!["i32".to_string()]))
        .count();
    assert_eq!(i32_entries, 1);
}

/// One public function with one typed parameter: one function node, the
/// parameter and the return type sharing one interned type id.
#[test]
fn scenario_function_with_shared_parameter_and_return_type() {
    let items = vec![Item::Fn(FnInput {
        name: "f".to_string(),
        vis: VisibilityToken::Public,
        params: vec![ParamInput::Typed {
            name: Some("x".to_string()),
            mutable: false,
            ty: named(&["i32"]),
        }],
        ret: Some(named(&["i32"])),
        generics: vec![],
        attrs: vec![],
        body: Some("{ x }".to_string()),
    })];
    let g = analyze_items(items);
    assert_eq!(g.functions.len(), 1);
    let f = &g.functions[0];
    assert_eq!(f.name, "f");
    assert_eq!(f.visibility, VisibilityKind::Public);
    assert_eq!(f.parameters.len(), 1);
    assert_eq!(f.parameters[0].name, Some("x".to_string()));
    let param_tid = f.parameters[0].type_id;
    let ret_tid = f.return_type.expect("return type expected");
    assert_eq!(param_tid, ret_tid);
    let ty = g.type_graph.iter().find(|t| t.id == param_tid).expect("type entry expected");
    assert!(matches!(&ty.kind, TypeKind::Named { path, .. } if path == &vec!["i32".to_string()]));
    let has_return_rel = g.relations.iter().any(|r| {
        r.kind == RelationKind::FunctionReturn && r.source == f.id
            && r.target.unique_id == ret_tid.0
    });
    assert!(has_return_rel);
}

/// One struct with two fields of one written type: one struct node, both
/// fields sharing one interned type id, and two field relations.
#[test]
fn scenario_struct_fields_share_one_type_entry() {
    let items = vec![Item::Struct(StructInput {
        name: "S".to_string(),
        vis: VisibilityToken::Inherited,
        fields: FieldsInput::Named(vec![
            FieldInput {
                name: Some("a".to_string()),
                vis: VisibilityToken::Inherited,
                ty: named(&["i32"]),
                attrs: vec![],
            },
            FieldInput {
                name: Some("a2".to_string()),
                vis: VisibilityToken::Inherited,
                ty: named(&["i32"]),
                attrs: vec![],
            },
        ]),
        generics: vec![],
        attrs: vec![],
    })];
    let g = analyze_items(items);
    let s = g
        .defined_types
        .iter()
        .find_map(|d| match d {
            TypeDefNode::Struct(s) if s.name == "S" => Some(s),
            _ => None,
        })
        .expect("struct node expected");
    assert_eq!(s.fields.len(), 2);
    assert_eq!(s.fields[0].type_id, s.fields[1].type_id);
    let field_rels = g
        .relations
        .iter()
        .filter(|r| r.kind == RelationKind::StructField && r.source == s.id)
        .count();
    assert_eq!(field_rels, 2);
}

/// A non-public trait with an implementation of it: the implementation is
/// excluded from the implementation collection, while the trait itself stays
/// in the private-trait collection.
#[test]
fn scenario_impl_of_private_trait_is_excluded() {
    let items = vec![
        Item::Struct(StructInput {
            name: "S".to_string(),
            vis: VisibilityToken::Public,
            fields: FieldsInput::Unit,
            generics: vec![],
            attrs: vec![],
        }),
        Item::Trait(TraitInput {
            name: "T".to_string(),
            vis: VisibilityToken::Inherited,
            methods: vec![],
            supertraits: vec![],
            generics: vec![],
            attrs: vec![],
        }),
        Item::Impl(ImplInput {
            self_ty: named(&["S"]),
            trait_path: Some(vec![PathSegment { ident: "T".to_string(), args: PathArgs::Empty }]),
            methods: vec![],
            generics: vec![],
        }),
    ];
    let g = analyze_items(items);
    assert_eq!(g.impls.len(), 0);
    assert!(g.private_traits.iter().any(|t| t.name == "T"));
    assert!(!g.traits.iter().any(|t| t.name == "T"));
}

/// An implementation of a public trait is kept.
#[test]
fn scenario_impl_of_public_trait_is_kept() {
    let items = vec![
        Item::Struct(StructInput {
            name: "S".to_string(),
            vis: VisibilityToken::Public,
            fields: FieldsInput::Unit,
            generics: vec![],
            attrs: vec![],
        }),
        Item::Trait(TraitInput {
            name: "T".to_string(),
            vis: VisibilityToken::Public,
            methods: vec![TraitMethodInput {
                name: "m".to_string(),
                params: vec![ParamInput::Receiver { mutable: false, ty: named(&["Self"]) }],
                ret: None,
                generics: vec![],
                attrs: vec![],
                default_body: None,
            }],
            supertraits: vec![],
            generics: vec![],
            attrs: vec![],
        }),
        Item::Impl(ImplInput {
            self_ty: named(&["S"]),
            trait_path: Some(vec![PathSegment { ident: "T".to_string(), args: PathArgs::Empty }]),
            methods: vec![ImplMethodInput {
                name: "m".to_string(),
                vis: VisibilityToken::Inherited,
                params: vec![ParamInput::Receiver { mutable: false, ty: named(&["Self"]) }],
                ret: None,
                generics: vec![],
                attrs: vec![],
                body: Some("{ }".to_string()),
            }],
            generics: vec![],
        }),
    ];
    let g = analyze_items(items);
    assert_eq!(g.impls.len(), 1);
    assert!(g.impls[0].trait_type.is_some());
    let has_trait_rel = g.relations.iter().any(|r| r.kind == RelationKind::ImplementsTrait);
    assert!(has_trait_rel);
}

/// A module holding one public function: a module node whose contained-item
/// ids include the function, plus a containment relation from the synthetic
/// root module to the module.
#[test]
fn scenario_module_contains_function() {
    let items = vec![Item::Mod(ModuleInput {
        name: "inner".to_string(),
        vis: VisibilityToken::Inherited,
        attrs: vec![],
        content: Some(vec![Item::Fn(plain_fn("g", VisibilityToken::Public))]),
    })];
    let g = analyze_items(items);
    let inner = g.modules.iter().find(|m| m.name == "inner").expect("inner module expected");
    let gf = g.functions.iter().find(|f| f.name == "g").expect("function g expected");
    assert!(inner.items.contains(&gf.id));
    let root = g.modules.iter().find(|m| m.name == "root").expect("root module expected");
    let root_contains_inner = g.relations.iter().any(|r| {
        r.kind == RelationKind::Contains && r.source == root.id && r.target == inner.id
    });
    assert!(root_contains_inner);
}

/// The validator reports each error kind on a matching bad relation.
#[test]
fn validator_reports_each_error_kind() {
    let node = |tag: NodeType, v: usize| NodeId { type_prefix: tag, unique_id: v };
    // A containment relation whose source is not module-tagged.
    let bad_source = Relation {
        source: node(NodeType::Node, 0),
        target: node(NodeType::Node, 1),
        kind: RelationKind::Contains,
    };
    assert!(matches!(
        validate(&bad_source),
        Err(RelationError::InvalidSourceType { .. })
    ));
    // A return relation whose target is not type-tagged.
    let bad_target = Relation {
        source: node(NodeType::Function, 0),
        target: node(NodeType::Node, 1),
        kind: RelationKind::FunctionReturn,
    };
    assert!(matches!(
        validate(&bad_target),
        Err(RelationError::InvalidTargetType { .. })
    ));
    // An immediate containment self-loop.
    let self_loop = Relation {
        source: node(NodeType::Module, 3),
        target: node(NodeType::Module, 3),
        kind: RelationKind::Contains,
    };
    assert!(matches!(
        validate(&self_loop),
        Err(RelationError::CircularDependency { .. })
    ));
    // An implementation pairing whose source is not implementation-tagged.
    let bad_pairing = Relation {
        source: node(NodeType::Node, 0),
        target: node(NodeType::Type, 1),
        kind: RelationKind::ImplementsFor,
    };
    assert!(matches!(
        validate(&bad_pairing),
        Err(RelationError::InvalidImplementationPairing { .. })
    ));
    // A well-formed relation passes.
    let good = Relation {
        source: node(NodeType::Module, 0),
        target: node(NodeType::Function, 1),
        kind: RelationKind::Contains,
    };
    assert!(validate(&good).is_ok());
}

/// An exported declarative macro is recorded with its rules split on the
/// naive delimiter scan; an invocation site links to it by name.
#[test]
fn macro_definition_rules_and_invocation_linkage() {
    let items = vec![
        Item::MacroDef(MacroDefInput {
            name: Some("my_macro".to_string()),
            attrs: vec![AttributeInput {
                name: "macro_export".to_string(),
                args: vec![],
                value: Some("#[macro_export]".to_string()),
                doc: None,
            }],
            tokens: "($x:expr) => { $x + 1 }; ($y:expr) => { $y }".to_string(),
        }),
        Item::MacroCall(MacroCallInput {
            path: vec!["helpers".to_string(), "my_macro".to_string()],
        }),
    ];
    let g = analyze_items(items);
    assert_eq!(g.macros.len(), 1);
    let m = &g.macros[0];
    assert_eq!(m.name, "my_macro");
    assert_eq!(m.visibility, VisibilityKind::Public);
    assert_eq!(m.rules.len(), 2);
    assert_eq!(m.rules[0].pattern, "($x:expr)");
    assert_eq!(m.rules[0].expansion, "{ $x + 1 }");
    assert_eq!(m.rules[1].pattern, "($y:expr)");
    assert_eq!(m.rules[1].expansion, "{ $y }");
    let has_use = g
        .relations
        .iter()
        .any(|r| r.kind == RelationKind::MacroUse && r.target == m.id);
    assert!(has_use);
}

/// An unexported declarative macro is not recorded.
#[test]
fn unexported_macro_definition_is_dropped() {
    let items = vec![Item::MacroDef(MacroDefInput {
        name: Some("hidden".to_string()),
        attrs: vec![],
        tokens: "($x:expr) => { $x }".to_string(),
    })];
    let g = analyze_items(items);
    assert_eq!(g.macros.len(), 0);
}

/// A procedural macro function is recorded as a macro alongside the function.
#[test]
fn proc_macro_function_yields_macro_and_function_nodes() {
    let items = vec![Item::Fn(FnInput {
        name: "my_derive".to_string(),
        vis: VisibilityToken::Public,
        params: vec![],
        ret: None,
        generics: vec![],
        attrs: vec![AttributeInput {
            name: "proc_macro_derive".to_string(),
            args: vec!["MyTrait".to_string()],
            value: Some("#[proc_macro_derive(MyTrait)]".to_string()),
            doc: None,
        }],
        body: Some("{ }".to_string()),
    })];
    let g = analyze_items(items);
    assert_eq!(g.functions.len(), 1);
    assert_eq!(g.macros.len(), 1);
    assert_eq!(g.macros[0].name, "my_derive");
}

/// Documentation lines are trimmed of surrounding whitespace and joined by
/// single newlines.
#[test]
fn doc_lines_join_with_newlines() {
    let items = vec![Item::Fn(FnInput {
        name: "documented".to_string(),
        vis: VisibilityToken::Public,
        params: vec![],
        ret: None,
        generics: vec![],
        attrs: vec![
            AttributeInput {
                name: "doc".to_string(),
                args: vec![],
                value: None,
                doc: Some(" first line ".to_string()),
            },
            AttributeInput {
                name: "doc".to_string(),
                args: vec![],
                value: None,
                doc: Some("\tsecond line".to_string()),
            },
        ],
        body: Some("{ }".to_string()),
    })];
    let g = analyze_items(items);
    assert_eq!(
        g.functions[0].docstring,
        Some("first line\nsecond line".to_string())
    );
}

/// Constants and statics are recorded with their kinds and raw value text.
#[test]
fn values_record_kind_and_raw_text() {
    let items = vec![
        Item::Const(ConstInput {
            name: "LIMIT".to_string(),
            vis: VisibilityToken::Public,
            ty: named(&["u32"]),
            value: Some("7".to_string()),
            attrs: vec![],
        }),
        Item::Static(StaticInput {
            name: "COUNTER".to_string(),
            vis: VisibilityToken::Public,
            mutable: true,
            ty: named(&["u64"]),
            value: Some("0".to_string()),
            attrs: vec![],
        }),
    ];
    let g = analyze_items(items);
    assert_eq!(g.values.len(), 2);
    assert_eq!(g.values[0].kind, ValueKind::Constant);
    assert_eq!(g.values[0].value, Some("7".to_string()));
    assert_eq!(g.values[1].kind, ValueKind::Static { is_mutable: true });
    let value_rels = g.relations.iter().filter(|r| r.kind == RelationKind::ValueType).count();
    assert_eq!(value_rels, 2);
}

/// A use declaration yields a synthetic named type carrying its path and a
/// uses relation; an enum variant's raw discriminant text is kept.
#[test]
fn use_paths_and_discriminants_are_recorded() {
    let items = vec![
        Item::Use(UseInput {
            tree: UseTreeInput::Path {
                ident: "std".to_string(),
                sub: Box::new(UseTreeInput::Rename {
                    ident: "fmt".to_string(),
                    rename: "formatting".to_string(),
                }),
            },
        }),
        Item::Enum(EnumInput {
            name: "WithDisc".to_string(),
            vis: VisibilityToken::Public,
            variants: vec![VariantInput {
                name: "A".to_string(),
                fields: FieldsInput::Unit,
                discriminant: Some("1".to_string()),
                attrs: vec![],
            }],
            generics: vec![],
            attrs: vec![],
        }),
    ];
    let g = analyze_items(items);
    let use_ty = g
        .type_graph
        .iter()
        .find(|t| {
            matches!(&t.kind, TypeKind::Named { path, .. } if path.len() == 2 && path[0] == "std")
        })
        .expect("synthetic use type expected");
    if let TypeKind::Named { path, .. } = &use_ty.kind {
        assert_eq!(path[1], "fmt as formatting");
    }
    assert!(g.relations.iter().any(|r| r.kind == RelationKind::Uses));
    let e = g
        .defined_types
        .iter()
        .find_map(|d| match d {
            TypeDefNode::Enum(e) if e.name == "WithDisc" => Some(e),
            _ => None,
        })
        .expect("enum expected");
    assert_eq!(e.variants[0].discriminant, Some("1".to_string()));
}

/// The name-based identifier bytes match the reference computation through
/// the real UUID library.
#[test]
fn graph_id_uuid_matches_reference() {
    let id = GraphNodeId::new(1, NodeType::Node);
    let expected = uuid::Uuid::new_v5(
        &uuid::Uuid::from_bytes([0x8a; 16]),
        &1u64.to_le_bytes(),
    );
    assert_eq!(id.to_uuid(), expected.as_bytes().to_vec());

    let module_id = GraphNodeId::new(7, NodeType::Module);
    let expected_module = uuid::Uuid::new_v5(
        &uuid::Uuid::from_bytes([0x8d; 16]),
        &7u64.to_le_bytes(),
    );
    assert_eq!(module_id.to_uuid(), expected_module.as_bytes().to_vec());
}

/// A trait declared with restricted visibility keeps its declared path.
#[test]
fn restricted_trait_keeps_declared_path() {
    let items = vec![Item::Trait(TraitInput {
        name: "CrateTrait".to_string(),
        vis: VisibilityToken::Restricted(vec!["crate".to_string()]),
        methods: vec![],
        supertraits: vec![],
        generics: vec![],
        attrs: vec![],
    })];
    let g = analyze_items(items);
    let t = g
        .private_traits
        .iter()
        .find(|t| t.name == "CrateTrait")
        .expect("restricted trait expected");
    assert_eq!(t.visibility, VisibilityKind::Restricted(vec!["crate".to_string()]));
}

/// A module literally named as the private marker defaults to restricted
/// visibility even when its token says inherited.
#[test]
fn private_marker_module_visibility() {
    let items = vec![Item::Mod(ModuleInput {
        name: "private_module".to_string(),
        vis: VisibilityToken::Inherited,
        attrs: vec![],
        content: Some(vec![]),
    })];
    let g = analyze_items(items);
    let m = g
        .modules
        .iter()
        .find(|m| m.name == "private_module")
        .expect("module expected");
    assert_eq!(
        m.visibility,
        VisibilityKind::Restricted(vec!["super".to_string()])
    );
}

fn graph_node_count(g: &CodeGraph) -> usize {
    g.functions.len() + g.defined_types.len() + g.modules.len() + g.values.len() + g.macros.len()
}

/// A generic parameter list routes trait bounds through the interner.
#[test]
fn generic_bounds_are_interned() {
    let items = vec![Item::Fn(FnInput {
        name: "bounded".to_string(),
        vis: VisibilityToken::Public,
        params: vec![ParamInput::Typed {
            name: Some("x".to_string()),
            mutable: false,
            ty: named(&["T"]),
        }],
        ret: None,
        generics: vec![GenericParamInput::Type {
            name: "T".to_string(),
            bounds: vec![syn_parser::parser::input::TypeBound::Trait(vec![PathSegment {
                ident: "Clone".to_string(),
                args: PathArgs::Empty,
            }])],
            default: None,
        }],
        attrs: vec![],
        body: Some("{ }".to_string()),
    })];
    let g = analyze_items(items);
    assert!(graph_node_count(&g) >= 1);
    let clone_ty = g.type_graph.iter().any(|t| {
        matches!(&t.kind, TypeKind::Named { path, .. } if path == &vec!["Clone".to_string()])
    });
    assert!(clone_ty);
}

/// A trait declaration records a type-definition relation to its own named
/// type entry and one inheritance relation per supertrait, each aimed at the
/// supertrait's interned entry.
#[test]
fn trait_relations_record_definition_and_inheritance() {
    let items = vec![Item::Trait(TraitInput {
        name: "Child".to_string(),
        vis: VisibilityToken::Public,
        methods: vec![],
        supertraits: vec![syn_parser::parser::input::TypeBound::Trait(vec![PathSegment {
            ident: "Base".to_string(),
            args: PathArgs::Empty,
        }])],
        generics: vec![],
        attrs: vec![],
    })];
    let g = analyze_items(items);
    let tr = g.traits.iter().find(|t| t.name == "Child").expect("trait recorded");
    assert_eq!(tr.super_traits.len(), 1);
    let base_id = tr.super_traits[0];
    let base_entry = &g.type_graph[base_id.0];
    assert!(matches!(
        &base_entry.kind,
        TypeKind::Named { path, .. } if path == &vec!["Base".to_string()]
    ));
    let trait_node = NodeId { type_prefix: NodeType::Trait, unique_id: tr.id.0 };
    assert!(g.relations.iter().any(|r| {
        r.kind == RelationKind::Inherits && r.source == trait_node
            && r.target == NodeId { type_prefix: NodeType::Type, unique_id: base_id.0 }
    }));
    let def = g
        .relations
        .iter()
        .find(|r| r.kind == RelationKind::TypeDefinition && r.source == trait_node)
        .expect("definition relation recorded");
    let own_entry = &g.type_graph[def.target.unique_id];
    assert!(matches!(
        &own_entry.kind,
        TypeKind::Named { path, .. } if path == &vec!["Child".to_string()]
    ));
}

/// An enum records exactly one variant relation per variant, besides the two
/// per-field relations of each variant's field list.
#[test]
fn enum_variant_relation_count_is_exact() {
    let items = vec![Item::Enum(EnumInput {
        name: "Shape".to_string(),
        vis: VisibilityToken::Public,
        variants: vec![
            VariantInput {
                name: "Dot".to_string(),
                fields: FieldsInput::Unit,
                discriminant: None,
                attrs: vec![],
            },
            VariantInput {
                name: "Line".to_string(),
                fields: FieldsInput::Unnamed(vec![FieldInput {
                    name: None,
                    vis: VisibilityToken::Inherited,
                    ty: named(&["u32"]),
                    attrs: vec![],
                }]),
                discriminant: None,
                attrs: vec![],
            },
        ],
        generics: vec![],
        attrs: vec![],
    })];
    let g = analyze_items(items);
    let variant_edges = g.relations.iter().filter(|r| r.kind == RelationKind::EnumVariant).count();
    assert_eq!(variant_edges, 2);
    let field_edges = g.relations.iter().filter(|r| r.kind == RelationKind::StructField).count();
    assert_eq!(field_edges, 1);
}

/// The post-build pass reports unresolved implementation ids and unresolved
/// generic bounds on a hand-built inconsistent graph.
#[test]
fn validator_reports_unresolved_ids() {
    let g = CodeGraph {
        functions: vec![],
        defined_types: vec![],
        type_graph: vec![],
        impls: vec![ImplNode {
            id: NodeId { type_prefix: NodeType::Impl, unique_id: 0 },
            self_type: TypeId(5),
            trait_type: None,
            methods: vec![],
            generic_params: vec![GenericParamNode {
                id: NodeId { type_prefix: NodeType::Node, unique_id: 1 },
                kind: GenericParamKind::Type {
                    name: "T".to_string(),
                    bounds: vec![TypeId(9)],
                    default: None,
                },
            }],
        }],
        traits: vec![],
        private_traits: vec![],
        relations: vec![],
        modules: vec![],
        values: vec![],
        macros: vec![],
    };
    let errs = validate_graph(&g);
    assert!(errs
        .iter()
        .any(|e| matches!(e, RelationError::MissingRequiredId { .. })));
    assert!(errs
        .iter()
        .any(|e| matches!(e, RelationError::GenericConstraintViolation { .. })));
}
