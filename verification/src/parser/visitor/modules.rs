//! The module builder (the recursion point of the traversal), together with
//! import, extern-crate, constant, and static processing.

use vstd::prelude::*;
use vstd::string::StringExecFns;
use crate::parser::graph_ids::NodeType;
use crate::parser::input::{
    size_items, size_type, ConstInput, ExternCrateInput, ModuleInput, StaticInput, UseInput,
    UseTreeInput, VisibilityToken,
};
use crate::parser::nodes::{ModuleNode, NodeId, ValueKind, ValueNode};
use crate::parser::relations::{Relation, RelationKind};
use crate::parser::types::{TypeKind, VisibilityKind};
use crate::parser::visitor::state::{builder_frame, spec_cache_lookup, VisitorState};
use crate::parser::visitor::type_processing::key_of;
use crate::parser::visitor::utils::{
    convert_visibility, extract_attributes, extract_docstring, opt_view, spec_convert_visibility,
    spec_docstring, spec_extract_attrs, string_is,
};

verus! {

/// The path segments a use tree contributes: each nesting level one segment,
/// a rename as one combined segment, a glob as a star; a group contributes
/// nothing, as only a single linear path is tracked per declaration.
pub open spec fn spec_use_path(t: UseTreeInput) -> Seq<Seq<char>>
    decreases t,
{
    match t {
        UseTreeInput::Path { ident, sub } => seq![ident@] + spec_use_path(*sub),
        UseTreeInput::Name(n) => seq![n@],
        UseTreeInput::Rename { ident, rename } => seq![ident@ + " as "@ + rename@],
        UseTreeInput::Glob => seq!["*"@],
        UseTreeInput::Group(_) => Seq::<Seq<char>>::empty(),
    }
}

/// Extracts the path segments of a use tree into the given list.
pub fn extract_use_path(tree: UseTreeInput, segments: &mut Vec<String>)
    ensures
        final(segments).deep_view() == old(segments).deep_view() + spec_use_path(tree),
    decreases tree,
{
    match tree {
        UseTreeInput::Path { ident, sub } => {
            segments.push(ident);
            proof {
                assert(segments.deep_view() =~= old(segments).deep_view() + seq![ident@]);
            }
            extract_use_path(*sub, segments);
            proof {
                assert(segments.deep_view() =~= old(segments).deep_view() + spec_use_path(tree));
            }
        },
        UseTreeInput::Name(n) => {
            let ghost nv = n@;
            segments.push(n);
            proof {
                assert(segments.deep_view() =~= old(segments).deep_view() + seq![nv]);
            }
        },
        UseTreeInput::Rename { ident, rename } => {
            let ghost iv = ident@;
            let ghost rv = rename@;
            let mut combined = ident;
            combined.append(" as ");
            combined.append(rename.as_str());
            segments.push(combined);
            proof {
                assert(segments.deep_view() =~= old(segments).deep_view() + seq![
                    iv + " as "@ + rv,
                ]);
            }
        },
        UseTreeInput::Glob => {
            segments.push(String::from_str("*"));
            proof {
                assert(segments.deep_view() =~= old(segments).deep_view() + seq!["*"@]);
            }
        },
        UseTreeInput::Group(_) => {
            // Only a single linear path is tracked per declaration; grouped
            // subtrees contribute no segments to the enclosing path.
            proof {
                assert(segments.deep_view() =~= old(segments).deep_view() + spec_use_path(tree));
            }
        },
    }
}

impl VisitorState {
    /// Processes a use declaration: a synthetic named type entry carries the
    /// imported path, tied to the import site by a uses relation.
    pub fn process_use(&mut self, u: UseInput) -> (r: NodeId)
        requires
            old(self).wf(),
            old(self).next_node_id + 2 <= usize::MAX,
            old(self).next_type_id + 2 <= usize::MAX,
        ensures
            final(self).wf(),
            builder_frame(*old(self), *final(self)),
            final(self).code_graph.functions == old(self).code_graph.functions,
            final(self).code_graph.defined_types == old(self).code_graph.defined_types,
            final(self).code_graph.impls == old(self).code_graph.impls,
            final(self).code_graph.traits == old(self).code_graph.traits,
            final(self).code_graph.private_traits == old(self).code_graph.private_traits,
            final(self).code_graph.modules == old(self).code_graph.modules,
            final(self).code_graph.values == old(self).code_graph.values,
            final(self).code_graph.macros == old(self).code_graph.macros,
            final(self).next_trait_id == old(self).next_trait_id,
            final(self).next_node_id == old(self).next_node_id + 1,
            final(self).next_type_id <= old(self).next_type_id + 1,
            r == (NodeId { type_prefix: NodeType::Node, unique_id: old(self).next_node_id }),
            spec_use_path(u.tree).len() > 0 ==> final(self).code_graph.type_graph@.len() == old(self).code_graph.type_graph@.len() + 1 && match final(self).code_graph.type_graph@.last().kind {
                TypeKind::Named { path, is_fully_qualified } => path.deep_view() == spec_use_path(
                    u.tree,
                ) && !is_fully_qualified,
                _ => false,
            },
            spec_use_path(u.tree).len() > 0 ==> final(self).code_graph.relations@ == old(self).code_graph.relations@.push(
                Relation {
                    source: r,
                    target: NodeId {
                        type_prefix: NodeType::Type,
                        unique_id: final(self).code_graph.type_graph@.last().id.0,
                    },
                    kind: RelationKind::Uses,
                },
            ),
            spec_use_path(u.tree).len() == 0 ==> final(self).code_graph.relations == old(self).code_graph.relations && final(self).code_graph.type_graph == old(self).code_graph.type_graph,
    {
        let import_id = self.alloc_id(NodeType::Node);
        let ghost s_id = *self;
        let mut path_segments: Vec<String> = Vec::new();
        proof {
            assert(path_segments.deep_view() =~= Seq::<Seq<char>>::empty());
        }
        extract_use_path(u.tree, &mut path_segments);
        proof {
            assert(path_segments.deep_view() =~= spec_use_path(u.tree));
            assert(path_segments.deep_view().len() == path_segments@.len());
        }
        if path_segments.len() > 0 {
            let tid = self.push_type_node(
                TypeKind::Named { path: path_segments, is_fully_qualified: false },
                Vec::new(),
            );
            self.add_relation(
                Relation {
                    source: import_id,
                    target: NodeId { type_prefix: NodeType::Type, unique_id: tid.0 },
                    kind: RelationKind::Uses,
                },
            );
            proof {
                crate::parser::visitor::state::lemma_builder_frame_trans(*old(self), s_id, *self);
            }
        } else {
            proof {
                crate::parser::visitor::state::lemma_graph_extends_refl(self.code_graph);
            }
        }
        import_id
    }

    /// Processes an extern-crate declaration: a synthetic named type entry
    /// carries the crate name, tied to the import site by a uses relation.
    pub fn process_extern_crate(&mut self, e: ExternCrateInput) -> (r: NodeId)
        requires
            old(self).wf(),
            old(self).next_node_id + 2 <= usize::MAX,
            old(self).next_type_id + 2 <= usize::MAX,
        ensures
            final(self).wf(),
            builder_frame(*old(self), *final(self)),
            final(self).code_graph.functions == old(self).code_graph.functions,
            final(self).code_graph.defined_types == old(self).code_graph.defined_types,
            final(self).code_graph.impls == old(self).code_graph.impls,
            final(self).code_graph.traits == old(self).code_graph.traits,
            final(self).code_graph.private_traits == old(self).code_graph.private_traits,
            final(self).code_graph.modules == old(self).code_graph.modules,
            final(self).code_graph.values == old(self).code_graph.values,
            final(self).code_graph.macros == old(self).code_graph.macros,
            final(self).next_trait_id == old(self).next_trait_id,
            final(self).next_node_id == old(self).next_node_id + 1,
            final(self).next_type_id == old(self).next_type_id + 1,
            final(self).code_graph.type_graph@.len() == old(self).code_graph.type_graph@.len()
                + 1,
            match final(self).code_graph.type_graph@.last().kind {
                TypeKind::Named { path, is_fully_qualified } => path@.len() == 1 && path@[0]@
                    == e.name@ && !is_fully_qualified,
                _ => false,
            },
            final(self).code_graph.relations@ == old(self).code_graph.relations@.push(
                Relation {
                    source: r,
                    target: NodeId {
                        type_prefix: NodeType::Type,
                        unique_id: final(self).code_graph.type_graph@.last().id.0,
                    },
                    kind: RelationKind::Uses,
                },
            ),
    {
        let import_id = self.alloc_id(NodeType::Node);
        let ghost s_id = *self;
        let mut path: Vec<String> = Vec::new();
        path.push(e.name);
        let tid = self.push_type_node(
            TypeKind::Named { path, is_fully_qualified: false },
            Vec::new(),
        );
        self.add_relation(
            Relation {
                source: import_id,
                target: NodeId { type_prefix: NodeType::Type, unique_id: tid.0 },
                kind: RelationKind::Uses,
            },
        );
        proof {
            crate::parser::visitor::state::lemma_builder_frame_trans(*old(self), s_id, *self);
        }
        import_id
    }

    /// Processes a constant item into a value node, tied to its declared type
    /// by a value-type relation.
    pub fn process_const(&mut self, c: ConstInput) -> (r: NodeId)
        requires
            old(self).wf(),
            old(self).next_node_id + 1 + size_type(c.ty) <= usize::MAX,
            old(self).next_type_id + 1 + size_type(c.ty) <= usize::MAX,
        ensures
            final(self).wf(),
            builder_frame(*old(self), *final(self)),
            final(self).code_graph.functions == old(self).code_graph.functions,
            final(self).code_graph.defined_types == old(self).code_graph.defined_types,
            final(self).code_graph.impls == old(self).code_graph.impls,
            final(self).code_graph.traits == old(self).code_graph.traits,
            final(self).code_graph.private_traits == old(self).code_graph.private_traits,
            final(self).code_graph.modules == old(self).code_graph.modules,
            final(self).code_graph.macros == old(self).code_graph.macros,
            final(self).next_trait_id == old(self).next_trait_id,
            final(self).next_node_id <= old(self).next_node_id + 1 + size_type(c.ty),
            final(self).next_type_id <= old(self).next_type_id + 1 + size_type(c.ty),
            final(self).code_graph.values@.len() == old(self).code_graph.values@.len() + 1,
            old(self).next_node_id < final(self).next_node_id,
            r == (NodeId { type_prefix: NodeType::Node, unique_id: old(self).next_node_id }),
            ({
                let n = final(self).code_graph.values@.last();
                &&& n.id == r
                &&& n.name == c.name
                &&& n.visibility == spec_convert_visibility(c.vis)
                &&& n.kind == ValueKind::Constant
                &&& n.value == c.value
                &&& spec_cache_lookup(final(self).type_map@, key_of(c.ty)) == Some(n.type_id)
                &&& opt_view(n.docstring) == spec_docstring(c.attrs@)
                &&& n.attributes@ == spec_extract_attrs(c.attrs@)
                &&& final(self).code_graph.relations@ == old(self).code_graph.relations@.push(
                    Relation {
                        source: r,
                        target: NodeId { type_prefix: NodeType::Type, unique_id: n.type_id.0 },
                        kind: RelationKind::ValueType,
                    },
                )
            }),
    {
        let ConstInput { name, vis, ty, value, attrs } = c;
        let const_id = self.alloc_id(NodeType::Node);
        let ghost s_id = *self;
        let type_id = self.get_or_create_type(ty);
        let ghost s_ty = *self;
        self.add_relation(
            Relation {
                source: const_id,
                target: NodeId { type_prefix: NodeType::Type, unique_id: type_id.0 },
                kind: RelationKind::ValueType,
            },
        );
        let docstring = extract_docstring(&attrs);
        let attributes = extract_attributes(attrs);
        let node = ValueNode {
            id: const_id,
            name,
            visibility: convert_visibility(vis),
            type_id,
            kind: ValueKind::Constant,
            value,
            attributes,
            docstring,
        };
        self.add_value(node);
        proof {
            crate::parser::visitor::state::lemma_builder_frame_trans(*old(self), s_id, s_ty);
            crate::parser::visitor::state::lemma_builder_frame_trans(*old(self), s_ty, *self);
            assert(spec_cache_lookup(s_ty.type_map@, key_of(c.ty)) == Some(type_id));
        }
        const_id
    }

    /// Processes a static item into a value node with its mutability flag,
    /// tied to its declared type by a value-type relation.
    pub fn process_static(&mut self, st: StaticInput) -> (r: NodeId)
        requires
            old(self).wf(),
            old(self).next_node_id + 1 + size_type(st.ty) <= usize::MAX,
            old(self).next_type_id + 1 + size_type(st.ty) <= usize::MAX,
        ensures
            final(self).wf(),
            builder_frame(*old(self), *final(self)),
            final(self).code_graph.functions == old(self).code_graph.functions,
            final(self).code_graph.defined_types == old(self).code_graph.defined_types,
            final(self).code_graph.impls == old(self).code_graph.impls,
            final(self).code_graph.traits == old(self).code_graph.traits,
            final(self).code_graph.private_traits == old(self).code_graph.private_traits,
            final(self).code_graph.modules == old(self).code_graph.modules,
            final(self).code_graph.macros == old(self).code_graph.macros,
            final(self).next_trait_id == old(self).next_trait_id,
            final(self).next_node_id <= old(self).next_node_id + 1 + size_type(st.ty),
            final(self).next_type_id <= old(self).next_type_id + 1 + size_type(st.ty),
            final(self).code_graph.values@.len() == old(self).code_graph.values@.len() + 1,
            old(self).next_node_id < final(self).next_node_id,
            r == (NodeId { type_prefix: NodeType::Node, unique_id: old(self).next_node_id }),
            ({
                let n = final(self).code_graph.values@.last();
                &&& n.id == r
                &&& n.name == st.name
                &&& n.visibility == spec_convert_visibility(st.vis)
                &&& n.kind == (ValueKind::Static { is_mutable: st.mutable })
                &&& n.value == st.value
                &&& spec_cache_lookup(final(self).type_map@, key_of(st.ty)) == Some(n.type_id)
                &&& opt_view(n.docstring) == spec_docstring(st.attrs@)
                &&& n.attributes@ == spec_extract_attrs(st.attrs@)
                &&& final(self).code_graph.relations@ == old(self).code_graph.relations@.push(
                    Relation {
                        source: r,
                        target: NodeId { type_prefix: NodeType::Type, unique_id: n.type_id.0 },
                        kind: RelationKind::ValueType,
                    },
                )
            }),
    {
        let StaticInput { name, vis, mutable, ty, value, attrs } = st;
        let static_id = self.alloc_id(NodeType::Node);
        let ghost s_id = *self;
        let type_id = self.get_or_create_type(ty);
        let ghost s_ty = *self;
        self.add_relation(
            Relation {
                source: static_id,
                target: NodeId { type_prefix: NodeType::Type, unique_id: type_id.0 },
                kind: RelationKind::ValueType,
            },
        );
        let docstring = extract_docstring(&attrs);
        let attributes = extract_attributes(attrs);
        let node = ValueNode {
            id: static_id,
            name,
            visibility: convert_visibility(vis),
            type_id,
            kind: ValueKind::Static { is_mutable: mutable },
            value,
            attributes,
            docstring,
        };
        self.add_value(node);
        proof {
            crate::parser::visitor::state::lemma_builder_frame_trans(*old(self), s_id, s_ty);
            crate::parser::visitor::state::lemma_builder_frame_trans(*old(self), s_ty, *self);
            assert(spec_cache_lookup(s_ty.type_map@, key_of(st.ty)) == Some(type_id));
        }
        static_id
    }

    /// The visibility recorded for a module: a module literally named as the
    /// private marker defaults to path-restricted visibility even when its
    /// token says inherited.
    pub fn module_visibility(&self, name: &String, vis: VisibilityToken) -> (r: VisibilityKind)
        ensures
            name@ == "private_module"@ && vis is Inherited ==> (match r {
                VisibilityKind::Restricted(p) => p@.len() == 1 && p@[0]@ == "super"@,
                _ => false,
            }),
            !(name@ == "private_module"@ && vis is Inherited) ==> r == spec_convert_visibility(
                vis,
            ),
    {
        if string_is(name, "private_module") && matches!(vis, VisibilityToken::Inherited) {
            let mut p: Vec<String> = Vec::new();
            p.push(String::from_str("super"));
            VisibilityKind::Restricted(p)
        } else {
            convert_visibility(vis)
        }
    }
}

} // verus!

verus! {

/// Size measure of a module item's payload.
pub open spec fn size_module_input(m: ModuleInput) -> nat {
    2 + (match m.content {
        Some(items) => size_items(items@),
        None => 0,
    })
}

impl VisitorState {
    /// Processes a module item: walks its content depth-first, records the
    /// module node with its submodule and contained-item ids, and relies on
    /// the traversal to wire one containment relation per produced item.
    pub fn process_module(&mut self, m: ModuleInput) -> (r: NodeId)
        requires
            old(self).wf(),
            old(self).next_node_id + size_module_input(m) <= usize::MAX,
            old(self).next_type_id + size_module_input(m) <= usize::MAX,
            old(self).next_trait_id + size_module_input(m) <= usize::MAX,
        ensures
            final(self).wf(),
            builder_frame(*old(self), *final(self)),
            final(self).next_node_id <= old(self).next_node_id + size_module_input(m),
            final(self).next_type_id <= old(self).next_type_id + size_module_input(m),
            final(self).next_trait_id <= old(self).next_trait_id + size_module_input(m),
            r == (NodeId { type_prefix: NodeType::Module, unique_id: old(self).next_node_id }),
            final(self).code_graph.modules@.len() > old(self).code_graph.modules@.len(),
            old(self).next_node_id < final(self).next_node_id,
            crate::parser::visitor::graph_counts(final(self).code_graph)
                == crate::parser::visitor::counts_add(
                crate::parser::visitor::graph_counts(old(self).code_graph),
                crate::parser::visitor::counts_add(
                    crate::parser::visitor::GraphCounts {
                        modules: 1,
                        ..crate::parser::visitor::counts_zero()
                    },
                    match m.content {
                        Some(items) => crate::parser::visitor::counts_items(items@),
                        None => crate::parser::visitor::counts_zero(),
                    },
                ),
            ),
            ({
                let n = final(self).code_graph.modules@.last();
                &&& n.id == r
                &&& n.name == m.name
                &&& (m.vis is Inherited && m.name@ == "private_module"@ ==> (match n.visibility {
                    VisibilityKind::Restricted(p) => p@.len() == 1 && p@[0]@ == "super"@,
                    _ => false,
                }))
                &&& (!(m.vis is Inherited && m.name@ == "private_module"@) ==> n.visibility
                    == spec_convert_visibility(m.vis))
                &&& opt_view(n.docstring) == spec_docstring(m.attrs@)
                &&& n.attributes@ == spec_extract_attrs(m.attrs@)
                &&& forall|k: int|
                    0 <= k < n.items@.len() ==> exists|j: int|
                        0 <= j < final(self).code_graph.relations@.len() && final(self).code_graph.relations@[j] == (Relation {
                            source: r,
                            target: (#[trigger] n.items@[k]),
                            kind: RelationKind::Contains,
                        })
                &&& n.items@.len() >= (match m.content {
                    Some(items) => crate::parser::visitor::count_definite(items@),
                    None => 0nat,
                })
                &&& forall|k: int|
                    0 <= k < n.items@.len() ==> crate::parser::visitor::id_recorded(
                        #[trigger] n.items@[k],
                        final(self).code_graph,
                    )
                &&& forall|k: int|
                    0 <= k < n.submodules@.len() ==> (#[trigger] n.submodules@[k]).type_prefix
                        == NodeType::Module && crate::parser::visitor::id_recorded(
                        #[trigger] n.submodules@[k],
                        final(self).code_graph,
                    )
            }),
        decreases size_module_input(m), 0int,
    {
        let ModuleInput { name, vis, attrs, content } = m;
        let module_id = self.alloc_id(NodeType::Module);
        let ghost s_id = *self;
        let visibility = self.module_visibility(&name, vis);
        let mut submodules: Vec<NodeId> = Vec::new();
        let mut item_ids: Vec<NodeId> = Vec::new();
        match content {
            Some(items) => {
                let pair = self.process_items(module_id, items);
                item_ids = pair.0;
                submodules = pair.1;
            },
            None => {
                proof {
                    crate::parser::visitor::state::lemma_graph_extends_refl(self.code_graph);
                }
            },
        }
        let ghost s_items = *self;
        let docstring = extract_docstring(&attrs);
        let attributes = extract_attributes(attrs);
        let node = ModuleNode {
            id: module_id,
            name,
            visibility,
            attributes,
            docstring,
            submodules,
            items: item_ids,
            imports: Vec::new(),
            exports: Vec::new(),
        };
        self.add_module(node);
        proof {
            crate::parser::visitor::state::lemma_builder_frame_trans(*old(self), s_id, *self);
            let ghost n = self.code_graph.modules@.last();
            assert forall|k: int| 0 <= k < n.items@.len() implies crate::parser::visitor::id_recorded(
                #[trigger] n.items@[k],
                self.code_graph,
            ) by {
                crate::parser::visitor::lemma_id_recorded_extends(
                    s_items.code_graph,
                    self.code_graph,
                    n.items@[k],
                );
            }
            assert forall|k: int|
                0 <= k < n.submodules@.len() implies crate::parser::visitor::id_recorded(
                #[trigger] n.submodules@[k],
                self.code_graph,
            ) by {
                crate::parser::visitor::lemma_id_recorded_extends(
                    s_items.code_graph,
                    self.code_graph,
                    n.submodules@[k],
                );
            }
        }
        module_id
    }
}

} // verus!
