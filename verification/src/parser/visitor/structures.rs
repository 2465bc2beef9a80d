//! The struct, enum, union, and type-alias builders. Named, positional, and
//! field-less shapes are supported uniformly; a positional field carries no
//! name.

use vstd::prelude::*;
use crate::parser::graph_ids::NodeType;
use crate::parser::input::{
    size_field_list, size_fields, size_generics, size_type, size_variants, EnumInput, FieldInput,
    FieldsInput, StructInput, TypeAliasInput, UnionInput, VariantInput,
};
use crate::parser::nodes::{
    EnumNode, FieldNode, NodeId, StructNode, TypeAliasNode, TypeDefNode, UnionNode, VariantNode,
};
use crate::parser::relations::{Relation, RelationKind};
use crate::parser::types::TypeId;
use crate::parser::visitor::state::{builder_frame, spec_cache_lookup, VisitorState};
use crate::parser::visitor::type_processing::key_of;
use crate::parser::visitor::utils::{
    convert_visibility, extract_attributes, extract_docstring, opt_view, spec_convert_visibility,
    spec_docstring, spec_extract_attrs,
};

verus! {

/// A produced field node reflects its input: visibility, attributes, and the
/// type id the interning cache holds for the field's type text.
pub open spec fn field_base_matches(r: FieldNode, f: FieldInput, m: Seq<(String, TypeId)>) -> bool {
    &&& r.visibility == spec_convert_visibility(f.vis)
    &&& r.attributes@ == spec_extract_attrs(f.attrs@)
    &&& spec_cache_lookup(m, key_of(f.ty)) == Some(r.type_id)
}

/// A produced field list reflects its input shape: one node per field in
/// order, declared names kept, no name recorded for positional fields,
/// nothing for a unit shape.
pub open spec fn fields_match(rs: Seq<FieldNode>, fs: FieldsInput, m: Seq<(String, TypeId)>) -> bool {
    match fs {
        FieldsInput::Named(fields) => {
            &&& rs.len() == fields@.len()
            &&& forall|i: int|
                0 <= i < rs.len() ==> field_base_matches(#[trigger] rs[i], fields@[i], m)
                    && rs[i].name == fields@[i].name
        },
        FieldsInput::Unnamed(fields) => {
            &&& rs.len() == fields@.len()
            &&& forall|i: int|
                0 <= i < rs.len() ==> field_base_matches(#[trigger] rs[i], fields@[i], m) && (
                #[trigger] rs[i]).name is None
        },
        FieldsInput::Unit => rs.len() == 0,
    }
}

/// How many fields a shape declares.
pub open spec fn fields_len(f: FieldsInput) -> nat {
    match f {
        FieldsInput::Named(fs) => fs@.len(),
        FieldsInput::Unnamed(fs) => fs@.len(),
        FieldsInput::Unit => 0,
    }
}

/// The relations a variant list contributes: one variant edge per variant
/// plus the two per-field edges of its field list.
pub open spec fn variants_rels(s: Seq<VariantInput>) -> nat
    decreases s,
{
    if s.len() == 0 {
        0
    } else {
        1 + 2 * fields_len(s[0].fields) + variants_rels(s.drop_first())
    }
}

/// Every field of the list has its field relation from the owning
/// declaration and its type relation to its interned type.
pub open spec fn field_edges_exist(rs: Seq<FieldNode>, parent: NodeId, rels: Seq<Relation>) -> bool {
    &&& forall|i: int|
        0 <= i < rs.len() ==> exists|j: int|
            0 <= j < rels.len() && rels[j] == (Relation {
                source: parent,
                target: (#[trigger] rs[i]).id,
                kind: RelationKind::StructField,
            })
    &&& forall|i: int|
        0 <= i < rs.len() ==> exists|j: int|
            0 <= j < rels.len() && rels[j] == (Relation {
                source: (#[trigger] rs[i]).id,
                target: NodeId { type_prefix: NodeType::Type, unique_id: rs[i].type_id.0 },
                kind: RelationKind::HasType,
            })
}

/// Edge existence survives appending further relations.
pub proof fn lemma_field_edges_extend(
    rs: Seq<FieldNode>,
    parent: NodeId,
    r1: Seq<Relation>,
    r2: Seq<Relation>,
)
    requires
        field_edges_exist(rs, parent, r1),
        r1.is_prefix_of(r2),
    ensures
        field_edges_exist(rs, parent, r2),
{
    assert forall|i: int| 0 <= i < rs.len() implies exists|j: int|
        0 <= j < r2.len() && r2[j] == (Relation {
            source: parent,
            target: (#[trigger] rs[i]).id,
            kind: RelationKind::StructField,
        }) by {
        let j0 = choose|j: int|
            0 <= j < r1.len() && r1[j] == (Relation {
                source: parent,
                target: rs[i].id,
                kind: RelationKind::StructField,
            });
        assert(0 <= j0 < r2.len() && r2[j0] == (Relation {
            source: parent,
            target: rs[i].id,
            kind: RelationKind::StructField,
        })) by {
            assert(r2[j0] == r1[j0]);
        }
    }
    assert forall|i: int| 0 <= i < rs.len() implies exists|j: int|
        0 <= j < r2.len() && r2[j] == (Relation {
            source: (#[trigger] rs[i]).id,
            target: NodeId { type_prefix: NodeType::Type, unique_id: rs[i].type_id.0 },
            kind: RelationKind::HasType,
        }) by {
        let j0 = choose|j: int|
            0 <= j < r1.len() && r1[j] == (Relation {
                source: rs[i].id,
                target: NodeId { type_prefix: NodeType::Type, unique_id: rs[i].type_id.0 },
                kind: RelationKind::HasType,
            });
        assert(0 <= j0 < r2.len() && r2[j0] == (Relation {
            source: rs[i].id,
            target: NodeId { type_prefix: NodeType::Type, unique_id: rs[i].type_id.0 },
            kind: RelationKind::HasType,
        })) by {
            assert(r2[j0] == r1[j0]);
        }
    }
}

/// Edge existence extends to one more field once its own edges exist.
pub proof fn lemma_field_edges_push(
    rs: Seq<FieldNode>,
    x: FieldNode,
    parent: NodeId,
    rels: Seq<Relation>,
)
    requires
        field_edges_exist(rs, parent, rels),
        exists|j: int|
            0 <= j < rels.len() && (#[trigger] rels[j]) == (Relation {
                source: parent,
                target: x.id,
                kind: RelationKind::StructField,
            }),
        exists|j: int|
            0 <= j < rels.len() && (#[trigger] rels[j]) == (Relation {
                source: x.id,
                target: NodeId { type_prefix: NodeType::Type, unique_id: x.type_id.0 },
                kind: RelationKind::HasType,
            }),
    ensures
        field_edges_exist(rs.push(x), parent, rels),
{
    let p = rs.push(x);
    assert forall|i: int| 0 <= i < p.len() implies exists|j: int|
        0 <= j < rels.len() && rels[j] == (Relation {
            source: parent,
            target: (#[trigger] p[i]).id,
            kind: RelationKind::StructField,
        }) by {
        if i < rs.len() {
            assert(p[i] == rs[i]);
        } else {
            assert(p[i] == x);
        }
    }
    assert forall|i: int| 0 <= i < p.len() implies exists|j: int|
        0 <= j < rels.len() && rels[j] == (Relation {
            source: (#[trigger] p[i]).id,
            target: NodeId { type_prefix: NodeType::Type, unique_id: p[i].type_id.0 },
            kind: RelationKind::HasType,
        }) by {
        if i < rs.len() {
            assert(p[i] == rs[i]);
        } else {
            assert(p[i] == x);
        }
    }
}

impl VisitorState {
    /// Processes one field list, wiring a field relation from the owning
    /// declaration to each field and a type relation from each field to its
    /// interned type.
    #[verifier::loop_isolation(false)]
    pub fn process_field_list(&mut self, parent: NodeId, fields: Vec<FieldInput>, positional: bool)
        -> (r: Vec<FieldNode>)
        requires
            old(self).wf(),
            parent.type_prefix == NodeType::Node,
            old(self).next_node_id + size_field_list(fields@) <= usize::MAX,
            old(self).next_type_id + size_field_list(fields@) <= usize::MAX,
        ensures
            final(self).wf(),
            builder_frame(*old(self), *final(self)),
            final(self).code_graph.functions == old(self).code_graph.functions,
            final(self).code_graph.defined_types == old(self).code_graph.defined_types,
            final(self).code_graph.impls == old(self).code_graph.impls,
            final(self).code_graph.traits == old(self).code_graph.traits,
            final(self).code_graph.private_traits == old(self).code_graph.private_traits,
            final(self).code_graph.modules == old(self).code_graph.modules,
            final(self).code_graph.values == old(self).code_graph.values,
            final(self).code_graph.macros == old(self).code_graph.macros,
            final(self).next_trait_id == old(self).next_trait_id,
            final(self).next_node_id <= old(self).next_node_id + size_field_list(fields@),
            final(self).next_type_id <= old(self).next_type_id + size_field_list(fields@),
            r@.len() == fields@.len(),
            final(self).code_graph.relations@.len() == old(self).code_graph.relations@.len() + 2
                * fields@.len(),
            forall|i: int|
                0 <= i < r@.len() ==> field_base_matches(
                    #[trigger] r@[i],
                    fields@[i],
                    final(self).type_map@,
                ),
            forall|i: int|
                0 <= i < r@.len() ==> if positional {
                    (#[trigger] r@[i]).name is None
                } else {
                    r@[i].name == fields@[i].name
                },
            field_edges_exist(r@, parent, final(self).code_graph.relations@),
    {
        let mut fields = fields;
        let ghost f0 = fields@;
        let n0: usize = fields.len();
        proof {
            assert(f0.len() == n0);
        }
        let mut out: Vec<FieldNode> = Vec::new();
        while fields.len() > 0
            invariant
                self.wf(),
                builder_frame(*old(self), *self),
                self.code_graph.functions == old(self).code_graph.functions,
                self.code_graph.defined_types == old(self).code_graph.defined_types,
                self.code_graph.impls == old(self).code_graph.impls,
                self.code_graph.traits == old(self).code_graph.traits,
                self.code_graph.private_traits == old(self).code_graph.private_traits,
                self.code_graph.modules == old(self).code_graph.modules,
                self.code_graph.values == old(self).code_graph.values,
                self.code_graph.macros == old(self).code_graph.macros,
                self.next_trait_id == old(self).next_trait_id,
                self.next_node_id + size_field_list(fields@) <= old(self).next_node_id
                    + size_field_list(f0),
                self.next_type_id + size_field_list(fields@) <= old(self).next_type_id
                    + size_field_list(f0),
                out@.len() + fields@.len() == f0.len(),
                fields@ =~= f0.skip(out@.len() as int),
                self.code_graph.relations@.len() == old(self).code_graph.relations@.len() + 2
                    * out@.len(),
                forall|i: int|
                    0 <= i < out@.len() ==> field_base_matches(
                        #[trigger] out@[i],
                        f0[i],
                        self.type_map@,
                    ),
                forall|i: int|
                    0 <= i < out@.len() ==> if positional {
                        (#[trigger] out@[i]).name is None
                    } else {
                        out@[i].name == f0[i].name
                    },
                field_edges_exist(out@, parent, self.code_graph.relations@),
            decreases fields@.len(),
        {
            let ghost pre_f = fields@;
            let ghost done = out@.len() as int;
            proof {
                assert(pre_f.remove(0) =~= pre_f.drop_first());
                assert(f0.skip(done).drop_first() =~= f0.skip(done + 1));
            }
            let ghost pre_loop = *self;
            let field = fields.remove(0);
            proof {
                assert(size_field_list(pre_f) == 1 + size_type(field.ty) + size_field_list(
                    fields@,
                ));
            }
            let FieldInput { name, vis, ty, attrs } = field;
            let type_id = self.get_or_create_type(ty);
            let id = self.alloc_id(NodeType::Node);
            let field_name: Option<String> = if positional {
                None
            } else {
                name
            };
            let attributes = extract_attributes(attrs);
            let node = FieldNode {
                id,
                name: field_name,
                type_id,
                visibility: convert_visibility(vis),
                attributes,
            };
            self.add_relation(
                Relation { source: parent, target: id, kind: RelationKind::StructField },
            );
            self.add_relation(
                Relation {
                    source: id,
                    target: NodeId { type_prefix: NodeType::Type, unique_id: type_id.0 },
                    kind: RelationKind::HasType,
                },
            );
            proof {
                crate::parser::visitor::state::lemma_builder_frame_trans(
                    *old(self),
                    pre_loop,
                    *self,
                );
                assert forall|i: int| 0 <= i < out@.len() implies field_base_matches(
                    #[trigger] out@[i],
                    f0[i],
                    self.type_map@,
                ) by {
                    assert(spec_cache_lookup(pre_loop.type_map@, key_of(f0[i].ty)) == Some(
                        out@[i].type_id,
                    ));
                }
            }
            let ghost out_pre = out@;
            out.push(node);
            proof {
                let ghost rels = self.code_graph.relations@;
                assert(rels[rels.len() - 2] == (Relation {
                    source: parent,
                    target: id,
                    kind: RelationKind::StructField,
                }));
                assert(rels[rels.len() - 1] == (Relation {
                    source: id,
                    target: NodeId { type_prefix: NodeType::Type, unique_id: type_id.0 },
                    kind: RelationKind::HasType,
                }));
                crate::parser::visitor::state::lemma_prefix_refl(
                    pre_loop.code_graph.relations@,
                );
                assert(pre_loop.code_graph.relations@.is_prefix_of(rels)) by {
                    assert(pre_loop.code_graph.relations@ =~= rels.subrange(
                        0,
                        pre_loop.code_graph.relations@.len() as int,
                    ));
                }
                lemma_field_edges_extend(out_pre, parent, pre_loop.code_graph.relations@, rels);
                lemma_field_edges_push(out_pre, node, parent, rels);
            }
        }
        out
    }

    /// Processes the field shape of a struct, union, or variant.
    pub fn process_fields(&mut self, parent: NodeId, fields: FieldsInput) -> (r: Vec<FieldNode>)
        requires
            old(self).wf(),
            parent.type_prefix == NodeType::Node,
            old(self).next_node_id + size_fields(fields) <= usize::MAX,
            old(self).next_type_id + size_fields(fields) <= usize::MAX,
        ensures
            final(self).wf(),
            builder_frame(*old(self), *final(self)),
            final(self).code_graph.functions == old(self).code_graph.functions,
            final(self).code_graph.defined_types == old(self).code_graph.defined_types,
            final(self).code_graph.impls == old(self).code_graph.impls,
            final(self).code_graph.traits == old(self).code_graph.traits,
            final(self).code_graph.private_traits == old(self).code_graph.private_traits,
            final(self).code_graph.modules == old(self).code_graph.modules,
            final(self).code_graph.values == old(self).code_graph.values,
            final(self).code_graph.macros == old(self).code_graph.macros,
            final(self).next_trait_id == old(self).next_trait_id,
            final(self).next_node_id <= old(self).next_node_id + size_fields(fields),
            final(self).next_type_id <= old(self).next_type_id + size_fields(fields),
            fields_match(r@, fields, final(self).type_map@),
            field_edges_exist(r@, parent, final(self).code_graph.relations@),
            final(self).code_graph.relations@.len() == old(self).code_graph.relations@.len() + 2
                * fields_len(fields),
    {
        match fields {
            FieldsInput::Named(fs) => self.process_field_list(parent, fs, false),
            FieldsInput::Unnamed(fs) => self.process_field_list(parent, fs, true),
            FieldsInput::Unit => Vec::new(),
        }
    }

    /// Processes a struct item into a struct node and records it.
    pub fn process_struct(&mut self, s: StructInput) -> (r: NodeId)
        requires
            old(self).wf(),
            old(self).next_node_id + 1 + size_fields(s.fields) + size_generics(s.generics@)
                <= usize::MAX,
            old(self).next_type_id + 1 + size_fields(s.fields) + size_generics(s.generics@)
                <= usize::MAX,
        ensures
            final(self).wf(),
            builder_frame(*old(self), *final(self)),
            final(self).code_graph.functions == old(self).code_graph.functions,
            final(self).code_graph.impls == old(self).code_graph.impls,
            final(self).code_graph.traits == old(self).code_graph.traits,
            final(self).code_graph.private_traits == old(self).code_graph.private_traits,
            final(self).code_graph.modules == old(self).code_graph.modules,
            final(self).code_graph.values == old(self).code_graph.values,
            final(self).code_graph.macros == old(self).code_graph.macros,
            final(self).next_trait_id == old(self).next_trait_id,
            final(self).next_node_id <= old(self).next_node_id + 1 + size_fields(s.fields)
                + size_generics(s.generics@),
            final(self).next_type_id <= old(self).next_type_id + 1 + size_fields(s.fields)
                + size_generics(s.generics@),
            final(self).code_graph.defined_types@.len() == old(self).code_graph.defined_types@.len() + 1,
            old(self).next_node_id < final(self).next_node_id,
            r == (NodeId { type_prefix: NodeType::Node, unique_id: old(self).next_node_id }),
            match final(self).code_graph.defined_types@.last() {
                TypeDefNode::Struct(n) => {
                    &&& n.id == r
                    &&& n.name == s.name
                    &&& n.visibility == spec_convert_visibility(s.vis)
                    &&& fields_match(n.fields@, s.fields, final(self).type_map@)
                    &&& field_edges_exist(n.fields@, n.id, final(self).code_graph.relations@)
                    &&& final(self).code_graph.relations@.len() == old(self).code_graph.relations@.len() + 2 * fields_len(s.fields)
                    &&& n.generic_params@.len() == s.generics@.len()
                    &&& forall|i: int|
                        0 <= i < n.generic_params@.len()
                            ==> crate::parser::visitor::generics::gp_matches(
                            #[trigger] n.generic_params@[i],
                            s.generics@[i],
                        )
                    &&& forall|i: int|
                        0 <= i < n.generic_params@.len()
                            ==> crate::parser::visitor::generics::gp_resolved(
                            (#[trigger] n.generic_params@[i]),
                            s.generics@[i],
                            *final(self),
                        )
                    &&& opt_view(n.docstring) == spec_docstring(s.attrs@)
                    &&& n.attributes@ == spec_extract_attrs(s.attrs@)
                },
                _ => false,
            },
    {
        let StructInput { name, vis, fields, generics, attrs } = s;
        let struct_id = self.alloc_id(NodeType::Node);
        let ghost s_id = *self;
        let field_nodes = self.process_fields(struct_id, fields);
        let ghost s_fields = *self;
        let generic_params = self.process_generics(generics);
        let ghost s_gen = *self;
        let docstring = extract_docstring(&attrs);
        let attributes = extract_attributes(attrs);
        let node = StructNode {
            id: struct_id,
            name,
            visibility: convert_visibility(vis),
            fields: field_nodes,
            generic_params,
            attributes,
            docstring,
        };
        self.add_defined_type(TypeDefNode::Struct(node));
        proof {
            crate::parser::visitor::state::lemma_builder_frame_trans(*old(self), s_id, s_fields);
            crate::parser::visitor::state::lemma_builder_frame_trans(*old(self), s_fields, *self);
            lemma_fields_match_preserved(s_fields, *self, s.fields);
            assert(self.code_graph.relations == s_fields.code_graph.relations);
            crate::parser::visitor::state::lemma_prefix_refl(self.code_graph.type_graph@);
            assert forall|i: int|
                0 <= i < self.code_graph.defined_types@.last()->Struct_0.generic_params@.len() implies crate::parser::visitor::generics::gp_resolved(
                (#[trigger] self.code_graph.defined_types@.last()->Struct_0.generic_params@[i]),
                s.generics@[i],
                *self,
            ) by {
                crate::parser::visitor::generics::lemma_gp_resolved_preserved(
                    self.code_graph.defined_types@.last()->Struct_0.generic_params@[i],
                    s.generics@[i],
                    s_gen,
                    *self,
                );
            }
        }
        struct_id
    }

    /// Processes a union item into a union node and records it. Union fields
    /// are always named.
    pub fn process_union(&mut self, u: UnionInput) -> (r: NodeId)
        requires
            old(self).wf(),
            old(self).next_node_id + 1 + size_field_list(u.fields@) + size_generics(u.generics@)
                <= usize::MAX,
            old(self).next_type_id + 1 + size_field_list(u.fields@) + size_generics(u.generics@)
                <= usize::MAX,
        ensures
            final(self).wf(),
            builder_frame(*old(self), *final(self)),
            final(self).code_graph.functions == old(self).code_graph.functions,
            final(self).code_graph.impls == old(self).code_graph.impls,
            final(self).code_graph.traits == old(self).code_graph.traits,
            final(self).code_graph.private_traits == old(self).code_graph.private_traits,
            final(self).code_graph.modules == old(self).code_graph.modules,
            final(self).code_graph.values == old(self).code_graph.values,
            final(self).code_graph.macros == old(self).code_graph.macros,
            final(self).next_trait_id == old(self).next_trait_id,
            final(self).next_node_id <= old(self).next_node_id + 1 + size_field_list(u.fields@)
                + size_generics(u.generics@),
            final(self).next_type_id <= old(self).next_type_id + 1 + size_field_list(u.fields@)
                + size_generics(u.generics@),
            final(self).code_graph.defined_types@.len() == old(self).code_graph.defined_types@.len() + 1,
            old(self).next_node_id < final(self).next_node_id,
            r == (NodeId { type_prefix: NodeType::Node, unique_id: old(self).next_node_id }),
            match final(self).code_graph.defined_types@.last() {
                TypeDefNode::Union(n) => {
                    &&& n.id == r
                    &&& n.name == u.name
                    &&& n.visibility == spec_convert_visibility(u.vis)
                    &&& n.fields@.len() == u.fields@.len()
                    &&& forall|i: int|
                        0 <= i < n.fields@.len() ==> field_base_matches(
                            #[trigger] n.fields@[i],
                            u.fields@[i],
                            final(self).type_map@,
                        ) && n.fields@[i].name == u.fields@[i].name
                    &&& field_edges_exist(n.fields@, n.id, final(self).code_graph.relations@)
                    &&& final(self).code_graph.relations@.len() == old(self).code_graph.relations@.len() + 2 * u.fields@.len()
                    &&& n.generic_params@.len() == u.generics@.len()
                    &&& forall|i: int|
                        0 <= i < n.generic_params@.len()
                            ==> crate::parser::visitor::generics::gp_matches(
                            #[trigger] n.generic_params@[i],
                            u.generics@[i],
                        )
                    &&& forall|i: int|
                        0 <= i < n.generic_params@.len()
                            ==> crate::parser::visitor::generics::gp_resolved(
                            (#[trigger] n.generic_params@[i]),
                            u.generics@[i],
                            *final(self),
                        )
                },
                _ => false,
            },
    {
        let UnionInput { name, vis, fields, generics, attrs } = u;
        let union_id = self.alloc_id(NodeType::Node);
        let ghost s_id = *self;
        let field_nodes = self.process_field_list(union_id, fields, false);
        let ghost s_fields = *self;
        let generic_params = self.process_generics(generics);
        let ghost s_gen = *self;
        let docstring = extract_docstring(&attrs);
        let attributes = extract_attributes(attrs);
        let node = UnionNode {
            id: union_id,
            name,
            visibility: convert_visibility(vis),
            fields: field_nodes,
            generic_params,
            attributes,
            docstring,
        };
        self.add_defined_type(TypeDefNode::Union(node));
        proof {
            crate::parser::visitor::state::lemma_builder_frame_trans(*old(self), s_id, s_fields);
            crate::parser::visitor::state::lemma_builder_frame_trans(*old(self), s_fields, *self);
            assert(self.code_graph.relations == s_fields.code_graph.relations);
            assert forall|i: int|
                0 <= i < self.code_graph.defined_types@.last()->Union_0.fields@.len() implies field_base_matches(
                #[trigger] self.code_graph.defined_types@.last()->Union_0.fields@[i],
                u.fields@[i],
                self.type_map@,
            ) by {
                assert(spec_cache_lookup(
                    s_fields.type_map@,
                    key_of(u.fields@[i].ty),
                ) == Some(self.code_graph.defined_types@.last()->Union_0.fields@[i].type_id));
            }
            crate::parser::visitor::state::lemma_prefix_refl(self.code_graph.type_graph@);
            assert forall|i: int|
                0 <= i < self.code_graph.defined_types@.last()->Union_0.generic_params@.len() implies crate::parser::visitor::generics::gp_resolved(
                (#[trigger] self.code_graph.defined_types@.last()->Union_0.generic_params@[i]),
                u.generics@[i],
                *self,
            ) by {
                crate::parser::visitor::generics::lemma_gp_resolved_preserved(
                    self.code_graph.defined_types@.last()->Union_0.generic_params@[i],
                    u.generics@[i],
                    s_gen,
                    *self,
                );
            }
        }
        union_id
    }

    /// Processes the variants of an enum, wiring one variant relation from
    /// the enum to each variant.
    #[verifier::loop_isolation(false)]
    pub fn process_variants(&mut self, enum_id: NodeId, variants: Vec<VariantInput>) -> (r: Vec<
        VariantNode,
    >)
        requires
            old(self).wf(),
            enum_id.type_prefix == NodeType::Node,
            old(self).next_node_id + size_variants(variants@) <= usize::MAX,
            old(self).next_type_id + size_variants(variants@) <= usize::MAX,
        ensures
            final(self).wf(),
            builder_frame(*old(self), *final(self)),
            final(self).code_graph.functions == old(self).code_graph.functions,
            final(self).code_graph.defined_types == old(self).code_graph.defined_types,
            final(self).code_graph.impls == old(self).code_graph.impls,
            final(self).code_graph.traits == old(self).code_graph.traits,
            final(self).code_graph.private_traits == old(self).code_graph.private_traits,
            final(self).code_graph.modules == old(self).code_graph.modules,
            final(self).code_graph.values == old(self).code_graph.values,
            final(self).code_graph.macros == old(self).code_graph.macros,
            final(self).next_trait_id == old(self).next_trait_id,
            final(self).next_node_id <= old(self).next_node_id + size_variants(variants@),
            final(self).next_type_id <= old(self).next_type_id + size_variants(variants@),
            r@.len() == variants@.len(),
            forall|i: int|
                0 <= i < r@.len() ==> (#[trigger] r@[i]).name == variants@[i].name && r@[i].discriminant
                    == variants@[i].discriminant && fields_match(
                    r@[i].fields@,
                    variants@[i].fields,
                    final(self).type_map@,
                ),
            forall|i: int|
                0 <= i < r@.len() ==> exists|j: int|
                    0 <= j < final(self).code_graph.relations@.len() && final(self).code_graph.relations@[j] == (Relation {
                        source: enum_id,
                        target: (#[trigger] r@[i]).id,
                        kind: RelationKind::EnumVariant,
                    }),
            final(self).code_graph.relations@.len() == old(self).code_graph.relations@.len()
                + variants_rels(variants@),
    {
        let mut variants = variants;
        let ghost v0 = variants@;
        let mut out: Vec<VariantNode> = Vec::new();
        while variants.len() > 0
            invariant
                self.wf(),
                builder_frame(*old(self), *self),
                self.code_graph.functions == old(self).code_graph.functions,
                self.code_graph.defined_types == old(self).code_graph.defined_types,
                self.code_graph.impls == old(self).code_graph.impls,
                self.code_graph.traits == old(self).code_graph.traits,
                self.code_graph.private_traits == old(self).code_graph.private_traits,
                self.code_graph.modules == old(self).code_graph.modules,
                self.code_graph.values == old(self).code_graph.values,
                self.code_graph.macros == old(self).code_graph.macros,
                self.next_trait_id == old(self).next_trait_id,
                self.next_node_id + size_variants(variants@) <= old(self).next_node_id
                    + size_variants(v0),
                self.next_type_id + size_variants(variants@) <= old(self).next_type_id
                    + size_variants(v0),
                out@.len() + variants@.len() == v0.len(),
                variants@ =~= v0.skip(out@.len() as int),
                self.code_graph.relations@.len() + variants_rels(variants@) == old(
                    self,
                ).code_graph.relations@.len() + variants_rels(v0),
                forall|i: int|
                    0 <= i < out@.len() ==> (#[trigger] out@[i]).name == v0[i].name
                        && out@[i].discriminant == v0[i].discriminant && fields_match(
                        out@[i].fields@,
                        v0[i].fields,
                        self.type_map@,
                    ),
                forall|i: int|
                    0 <= i < out@.len() ==> exists|j: int|
                        0 <= j < self.code_graph.relations@.len() && self.code_graph.relations@[j]
                            == (Relation {
                            source: enum_id,
                            target: (#[trigger] out@[i]).id,
                            kind: RelationKind::EnumVariant,
                        }),
            decreases variants@.len(),
        {
            let ghost pre_v = variants@;
            let ghost done = out@.len() as int;
            proof {
                assert(pre_v.remove(0) =~= pre_v.drop_first());
                assert(v0.skip(done).drop_first() =~= v0.skip(done + 1));
            }
            let ghost pre_loop = *self;
            let v = variants.remove(0);
            proof {
                assert(size_variants(pre_v) == 1 + size_fields(v.fields) + size_variants(
                    variants@,
                ));
                assert(variants_rels(pre_v) == 1 + 2 * fields_len(v.fields) + variants_rels(
                    variants@,
                ));
            }
            let VariantInput { name, fields, discriminant, attrs } = v;
            let variant_id = self.alloc_id(NodeType::Node);
            let field_nodes = self.process_fields(variant_id, fields);
            let attributes = extract_attributes(attrs);
            self.add_relation(
                Relation { source: enum_id, target: variant_id, kind: RelationKind::EnumVariant },
            );
            let node = VariantNode {
                id: variant_id,
                name,
                fields: field_nodes,
                discriminant,
                attributes,
            };
            proof {
                crate::parser::visitor::state::lemma_builder_frame_trans(
                    *old(self),
                    pre_loop,
                    *self,
                );
                assert forall|i: int| 0 <= i < out@.len() implies fields_match(
                    (#[trigger] out@[i]).fields@,
                    v0[i].fields,
                    self.type_map@,
                ) by {
                    lemma_fields_match_preserved_maps(
                        pre_loop.type_map@,
                        self.type_map@,
                        out@[i].fields@,
                        v0[i].fields,
                    );
                }
            }
            out.push(node);
            proof {
                let ghost rels = self.code_graph.relations@;
                assert(rels[rels.len() - 1] == (Relation {
                    source: enum_id,
                    target: variant_id,
                    kind: RelationKind::EnumVariant,
                }));
                assert forall|i: int| 0 <= i < out@.len() implies exists|j: int|
                    0 <= j < rels.len() && rels[j] == (Relation {
                        source: enum_id,
                        target: (#[trigger] out@[i]).id,
                        kind: RelationKind::EnumVariant,
                    }) by {
                    if i < out@.len() - 1 {
                        let j0 = choose|j: int|
                            0 <= j < pre_loop.code_graph.relations@.len()
                                && pre_loop.code_graph.relations@[j] == (Relation {
                                source: enum_id,
                                target: out@[i].id,
                                kind: RelationKind::EnumVariant,
                            });
                        assert(rels[j0] == pre_loop.code_graph.relations@[j0]);
                    } else {
                        assert(rels[rels.len() - 1] == (Relation {
                            source: enum_id,
                            target: out@[i].id,
                            kind: RelationKind::EnumVariant,
                        }));
                    }
                }
            }
        }
        out
    }

    /// Processes an enum item into an enum node and records it.
    pub fn process_enum(&mut self, e: EnumInput) -> (r: NodeId)
        requires
            old(self).wf(),
            old(self).next_node_id + 1 + size_variants(e.variants@) + size_generics(e.generics@)
                <= usize::MAX,
            old(self).next_type_id + 1 + size_variants(e.variants@) + size_generics(e.generics@)
                <= usize::MAX,
        ensures
            final(self).wf(),
            builder_frame(*old(self), *final(self)),
            final(self).code_graph.functions == old(self).code_graph.functions,
            final(self).code_graph.impls == old(self).code_graph.impls,
            final(self).code_graph.traits == old(self).code_graph.traits,
            final(self).code_graph.private_traits == old(self).code_graph.private_traits,
            final(self).code_graph.modules == old(self).code_graph.modules,
            final(self).code_graph.values == old(self).code_graph.values,
            final(self).code_graph.macros == old(self).code_graph.macros,
            final(self).next_trait_id == old(self).next_trait_id,
            final(self).next_node_id <= old(self).next_node_id + 1 + size_variants(e.variants@)
                + size_generics(e.generics@),
            final(self).next_type_id <= old(self).next_type_id + 1 + size_variants(e.variants@)
                + size_generics(e.generics@),
            final(self).code_graph.defined_types@.len() == old(self).code_graph.defined_types@.len() + 1,
            old(self).next_node_id < final(self).next_node_id,
            r == (NodeId { type_prefix: NodeType::Node, unique_id: old(self).next_node_id }),
            match final(self).code_graph.defined_types@.last() {
                TypeDefNode::Enum(n) => {
                    &&& n.id == r
                    &&& n.name == e.name
                    &&& n.visibility == spec_convert_visibility(e.vis)
                    &&& final(self).code_graph.relations@.len() == old(self).code_graph.relations@.len() + variants_rels(e.variants@)
                    &&& n.variants@.len() == e.variants@.len()
                    &&& forall|i: int|
                        0 <= i < n.variants@.len() ==> (#[trigger] n.variants@[i]).name
                            == e.variants@[i].name && n.variants@[i].discriminant
                            == e.variants@[i].discriminant && fields_match(
                            n.variants@[i].fields@,
                            e.variants@[i].fields,
                            final(self).type_map@,
                        )
                    &&& forall|i: int|
                        0 <= i < n.variants@.len() ==> exists|j: int|
                            0 <= j < final(self).code_graph.relations@.len() && final(self).code_graph.relations@[j] == (Relation {
                                source: n.id,
                                target: (#[trigger] n.variants@[i]).id,
                                kind: RelationKind::EnumVariant,
                            })
                    &&& n.generic_params@.len() == e.generics@.len()
                    &&& forall|i: int|
                        0 <= i < n.generic_params@.len()
                            ==> crate::parser::visitor::generics::gp_matches(
                            #[trigger] n.generic_params@[i],
                            e.generics@[i],
                        )
                    &&& forall|i: int|
                        0 <= i < n.generic_params@.len()
                            ==> crate::parser::visitor::generics::gp_resolved(
                            (#[trigger] n.generic_params@[i]),
                            e.generics@[i],
                            *final(self),
                        )
                    &&& opt_view(n.docstring) == spec_docstring(e.attrs@)
                    &&& n.attributes@ == spec_extract_attrs(e.attrs@)
                },
                _ => false,
            },
    {
        let EnumInput { name, vis, variants, generics, attrs } = e;
        let enum_id = self.alloc_id(NodeType::Node);
        let ghost s_id = *self;
        let variant_nodes = self.process_variants(enum_id, variants);
        let ghost s_vars = *self;
        let generic_params = self.process_generics(generics);
        let ghost s_gen = *self;
        let docstring = extract_docstring(&attrs);
        let attributes = extract_attributes(attrs);
        let node = EnumNode {
            id: enum_id,
            name,
            visibility: convert_visibility(vis),
            variants: variant_nodes,
            generic_params,
            attributes,
            docstring,
        };
        self.add_defined_type(TypeDefNode::Enum(node));
        proof {
            crate::parser::visitor::state::lemma_builder_frame_trans(*old(self), s_id, s_vars);
            crate::parser::visitor::state::lemma_builder_frame_trans(*old(self), s_vars, *self);
            assert(self.code_graph.relations == s_vars.code_graph.relations);
            assert forall|i: int|
                0 <= i < self.code_graph.defined_types@.last()->Enum_0.variants@.len() implies fields_match(
                (#[trigger] self.code_graph.defined_types@.last()->Enum_0.variants@[i]).fields@,
                e.variants@[i].fields,
                self.type_map@,
            ) by {
                lemma_fields_match_preserved_maps(
                    s_vars.type_map@,
                    self.type_map@,
                    self.code_graph.defined_types@.last()->Enum_0.variants@[i].fields@,
                    e.variants@[i].fields,
                );
            }
            crate::parser::visitor::state::lemma_prefix_refl(self.code_graph.type_graph@);
            assert forall|i: int|
                0 <= i < self.code_graph.defined_types@.last()->Enum_0.generic_params@.len() implies crate::parser::visitor::generics::gp_resolved(
                (#[trigger] self.code_graph.defined_types@.last()->Enum_0.generic_params@[i]),
                e.generics@[i],
                *self,
            ) by {
                crate::parser::visitor::generics::lemma_gp_resolved_preserved(
                    self.code_graph.defined_types@.last()->Enum_0.generic_params@[i],
                    e.generics@[i],
                    s_gen,
                    *self,
                );
            }
        }
        enum_id
    }

    /// Processes a type alias item into an alias node and records it.
    pub fn process_type_alias(&mut self, a: TypeAliasInput) -> (r: NodeId)
        requires
            old(self).wf(),
            old(self).next_node_id + 1 + size_type(a.ty) + size_generics(a.generics@)
                <= usize::MAX,
            old(self).next_type_id + 1 + size_type(a.ty) + size_generics(a.generics@)
                <= usize::MAX,
        ensures
            final(self).wf(),
            builder_frame(*old(self), *final(self)),
            final(self).code_graph.functions == old(self).code_graph.functions,
            final(self).code_graph.impls == old(self).code_graph.impls,
            final(self).code_graph.traits == old(self).code_graph.traits,
            final(self).code_graph.private_traits == old(self).code_graph.private_traits,
            final(self).code_graph.modules == old(self).code_graph.modules,
            final(self).code_graph.values == old(self).code_graph.values,
            final(self).code_graph.macros == old(self).code_graph.macros,
            final(self).next_trait_id == old(self).next_trait_id,
            final(self).next_node_id <= old(self).next_node_id + 1 + size_type(a.ty)
                + size_generics(a.generics@),
            final(self).next_type_id <= old(self).next_type_id + 1 + size_type(a.ty)
                + size_generics(a.generics@),
            final(self).code_graph.defined_types@.len() == old(self).code_graph.defined_types@.len() + 1,
            old(self).next_node_id < final(self).next_node_id,
            r == (NodeId { type_prefix: NodeType::Node, unique_id: old(self).next_node_id }),
            match final(self).code_graph.defined_types@.last() {
                TypeDefNode::TypeAlias(n) => {
                    &&& n.id == r
                    &&& n.name == a.name
                    &&& n.visibility == spec_convert_visibility(a.vis)
                    &&& spec_cache_lookup(final(self).type_map@, key_of(a.ty)) == Some(n.type_id)
                    &&& n.generic_params@.len() == a.generics@.len()
                    &&& opt_view(n.docstring) == spec_docstring(a.attrs@)
                    &&& n.attributes@ == spec_extract_attrs(a.attrs@)
                },
                _ => false,
            },
    {
        let TypeAliasInput { name, vis, ty, generics, attrs } = a;
        let alias_id = self.alloc_id(NodeType::Node);
        let ghost s_id = *self;
        let type_id = self.get_or_create_type(ty);
        let ghost s_ty = *self;
        let generic_params = self.process_generics(generics);
        let docstring = extract_docstring(&attrs);
        let attributes = extract_attributes(attrs);
        let node = TypeAliasNode {
            id: alias_id,
            name,
            visibility: convert_visibility(vis),
            type_id,
            generic_params,
            attributes,
            docstring,
        };
        self.add_defined_type(TypeDefNode::TypeAlias(node));
        proof {
            crate::parser::visitor::state::lemma_builder_frame_trans(*old(self), s_id, s_ty);
            crate::parser::visitor::state::lemma_builder_frame_trans(*old(self), s_ty, *self);
            assert(spec_cache_lookup(s_ty.type_map@, key_of(a.ty)) == Some(type_id));
        }
        alias_id
    }
}

/// Field pins survive cache growth: a cache entry once present never changes.
pub proof fn lemma_fields_match_preserved_maps(
    m1: Seq<(String, TypeId)>,
    m2: Seq<(String, TypeId)>,
    rs: Seq<FieldNode>,
    fs: FieldsInput,
)
    requires
        fields_match(rs, fs, m1),
        crate::parser::visitor::state::cache_preserves(m1, m2),
    ensures
        fields_match(rs, fs, m2),
{
    match fs {
        FieldsInput::Named(fields) => {
            assert forall|i: int| 0 <= i < rs.len() implies field_base_matches(
                #[trigger] rs[i],
                fields@[i],
                m2,
            ) && rs[i].name == fields@[i].name by {
                assert(spec_cache_lookup(m1, key_of(fields@[i].ty)) == Some(rs[i].type_id));
            }
        },
        FieldsInput::Unnamed(fields) => {
            assert forall|i: int| 0 <= i < rs.len() implies field_base_matches(
                #[trigger] rs[i],
                fields@[i],
                m2,
            ) && (#[trigger] rs[i]).name is None by {
                assert(spec_cache_lookup(m1, key_of(fields@[i].ty)) == Some(rs[i].type_id));
            }
        },
        FieldsInput::Unit => {},
    }
}

/// Field pins of a stored shape survive later building steps.
pub proof fn lemma_fields_match_preserved(
    pre: VisitorState,
    post: VisitorState,
    fs: FieldsInput,
)
    requires
        crate::parser::visitor::state::cache_preserves(pre.type_map@, post.type_map@),
    ensures
        forall|rs: Seq<FieldNode>|
            fields_match(rs, fs, pre.type_map@) ==> #[trigger] fields_match(
                rs,
                fs,
                post.type_map@,
            ),
{
    assert forall|rs: Seq<FieldNode>| fields_match(rs, fs, pre.type_map@) implies #[trigger] fields_match(
        rs,
        fs,
        post.type_map@,
    ) by {
        lemma_fields_match_preserved_maps(pre.type_map@, post.type_map@, rs, fs);
    }
}

} // verus!
