//! The trait and implementation-block builders.
//!
//! Trait methods are always recorded Public: they are visible wherever the
//! trait itself is. An implementation block that names a trait is kept only
//! when that trait is recorded in the public trait collection; an
//! implementation of a non-public or unknown trait is excluded at build time.

use vstd::prelude::*;
use vstd::string::StringExecFns;
use crate::parser::graph_ids::NodeType;
use crate::parser::input::{
    size_bounds, size_impl_methods, size_segments, size_signature, size_trait_methods, size_type,
    ImplInput, ImplMethodInput, PathArgs, PathSegment, TraitInput, TraitMethodInput, TypeExpr,
    VisibilityToken,
};
use crate::parser::nodes::{FunctionNode, ImplNode, NodeId, TraitId, TraitNode};
use crate::parser::relations::{Relation, RelationKind};
use crate::parser::types::{TypeId, VisibilityKind};
use crate::parser::visitor::state::{builder_frame, spec_cache_lookup, trait_linked, VisitorState};
use crate::parser::visitor::type_processing::key_of;
use crate::parser::visitor::utils::{
    convert_visibility, extract_attributes, extract_docstring, is_public, opt_view,
    spec_docstring, spec_extract_attrs,
};

verus! {

/// The first type-definition relation at or after position `j` whose target
/// is the given id, yielding its source.
pub open spec fn first_type_def_from(rels: Seq<Relation>, target: NodeId, j: int) -> Option<NodeId>
    decreases rels.len() - j
    when 0 <= j <= rels.len()
{
    if j == rels.len() {
        None
    } else if rels[j].kind == RelationKind::TypeDefinition && rels[j].target == target {
        Some(rels[j].source)
    } else {
        first_type_def_from(rels, target, j + 1)
    }
}

/// The first type-definition relation whose target is the given id.
pub open spec fn first_type_def(rels: Seq<Relation>, target: NodeId) -> Option<NodeId> {
    first_type_def_from(rels, target, 0)
}

/// A found defining source names a type-definition relation of the sequence.
pub proof fn lemma_first_type_def_witness(rels: Seq<Relation>, target: NodeId, j0: int)
    requires
        0 <= j0 <= rels.len(),
        first_type_def_from(rels, target, j0) is Some,
    ensures
        exists|j: int|
            0 <= j < rels.len() && (#[trigger] rels[j]) == (Relation {
                source: first_type_def_from(rels, target, j0)->Some_0,
                target: target,
                kind: RelationKind::TypeDefinition,
            }),
    decreases rels.len() - j0,
{
    if j0 < rels.len() {
        if rels[j0].kind == RelationKind::TypeDefinition && rels[j0].target == target {
            assert(rels[j0] == (Relation {
                source: first_type_def_from(rels, target, j0)->Some_0,
                target: target,
                kind: RelationKind::TypeDefinition,
            }));
        } else {
            lemma_first_type_def_witness(rels, target, j0 + 1);
        }
    }
}

/// A sequence holding no type-definition relation aimed at the id defines
/// nothing for it.
pub proof fn lemma_first_type_def_none(rels: Seq<Relation>, target: NodeId, j0: int)
    requires
        0 <= j0 <= rels.len(),
        forall|j: int|
            j0 <= j < rels.len() ==> !((#[trigger] rels[j]).kind == RelationKind::TypeDefinition
                && rels[j].target == target),
    ensures
        first_type_def_from(rels, target, j0) is None,
    decreases rels.len() - j0,
{
    if j0 < rels.len() {
        lemma_first_type_def_none(rels, target, j0 + 1);
    }
}

/// Whether an implementation block is kept, judged against the entry state:
/// a block naming no trait always is; a block naming a trait is kept exactly
/// when the trait reference's canonical text is already interned, the first
/// type-definition relation aimed at that entry exists, and its defining
/// trait stands in the public trait collection.
pub open spec fn impl_kept(im: ImplInput, pre: VisitorState) -> bool {
    match im.trait_path {
        None => true,
        Some(p) => {
            let key = key_of(TypeExpr::Path { qualified: false, segments: p });
            match spec_cache_lookup(pre.type_map@, key) {
                None => false,
                Some(tid) => match first_type_def(
                    pre.code_graph.relations@,
                    NodeId { type_prefix: NodeType::Type, unique_id: tid.0 },
                ) {
                    None => false,
                    Some(src) => exists|k: int|
                        0 <= k < pre.code_graph.traits@.len() && (
                        #[trigger] pre.code_graph.traits@[k]).id.0 == src.unique_id,
                },
            }
        },
    }
}

impl VisitorState {
    /// Processes one trait method declaration. Its visibility is always
    /// recorded Public.
    pub fn process_trait_method(&mut self, m: TraitMethodInput) -> (r: FunctionNode)
        requires
            old(self).wf(),
            old(self).next_node_id + size_signature(m.params@, m.ret, m.generics@) <= usize::MAX,
            old(self).next_type_id + size_signature(m.params@, m.ret, m.generics@) <= usize::MAX,
        ensures
            final(self).wf(),
            builder_frame(*old(self), *final(self)),
            final(self).code_graph.functions == old(self).code_graph.functions,
            final(self).code_graph.defined_types == old(self).code_graph.defined_types,
            final(self).code_graph.impls == old(self).code_graph.impls,
            final(self).code_graph.traits == old(self).code_graph.traits,
            final(self).code_graph.private_traits == old(self).code_graph.private_traits,
            final(self).code_graph.modules == old(self).code_graph.modules,
            final(self).code_graph.values == old(self).code_graph.values,
            final(self).code_graph.macros == old(self).code_graph.macros,
            final(self).next_trait_id == old(self).next_trait_id,
            final(self).next_node_id <= old(self).next_node_id + size_signature(
                m.params@,
                m.ret,
                m.generics@,
            ),
            final(self).next_type_id <= old(self).next_type_id + size_signature(
                m.params@,
                m.ret,
                m.generics@,
            ),
            r.name == m.name,
            r.visibility == VisibilityKind::Public,
            r.parameters@.len() == m.params@.len(),
            r.generic_params@.len() == m.generics@.len(),
            r.return_type is Some <==> m.ret is Some,
            opt_view(r.docstring) == spec_docstring(m.attrs@),
            r.body == m.default_body,
    {
        let TraitMethodInput { name, params, ret, generics, attrs, default_body } = m;
        let method_id = self.alloc_id(NodeType::Function);
        let ghost s_id = *self;
        let parameters = self.process_parameters(method_id, params);
        let ghost s_params = *self;
        let return_type: Option<TypeId> = match ret {
            Some(t) => {
                let tid = self.get_or_create_type(t);
                self.add_relation(
                    Relation {
                        source: method_id,
                        target: NodeId { type_prefix: NodeType::Type, unique_id: tid.0 },
                        kind: RelationKind::FunctionReturn,
                    },
                );
                Some(tid)
            },
            None => None,
        };
        let ghost s_ret = *self;
        let generic_params = self.process_generics(generics);
        let docstring = extract_docstring(&attrs);
        let attributes = extract_attributes(attrs);
        proof {
            crate::parser::visitor::state::lemma_builder_frame_trans(*old(self), s_id, s_params);
            crate::parser::visitor::state::lemma_builder_frame_trans(*old(self), s_params, s_ret);
            crate::parser::visitor::state::lemma_builder_frame_trans(*old(self), s_ret, *self);
        }
        FunctionNode {
            id: method_id,
            name,
            visibility: VisibilityKind::Public,
            parameters,
            return_type,
            generic_params,
            attributes,
            docstring,
            body: default_body,
        }
    }

    /// Processes one method of an implementation block.
    pub fn process_impl_method(&mut self, m: ImplMethodInput) -> (r: FunctionNode)
        requires
            old(self).wf(),
            old(self).next_node_id + size_signature(m.params@, m.ret, m.generics@) <= usize::MAX,
            old(self).next_type_id + size_signature(m.params@, m.ret, m.generics@) <= usize::MAX,
        ensures
            final(self).wf(),
            builder_frame(*old(self), *final(self)),
            final(self).code_graph.functions == old(self).code_graph.functions,
            final(self).code_graph.defined_types == old(self).code_graph.defined_types,
            final(self).code_graph.impls == old(self).code_graph.impls,
            final(self).code_graph.traits == old(self).code_graph.traits,
            final(self).code_graph.private_traits == old(self).code_graph.private_traits,
            final(self).code_graph.modules == old(self).code_graph.modules,
            final(self).code_graph.values == old(self).code_graph.values,
            final(self).code_graph.macros == old(self).code_graph.macros,
            final(self).next_trait_id == old(self).next_trait_id,
            final(self).next_node_id <= old(self).next_node_id + size_signature(
                m.params@,
                m.ret,
                m.generics@,
            ),
            final(self).next_type_id <= old(self).next_type_id + size_signature(
                m.params@,
                m.ret,
                m.generics@,
            ),
            r.name == m.name,
            r.visibility == crate::parser::visitor::utils::spec_convert_visibility(m.vis),
            r.parameters@.len() == m.params@.len(),
            r.generic_params@.len() == m.generics@.len(),
            r.return_type is Some <==> m.ret is Some,
            opt_view(r.docstring) == spec_docstring(m.attrs@),
            r.body == m.body,
    {
        let ImplMethodInput { name, vis, params, ret, generics, attrs, body } = m;
        let method_id = self.alloc_id(NodeType::Function);
        let ghost s_id = *self;
        let parameters = self.process_parameters(method_id, params);
        let ghost s_params = *self;
        let return_type: Option<TypeId> = match ret {
            Some(t) => {
                let tid = self.get_or_create_type(t);
                self.add_relation(
                    Relation {
                        source: method_id,
                        target: NodeId { type_prefix: NodeType::Type, unique_id: tid.0 },
                        kind: RelationKind::FunctionReturn,
                    },
                );
                Some(tid)
            },
            None => None,
        };
        let ghost s_ret = *self;
        let generic_params = self.process_generics(generics);
        let docstring = extract_docstring(&attrs);
        let attributes = extract_attributes(attrs);
        proof {
            crate::parser::visitor::state::lemma_builder_frame_trans(*old(self), s_id, s_params);
            crate::parser::visitor::state::lemma_builder_frame_trans(*old(self), s_params, s_ret);
            crate::parser::visitor::state::lemma_builder_frame_trans(*old(self), s_ret, *self);
        }
        FunctionNode {
            id: method_id,
            name,
            visibility: convert_visibility(vis),
            parameters,
            return_type,
            generic_params,
            attributes,
            docstring,
            body,
        }
    }

    /// Processes every method declaration of a trait, in order.
    #[verifier::loop_isolation(false)]
    pub fn process_trait_methods(&mut self, methods: Vec<TraitMethodInput>) -> (r: Vec<
        FunctionNode,
    >)
        requires
            old(self).wf(),
            old(self).next_node_id + size_trait_methods(methods@) <= usize::MAX,
            old(self).next_type_id + size_trait_methods(methods@) <= usize::MAX,
        ensures
            final(self).wf(),
            builder_frame(*old(self), *final(self)),
            final(self).code_graph.functions == old(self).code_graph.functions,
            final(self).code_graph.defined_types == old(self).code_graph.defined_types,
            final(self).code_graph.impls == old(self).code_graph.impls,
            final(self).code_graph.traits == old(self).code_graph.traits,
            final(self).code_graph.private_traits == old(self).code_graph.private_traits,
            final(self).code_graph.modules == old(self).code_graph.modules,
            final(self).code_graph.values == old(self).code_graph.values,
            final(self).code_graph.macros == old(self).code_graph.macros,
            final(self).next_trait_id == old(self).next_trait_id,
            final(self).next_node_id <= old(self).next_node_id + size_trait_methods(methods@),
            final(self).next_type_id <= old(self).next_type_id + size_trait_methods(methods@),
            r@.len() == methods@.len(),
            forall|i: int|
                0 <= i < r@.len() ==> (#[trigger] r@[i]).name == methods@[i].name && r@[i].visibility
                    == VisibilityKind::Public && r@[i].parameters@.len()
                    == methods@[i].params@.len(),
    {
        let mut methods = methods;
        let ghost m0 = methods@;
        let mut out: Vec<FunctionNode> = Vec::new();
        while methods.len() > 0
            invariant
                self.wf(),
                builder_frame(*old(self), *self),
                self.code_graph.functions == old(self).code_graph.functions,
                self.code_graph.defined_types == old(self).code_graph.defined_types,
                self.code_graph.impls == old(self).code_graph.impls,
                self.code_graph.traits == old(self).code_graph.traits,
                self.code_graph.private_traits == old(self).code_graph.private_traits,
                self.code_graph.modules == old(self).code_graph.modules,
                self.code_graph.values == old(self).code_graph.values,
                self.code_graph.macros == old(self).code_graph.macros,
                self.next_trait_id == old(self).next_trait_id,
                self.next_node_id + size_trait_methods(methods@) <= old(self).next_node_id
                    + size_trait_methods(m0),
                self.next_type_id + size_trait_methods(methods@) <= old(self).next_type_id
                    + size_trait_methods(m0),
                out@.len() + methods@.len() == m0.len(),
                methods@ =~= m0.skip(out@.len() as int),
                forall|i: int|
                    0 <= i < out@.len() ==> (#[trigger] out@[i]).name == m0[i].name
                        && out@[i].visibility == VisibilityKind::Public
                        && out@[i].parameters@.len() == m0[i].params@.len(),
            decreases methods@.len(),
        {
            let ghost pre_m = methods@;
            let ghost done = out@.len() as int;
            proof {
                assert(pre_m.remove(0) =~= pre_m.drop_first());
                assert(m0.skip(done).drop_first() =~= m0.skip(done + 1));
            }
            let ghost pre_loop = *self;
            let m = methods.remove(0);
            proof {
                assert(size_trait_methods(pre_m) == size_signature(m.params@, m.ret, m.generics@)
                    + size_trait_methods(methods@));
            }
            let node = self.process_trait_method(m);
            proof {
                crate::parser::visitor::state::lemma_builder_frame_trans(
                    *old(self),
                    pre_loop,
                    *self,
                );
            }
            out.push(node);
        }
        out
    }

    /// Processes a trait item into a trait node, wiring a type-definition
    /// relation to the trait's own named type entry and one inheritance
    /// relation per supertrait. A trait that is not declared public is stored
    /// in the private collection, recorded with restricted visibility.
    pub fn process_trait(&mut self, t: TraitInput) -> (r: TraitId)
        requires
            old(self).wf(),
            old(self).next_trait_id < usize::MAX,
            old(self).next_node_id + 3 + size_trait_methods(t.methods@) + size_bounds(
                t.supertraits@,
            ) + size_generics_of(t.generics@) <= usize::MAX,
            old(self).next_type_id + 3 + size_trait_methods(t.methods@) + size_bounds(
                t.supertraits@,
            ) + size_generics_of(t.generics@) <= usize::MAX,
        ensures
            final(self).wf(),
            builder_frame(*old(self), *final(self)),
            final(self).code_graph.functions == old(self).code_graph.functions,
            final(self).code_graph.defined_types == old(self).code_graph.defined_types,
            final(self).code_graph.impls == old(self).code_graph.impls,
            final(self).code_graph.modules == old(self).code_graph.modules,
            final(self).code_graph.values == old(self).code_graph.values,
            final(self).code_graph.macros == old(self).code_graph.macros,
            final(self).next_trait_id == old(self).next_trait_id + 1,
            final(self).next_node_id <= old(self).next_node_id + 3 + size_trait_methods(
                t.methods@,
            ) + size_bounds(t.supertraits@) + size_generics_of(t.generics@),
            final(self).next_type_id <= old(self).next_type_id + 3 + size_trait_methods(
                t.methods@,
            ) + size_bounds(t.supertraits@) + size_generics_of(t.generics@),
            r.0 == old(self).next_node_id,
            old(self).next_node_id < final(self).next_node_id,
            t.vis is Public ==> final(self).code_graph.traits@.len() == old(self).code_graph.traits@.len() + 1 && final(self).code_graph.private_traits == old(self).code_graph.private_traits && trait_node_matches(
                final(self).code_graph.traits@.last(),
                t,
                r,
                VisibilityKind::Public,
            ),
            !(t.vis is Public) ==> final(self).code_graph.private_traits@.len() == old(self).code_graph.private_traits@.len() + 1 && final(self).code_graph.traits == old(self).code_graph.traits && trait_node_matches(
                final(self).code_graph.private_traits@.last(),
                t,
                r,
                final(self).code_graph.private_traits@.last().visibility,
            ) && !(final(self).code_graph.private_traits@.last().visibility
                == VisibilityKind::Public),
            t.vis is Public ==> trait_edges_match(
                final(self).code_graph.traits@.last(),
                t,
                *final(self),
            ),
            !(t.vis is Public) ==> trait_edges_match(
                final(self).code_graph.private_traits@.last(),
                t,
                *final(self),
            ),
            ({
                let looked = spec_cache_lookup(final(self).type_map@, t.name@ + "::"@);
                &&& looked is Some
                &&& exists|j: int|
                    0 <= j < final(self).code_graph.relations@.len()
                        && final(self).code_graph.relations@[j] == (Relation {
                        source: NodeId { type_prefix: NodeType::Trait, unique_id: r.0 },
                        target: NodeId {
                            type_prefix: NodeType::Type,
                            unique_id: looked->Some_0.0,
                        },
                        kind: RelationKind::TypeDefinition,
                    })
            }),
    {
        let TraitInput { name, vis, methods, supertraits, generics, attrs } = t;
        // Trait entries live in their own table, but their numeric ids are
        // drawn from the shared declaration counter, so that every relation
        // endpoint is unique across namespaces and containment stays ordered.
        let id_node = self.alloc_id(NodeType::Trait);
        let trait_id = TraitId(id_node.unique_id);
        let ghost s_alloc = *self;
        // The trait counter tallies recorded trait entries.
        self.next_trait_id += 1;
        proof {
            crate::parser::visitor::state::lemma_prefix_refl(s_alloc.code_graph.type_graph@);
            crate::parser::visitor::type_processing::lemma_cache_decomposes_preserved(
                s_alloc,
                *self,
            );
        }
        let ghost s_tid = *self;
        let generic_params = self.process_generics(generics);
        let ghost s_gen = *self;
        let super_trait_ids = self.process_bounds(supertraits);
        let ghost s_sup = *self;
        let method_nodes = self.process_trait_methods(methods);
        let ghost s_m = *self;
        let docstring = extract_docstring(&attrs);
        let attributes = extract_attributes(attrs);
        // Register the trait's own named type entry.
        let mut seg: Vec<PathSegment> = Vec::new();
        seg.push(PathSegment { ident: name.clone(), args: PathArgs::Empty });
        let trait_ty = TypeExpr::Path { qualified: false, segments: seg };
        proof {
            match &trait_ty {
                TypeExpr::Path { segments, .. } => {
                    assert(segments@.len() == 1);
                    assert(segments@.drop_first() =~= Seq::<PathSegment>::empty());
                    assert(size_segments(segments@.drop_first()) == 0);
                    assert(crate::parser::input::size_segment(segments@[0]) == 1);
                    assert(size_segments(segments@) == 1);
                },
                _ => {},
            }
            assert(size_type(trait_ty) == 2);
            assert(key_of(trait_ty) =~= t.name@ + "::"@) by {
                match &trait_ty {
                    TypeExpr::Path { segments, .. } => {
                        assert(segments@.drop_first() =~= Seq::<PathSegment>::empty());
                        assert(crate::parser::visitor::type_processing::key_of_segments(
                            segments@.drop_first(),
                        ) =~= Seq::<char>::empty());
                        assert(crate::parser::visitor::type_processing::key_of_segment(
                            segments@[0],
                        ) =~= t.name@);
                        assert(crate::parser::visitor::type_processing::key_of_segments(
                            segments@,
                        ) == crate::parser::visitor::type_processing::key_of_segment(
                            segments@[0],
                        ) + "::"@ + crate::parser::visitor::type_processing::key_of_segments(
                            segments@.drop_first(),
                        ));
                        assert(crate::parser::visitor::type_processing::key_of_segments(
                            segments@,
                        ) =~= t.name@ + "::"@);
                        assert(key_of(trait_ty) == Seq::<char>::empty()
                            + crate::parser::visitor::type_processing::key_of_segments(
                            segments@,
                        ));
                    },
                    _ => {},
                }
            }
        }
        let type_id = self.get_or_create_type(trait_ty);
        let ghost s_ty = *self;
        self.add_relation(
            Relation {
                source: NodeId { type_prefix: NodeType::Trait, unique_id: trait_id.0 },
                target: NodeId { type_prefix: NodeType::Type, unique_id: type_id.0 },
                kind: RelationKind::TypeDefinition,
            },
        );
        let ghost s_rel = *self;
        // Inheritance relations per supertrait.
        let mut k: usize = 0;
        while k < super_trait_ids.len()
            invariant
                self.wf(),
                builder_frame(s_rel, *self),
                self.code_graph.functions == s_rel.code_graph.functions,
                self.code_graph.defined_types == s_rel.code_graph.defined_types,
                self.code_graph.impls == s_rel.code_graph.impls,
                self.code_graph.traits == s_rel.code_graph.traits,
                self.code_graph.private_traits == s_rel.code_graph.private_traits,
                self.code_graph.modules == s_rel.code_graph.modules,
                self.code_graph.values == s_rel.code_graph.values,
                self.code_graph.macros == s_rel.code_graph.macros,
                self.code_graph.type_graph == s_rel.code_graph.type_graph,
                self.type_map == s_rel.type_map,
                crate::parser::visitor::state::VisitorState::same_counters(s_rel, *self),
                forall|i: int|
                    0 <= i < super_trait_ids@.len() ==> (#[trigger] super_trait_ids@[i]).0
                        < self.next_type_id,
                k <= super_trait_ids@.len(),
                forall|i: int|
                    0 <= i < k ==> exists|j: int|
                        0 <= j < self.code_graph.relations@.len()
                            && self.code_graph.relations@[j] == (Relation {
                            source: NodeId { type_prefix: NodeType::Trait, unique_id: trait_id.0 },
                            target: NodeId {
                                type_prefix: NodeType::Type,
                                unique_id: (#[trigger] super_trait_ids@[i]).0,
                            },
                            kind: RelationKind::Inherits,
                        }),
            decreases super_trait_ids@.len() - k,
        {
            let ghost pre_rel = *self;
            self.add_relation(
                Relation {
                    source: NodeId { type_prefix: NodeType::Trait, unique_id: trait_id.0 },
                    target: NodeId {
                        type_prefix: NodeType::Type,
                        unique_id: super_trait_ids[k].0,
                    },
                    kind: RelationKind::Inherits,
                },
            );
            proof {
                crate::parser::visitor::state::lemma_builder_frame_trans(s_rel, pre_rel, *self);
                assert forall|i: int| 0 <= i < k as int + 1 implies exists|j: int|
                    0 <= j < self.code_graph.relations@.len() && self.code_graph.relations@[j]
                        == (Relation {
                        source: NodeId { type_prefix: NodeType::Trait, unique_id: trait_id.0 },
                        target: NodeId {
                            type_prefix: NodeType::Type,
                            unique_id: (#[trigger] super_trait_ids@[i]).0,
                        },
                        kind: RelationKind::Inherits,
                    }) by {
                    let want = Relation {
                        source: NodeId { type_prefix: NodeType::Trait, unique_id: trait_id.0 },
                        target: NodeId {
                            type_prefix: NodeType::Type,
                            unique_id: super_trait_ids@[i].0,
                        },
                        kind: RelationKind::Inherits,
                    };
                    if i < k as int {
                        let j = choose|j: int|
                            0 <= j < pre_rel.code_graph.relations@.len()
                                && pre_rel.code_graph.relations@[j] == want;
                        assert(self.code_graph.relations@[j] == pre_rel.code_graph.relations@[j]);
                        assert(self.code_graph.relations@[j] == want);
                    } else {
                        let j = self.code_graph.relations@.len() - 1;
                        assert(self.code_graph.relations@[j] == want);
                    }
                }
            }
            k += 1;
        }
        let ghost s_loop = *self;
        let ghost sts = super_trait_ids@;
        let ghost gp = generic_params@;
        let public = is_public(&vis);
        let visibility = if public {
            VisibilityKind::Public
        } else {
            match vis {
                VisibilityToken::Restricted(path) => VisibilityKind::Restricted(path),
                _ => VisibilityKind::Restricted(super_marker_path()),
            }
        };
        let node = TraitNode {
            id: trait_id,
            name,
            visibility,
            methods: method_nodes,
            generic_params,
            super_traits: super_trait_ids,
            attributes,
            docstring,
        };
        self.add_trait(node);
        proof {
            crate::parser::visitor::state::lemma_builder_frame_trans(*old(self), s_tid, s_gen);
            crate::parser::visitor::state::lemma_builder_frame_trans(*old(self), s_gen, s_sup);
            crate::parser::visitor::state::lemma_builder_frame_trans(*old(self), s_sup, s_m);
            crate::parser::visitor::state::lemma_builder_frame_trans(*old(self), s_m, s_ty);
            crate::parser::visitor::state::lemma_builder_frame_trans(*old(self), s_ty, s_rel);
            crate::parser::visitor::state::lemma_builder_frame_trans(*old(self), s_rel, *self);
            assert(self.type_map == s_ty.type_map);
            assert(spec_cache_lookup(self.type_map@, t.name@ + "::"@) == Some(type_id));
            let td = s_ty.code_graph.relations@.len() as int;
            assert(s_rel.code_graph.relations@[td] == (Relation {
                source: NodeId { type_prefix: NodeType::Trait, unique_id: trait_id.0 },
                target: NodeId { type_prefix: NodeType::Type, unique_id: type_id.0 },
                kind: RelationKind::TypeDefinition,
            }));
            assert(s_rel.code_graph.relations@.is_prefix_of(self.code_graph.relations@));
            assert(self.code_graph.relations@[td] == s_rel.code_graph.relations@[td]);
            assert(self.code_graph.relations@[td] == (Relation {
                source: NodeId { type_prefix: NodeType::Trait, unique_id: trait_id.0 },
                target: NodeId { type_prefix: NodeType::Type, unique_id: type_id.0 },
                kind: RelationKind::TypeDefinition,
            }));
            crate::parser::visitor::state::lemma_cache_preserves_trans(
                s_gen.type_map@,
                s_sup.type_map@,
                s_m.type_map@,
            );
            crate::parser::visitor::state::lemma_cache_preserves_trans(
                s_gen.type_map@,
                s_m.type_map@,
                s_ty.type_map@,
            );
            crate::parser::visitor::state::lemma_cache_preserves_trans(
                s_sup.type_map@,
                s_m.type_map@,
                s_ty.type_map@,
            );
            assert(s_sup.code_graph.type_graph@.is_prefix_of(self.code_graph.type_graph@)) by {
                assert(s_sup.code_graph.type_graph@ =~= self.code_graph.type_graph@.subrange(
                    0,
                    s_sup.code_graph.type_graph@.len() as int,
                ));
            }
            assert(s_gen.code_graph.type_graph@.is_prefix_of(self.code_graph.type_graph@)) by {
                assert(s_gen.code_graph.type_graph@ =~= self.code_graph.type_graph@.subrange(
                    0,
                    s_gen.code_graph.type_graph@.len() as int,
                ));
            }
            assert forall|i: int|
                0 <= i < sts.len() implies crate::parser::visitor::generics::bound_resolved(
                t.supertraits@[i],
                #[trigger] sts[i],
                *self,
            ) by {
                crate::parser::visitor::generics::lemma_bound_resolved_preserved(
                    t.supertraits@[i],
                    sts[i],
                    s_sup,
                    *self,
                );
            }
            assert forall|i: int|
                0 <= i < gp.len() implies crate::parser::visitor::generics::gp_resolved(
                #[trigger] gp[i],
                t.generics@[i],
                *self,
            ) by {
                crate::parser::visitor::generics::lemma_gp_resolved_preserved(
                    gp[i],
                    t.generics@[i],
                    s_gen,
                    *self,
                );
            }
            assert(self.code_graph.relations == s_loop.code_graph.relations);
        }
        trait_id
    }

    /// First type-definition relation whose target is the given type entry,
    /// yielding the defining trait's node id; nothing defines the entry when
    /// the result is absent.
    pub fn find_type_definition(&self, target: NodeId) -> (r: Option<NodeId>)
        ensures
            r == first_type_def(self.code_graph.relations@, target),
    {
        let mut j: usize = 0;
        while j < self.code_graph.relations.len()
            invariant
                j <= self.code_graph.relations@.len(),
                first_type_def(self.code_graph.relations@, target) == first_type_def_from(
                    self.code_graph.relations@,
                    target,
                    j as int,
                ),
            decreases self.code_graph.relations@.len() - j,
        {
            let rel = &self.code_graph.relations[j];
            if matches!(rel.kind, RelationKind::TypeDefinition) && rel.target == target {
                return Some(rel.source);
            }
            j += 1;
        }
        None
    }

    /// Index of the public trait with the given trait-id value; no recorded
    /// public trait carries the value when the result is absent.
    pub fn find_public_trait(&self, id: usize) -> (r: Option<usize>)
        ensures
            match r {
                Some(k) => k < self.code_graph.traits@.len()
                    && self.code_graph.traits@[k as int].id.0 == id,
                None => forall|k: int|
                    0 <= k < self.code_graph.traits@.len() ==> (
                    #[trigger] self.code_graph.traits@[k]).id.0 != id,
            },
    {
        let mut k: usize = 0;
        while k < self.code_graph.traits.len()
            invariant
                k <= self.code_graph.traits@.len(),
                forall|j: int|
                    0 <= j < k ==> (#[trigger] self.code_graph.traits@[j]).id.0 != id,
            decreases self.code_graph.traits@.len() - k,
        {
            if self.code_graph.traits[k].id.0 == id {
                return Some(k);
            }
            k += 1;
        }
        None
    }

    /// Processes every method of an implementation block, in order.
    #[verifier::loop_isolation(false)]
    pub fn process_impl_methods(&mut self, methods: Vec<ImplMethodInput>) -> (r: Vec<FunctionNode>)
        requires
            old(self).wf(),
            old(self).next_node_id + size_impl_methods(methods@) <= usize::MAX,
            old(self).next_type_id + size_impl_methods(methods@) <= usize::MAX,
        ensures
            final(self).wf(),
            builder_frame(*old(self), *final(self)),
            final(self).code_graph.functions == old(self).code_graph.functions,
            final(self).code_graph.defined_types == old(self).code_graph.defined_types,
            final(self).code_graph.impls == old(self).code_graph.impls,
            final(self).code_graph.traits == old(self).code_graph.traits,
            final(self).code_graph.private_traits == old(self).code_graph.private_traits,
            final(self).code_graph.modules == old(self).code_graph.modules,
            final(self).code_graph.values == old(self).code_graph.values,
            final(self).code_graph.macros == old(self).code_graph.macros,
            final(self).next_trait_id == old(self).next_trait_id,
            final(self).next_node_id <= old(self).next_node_id + size_impl_methods(methods@),
            final(self).next_type_id <= old(self).next_type_id + size_impl_methods(methods@),
            r@.len() == methods@.len(),
            forall|i: int|
                0 <= i < r@.len() ==> (#[trigger] r@[i]).name == methods@[i].name
                    && r@[i].parameters@.len() == methods@[i].params@.len(),
    {
        let mut methods = methods;
        let ghost m0 = methods@;
        let mut out: Vec<FunctionNode> = Vec::new();
        while methods.len() > 0
            invariant
                self.wf(),
                builder_frame(*old(self), *self),
                self.code_graph.functions == old(self).code_graph.functions,
                self.code_graph.defined_types == old(self).code_graph.defined_types,
                self.code_graph.impls == old(self).code_graph.impls,
                self.code_graph.traits == old(self).code_graph.traits,
                self.code_graph.private_traits == old(self).code_graph.private_traits,
                self.code_graph.modules == old(self).code_graph.modules,
                self.code_graph.values == old(self).code_graph.values,
                self.code_graph.macros == old(self).code_graph.macros,
                self.next_trait_id == old(self).next_trait_id,
                self.next_node_id + size_impl_methods(methods@) <= old(self).next_node_id
                    + size_impl_methods(m0),
                self.next_type_id + size_impl_methods(methods@) <= old(self).next_type_id
                    + size_impl_methods(m0),
                out@.len() + methods@.len() == m0.len(),
                methods@ =~= m0.skip(out@.len() as int),
                forall|i: int|
                    0 <= i < out@.len() ==> (#[trigger] out@[i]).name == m0[i].name
                        && out@[i].parameters@.len() == m0[i].params@.len(),
            decreases methods@.len(),
        {
            let ghost pre_m = methods@;
            let ghost done = out@.len() as int;
            proof {
                assert(pre_m.remove(0) =~= pre_m.drop_first());
                assert(m0.skip(done).drop_first() =~= m0.skip(done + 1));
            }
            let ghost pre_loop = *self;
            let m = methods.remove(0);
            proof {
                assert(size_impl_methods(pre_m) == size_signature(m.params@, m.ret, m.generics@)
                    + size_impl_methods(methods@));
            }
            let node = self.process_impl_method(m);
            proof {
                crate::parser::visitor::state::lemma_builder_frame_trans(
                    *old(self),
                    pre_loop,
                    *self,
                );
            }
            out.push(node);
        }
        out
    }

    /// Processes an implementation block. The self type and the implemented
    /// trait reference, when present, go through the interner. A block whose
    /// trait reference does not resolve to a publicly recorded trait is
    /// excluded from the implementation collection entirely; the block's ids
    /// remain consumed. Returns the block's id when it was kept.
    pub fn process_impl(&mut self, im: ImplInput) -> (r: Option<NodeId>)
        requires
            old(self).wf(),
            old(self).next_node_id + 3 + size_type(im.self_ty) + (match im.trait_path {
                Some(p) => 1 + size_segments(p@),
                None => 0,
            }) + size_impl_methods(im.methods@) + size_generics_of(im.generics@) <= usize::MAX,
            old(self).next_type_id + 3 + size_type(im.self_ty) + (match im.trait_path {
                Some(p) => 1 + size_segments(p@),
                None => 0,
            }) + size_impl_methods(im.methods@) + size_generics_of(im.generics@) <= usize::MAX,
        ensures
            final(self).wf(),
            builder_frame(*old(self), *final(self)),
            final(self).code_graph.functions == old(self).code_graph.functions,
            final(self).code_graph.defined_types == old(self).code_graph.defined_types,
            final(self).code_graph.traits == old(self).code_graph.traits,
            final(self).code_graph.private_traits == old(self).code_graph.private_traits,
            final(self).code_graph.modules == old(self).code_graph.modules,
            final(self).code_graph.values == old(self).code_graph.values,
            final(self).code_graph.macros == old(self).code_graph.macros,
            final(self).next_trait_id == old(self).next_trait_id,
            old(self).next_node_id < final(self).next_node_id,
            final(self).next_node_id <= old(self).next_node_id + 3 + size_type(im.self_ty) + (
            match im.trait_path {
                Some(p) => 1 + size_segments(p@),
                None => 0nat,
            }) + size_impl_methods(im.methods@) + size_generics_of(im.generics@),
            final(self).next_type_id <= old(self).next_type_id + 3 + size_type(im.self_ty) + (
            match im.trait_path {
                Some(p) => 1 + size_segments(p@),
                None => 0nat,
            }) + size_impl_methods(im.methods@) + size_generics_of(im.generics@),
            r is Some <==> impl_kept(im, *old(self)),
            match r {
                Some(id) => {
                    &&& final(self).code_graph.impls@.len() == old(self).code_graph.impls@.len()
                        + 1
                    &&& final(self).code_graph.impls@.last().id == id
                    &&& id.type_prefix == NodeType::Impl
                    &&& id.unique_id == old(self).next_node_id
                    &&& spec_cache_lookup(final(self).type_map@, key_of(im.self_ty)) == Some(
                        final(self).code_graph.impls@.last().self_type,
                    )
                    &&& (final(self).code_graph.impls@.last().trait_type is Some <==> im.trait_path
                        is Some)
                    &&& final(self).code_graph.impls@.last().methods@.len() == im.methods@.len()
                    &&& forall|i: int|
                        0 <= i < im.methods@.len() ==> (#[trigger] final(self).code_graph.impls@.last().methods@[i]).name == im.methods@[i].name
                    &&& final(self).code_graph.impls@.last().generic_params@.len()
                        == im.generics@.len()
                    &&& forall|i: int|
                        0 <= i < im.generics@.len()
                            ==> crate::parser::visitor::generics::gp_matches(
                            #[trigger] final(self).code_graph.impls@.last().generic_params@[i],
                            im.generics@[i],
                        )
                    &&& forall|i: int|
                        0 <= i < im.generics@.len()
                            ==> crate::parser::visitor::generics::gp_resolved(
                            (#[trigger] final(self).code_graph.impls@.last().generic_params@[i]),
                            im.generics@[i],
                            *final(self),
                        )
                    &&& exists|j: int|
                        0 <= j < final(self).code_graph.relations@.len() && (#[trigger] final(self).code_graph.relations@[j]) == (Relation {
                            source: id,
                            target: NodeId {
                                type_prefix: NodeType::Type,
                                unique_id: final(self).code_graph.impls@.last().self_type.0,
                            },
                            kind: RelationKind::ImplementsFor,
                        })
                    &&& (im.trait_path is Some ==> exists|j: int|
                        0 <= j < final(self).code_graph.relations@.len() && (#[trigger] final(self).code_graph.relations@[j]).kind == RelationKind::ImplementsTrait && final(self).code_graph.relations@[j].source == id)
                },
                None => {
                    &&& final(self).code_graph.impls == old(self).code_graph.impls
                    &&& im.trait_path is Some
                },
            },
    {
        let ImplInput { self_ty, trait_path, methods, generics } = im;
        let impl_id = self.alloc_id(NodeType::Impl);
        let ghost s_id = *self;
        let self_type = self.get_or_create_type(self_ty);
        let ghost s_self = *self;
        // Resolve the implemented trait, if any, against the recorded public
        // traits; otherwise the block is dropped.
        let mut trait_node_id: Option<NodeId> = None;
        let trait_type: Option<TypeId> = match trait_path {
            Some(p) => {
                let t = TypeExpr::Path { qualified: false, segments: p };
                let ghost gkey = key_of(t);
                let tid = self.get_or_create_type(t);
                proof {
                    // The reference's id against the entry state: a key
                    // already interned on entry keeps its id; a new key gets
                    // an id past every relation recorded on entry.
                    assert(s_id.type_map == old(self).type_map);
                    assert(s_id.next_type_id == old(self).next_type_id);
                    assert(self.code_graph.relations == old(self).code_graph.relations);
                    if spec_cache_lookup(old(self).type_map@, gkey) is None {
                        if spec_cache_lookup(s_self.type_map@, gkey) is None {
                            assert(tid.0 >= s_self.next_type_id);
                        } else {
                            assert(spec_cache_lookup(s_self.type_map@, gkey)->Some_0.0 >= s_id.next_type_id);
                        }
                        assert(tid.0 >= old(self).next_type_id);
                    } else {
                        assert(spec_cache_lookup(s_self.type_map@, gkey) == spec_cache_lookup(
                            old(self).type_map@,
                            gkey,
                        ));
                        assert(Some(tid) == spec_cache_lookup(old(self).type_map@, gkey));
                    }
                }
                let ghost d_target = NodeId { type_prefix: NodeType::Type, unique_id: tid.0 };
                let def = self.find_type_definition(
                    NodeId { type_prefix: NodeType::Type, unique_id: tid.0 },
                );
                proof {
                    assert(def == first_type_def(old(self).code_graph.relations@, d_target));
                    if spec_cache_lookup(old(self).type_map@, gkey) is None {
                        assert forall|j: int|
                            0 <= j < old(self).code_graph.relations@.len() implies !((
                        #[trigger] old(self).code_graph.relations@[j]).kind
                            == RelationKind::TypeDefinition && old(self).code_graph.relations@[j].target
                            == d_target) by {
                            if old(self).code_graph.relations@[j].target == d_target {
                                assert(old(self).code_graph.relations@[j].target.unique_id < old(self).next_type_id);
                            }
                        }
                        lemma_first_type_def_none(
                            old(self).code_graph.relations@,
                            d_target,
                            0,
                        );
                    }
                }
                match def {
                    Some(src) => {
                        match self.find_public_trait(src.unique_id) {
                            Some(_) => {
                                proof {
                                    lemma_first_type_def_witness(
                                        old(self).code_graph.relations@,
                                        d_target,
                                        0,
                                    );
                                    let j = choose|j: int|
                                        0 <= j < old(self).code_graph.relations@.len() && (
                                        #[trigger] old(self).code_graph.relations@[j]) == (Relation {
                                            source: src,
                                            target: d_target,
                                            kind: RelationKind::TypeDefinition,
                                        });
                                    assert(crate::parser::relations::rel_valid(
                                        old(self).code_graph.relations@[j],
                                    ));
                                    assert(src.type_prefix == NodeType::Trait);
                                    assert(impl_kept(im, *old(self)));
                                }
                                trait_node_id = Some(src);
                                Some(tid)
                            },
                            None => {
                                proof {
                                    crate::parser::visitor::state::lemma_builder_frame_trans(
                                        *old(self),
                                        s_id,
                                        *self,
                                    );
                                    assert(self.code_graph.traits == old(self).code_graph.traits);
                                    assert(!impl_kept(im, *old(self)));
                                }
                                return None;
                            },
                        }
                    },
                    None => {
                        proof {
                            crate::parser::visitor::state::lemma_builder_frame_trans(
                                *old(self),
                                s_id,
                                *self,
                            );
                            assert(!impl_kept(im, *old(self)));
                        }
                        return None;
                    },
                }
            },
            None => None,
        };
        let ghost s_trait = *self;
        proof {
            match trait_type {
                Some(tid) => {
                    let ghost d_target = NodeId {
                        type_prefix: NodeType::Type,
                        unique_id: tid.0,
                    };
                    assert(trait_linked(self.code_graph, tid)) by {
                        let src = trait_node_id->Some_0;
                        lemma_first_type_def_witness(
                            old(self).code_graph.relations@,
                            d_target,
                            0,
                        );
                        let j = choose|j: int|
                            0 <= j < old(self).code_graph.relations@.len() && (
                            #[trigger] old(self).code_graph.relations@[j]) == (Relation {
                                source: src,
                                target: d_target,
                                kind: RelationKind::TypeDefinition,
                            });
                        assert(self.code_graph.relations@[j]
                            == old(self).code_graph.relations@[j]);
                        assert(crate::parser::relations::rel_valid(
                            self.code_graph.relations@[j],
                        ));
                    }
                },
                None => {},
            }
        }
        let method_nodes = self.process_impl_methods(methods);
        let ghost s_m = *self;
        let generic_params = self.process_generics(generics);
        let ghost s_gen = *self;
        self.add_relation(
            Relation {
                source: impl_id,
                target: NodeId { type_prefix: NodeType::Type, unique_id: self_type.0 },
                kind: RelationKind::ImplementsFor,
            },
        );
        match &trait_node_id {
            Some(tn) => {
                self.add_relation(
                    Relation {
                        source: impl_id,
                        target: *tn,
                        kind: RelationKind::ImplementsTrait,
                    },
                );
            },
            None => {},
        }
        let ghost s_rel = *self;
        proof {
            match trait_type {
                Some(tid) => {
                    crate::parser::visitor::state::lemma_trait_linked_extends(
                        s_trait.code_graph,
                        self.code_graph,
                        tid,
                    );
                },
                None => {},
            }
        }
        let ghost gp = generic_params@;
        let node = ImplNode {
            id: impl_id,
            self_type,
            trait_type,
            methods: method_nodes,
            generic_params,
        };
        self.add_impl(node);
        proof {
            let ghost rels = self.code_graph.relations@;
            let ghost j_for = s_gen.code_graph.relations@.len() as int;
            assert(rels[j_for] == (Relation {
                source: impl_id,
                target: NodeId { type_prefix: NodeType::Type, unique_id: self_type.0 },
                kind: RelationKind::ImplementsFor,
            }));
            if trait_node_id is Some {
                assert(rels[j_for + 1] == (Relation {
                    source: impl_id,
                    target: trait_node_id->Some_0,
                    kind: RelationKind::ImplementsTrait,
                }));
            }
            crate::parser::visitor::state::lemma_builder_frame_trans(*old(self), s_id, s_self);
            crate::parser::visitor::state::lemma_builder_frame_trans(*old(self), s_self, s_trait);
            crate::parser::visitor::state::lemma_builder_frame_trans(*old(self), s_trait, s_m);
            crate::parser::visitor::state::lemma_builder_frame_trans(*old(self), s_m, s_gen);
            crate::parser::visitor::state::lemma_builder_frame_trans(*old(self), s_gen, s_rel);
            crate::parser::visitor::state::lemma_builder_frame_trans(*old(self), s_rel, *self);
            assert(spec_cache_lookup(s_self.type_map@, key_of(im.self_ty)) == Some(self_type));
            crate::parser::visitor::state::lemma_prefix_refl(self.code_graph.type_graph@);
            assert forall|i: int|
                0 <= i < gp.len() implies crate::parser::visitor::generics::gp_resolved(
                #[trigger] gp[i],
                im.generics@[i],
                *self,
            ) by {
                crate::parser::visitor::generics::lemma_gp_resolved_preserved(
                    gp[i],
                    im.generics@[i],
                    s_gen,
                    *self,
                );
            }
        }
        Some(impl_id)
    }
}

/// The produced trait node's resolved ids and recorded relations: every
/// supertrait id names the interned entry of its bound, an inheritance
/// relation ties the trait to each supertrait's type entry, and each generic
/// parameter's ids resolve through the interner.
pub open spec fn trait_edges_match(n: TraitNode, t: TraitInput, post: VisitorState) -> bool {
    &&& forall|i: int|
        0 <= i < n.super_traits@.len() ==> crate::parser::visitor::generics::bound_resolved(
            t.supertraits@[i],
            #[trigger] n.super_traits@[i],
            post,
        )
    &&& forall|i: int|
        0 <= i < n.super_traits@.len() ==> exists|j: int|
            0 <= j < post.code_graph.relations@.len() && post.code_graph.relations@[j]
                == (Relation {
                source: NodeId { type_prefix: NodeType::Trait, unique_id: n.id.0 },
                target: NodeId {
                    type_prefix: NodeType::Type,
                    unique_id: (#[trigger] n.super_traits@[i]).0,
                },
                kind: RelationKind::Inherits,
            })
    &&& forall|i: int|
        0 <= i < n.generic_params@.len() ==> crate::parser::visitor::generics::gp_resolved(
            #[trigger] n.generic_params@[i],
            t.generics@[i],
            post,
        )
}

/// A produced trait node reflects its input: name, method and supertrait
/// counts, generics count, documentation, and attributes.
pub open spec fn trait_node_matches(
    n: TraitNode,
    t: TraitInput,
    id: TraitId,
    vis: VisibilityKind,
) -> bool {
    &&& n.id == id
    &&& n.name == t.name
    &&& n.visibility == vis
    &&& n.methods@.len() == t.methods@.len()
    &&& forall|i: int|
        0 <= i < n.methods@.len() ==> (#[trigger] n.methods@[i]).name == t.methods@[i].name && (
        #[trigger] n.methods@[i]).visibility == VisibilityKind::Public
            && n.methods@[i].parameters@.len() == t.methods@[i].params@.len()
    &&& n.super_traits@.len() == t.supertraits@.len()
    &&& n.generic_params@.len() == t.generics@.len()
    &&& forall|i: int|
        0 <= i < n.generic_params@.len() ==> crate::parser::visitor::generics::gp_matches(
            #[trigger] n.generic_params@[i],
            t.generics@[i],
        )
    &&& opt_view(n.docstring) == spec_docstring(t.attrs@)
    &&& n.attributes@ == spec_extract_attrs(t.attrs@)
}

/// Size measure alias for generic parameter lists.
pub open spec fn size_generics_of(s: Seq<crate::parser::input::GenericParamInput>) -> nat {
    crate::parser::input::size_generics(s)
}

/// The path of the restricted-visibility marker recorded for a trait that is
/// not declared public.
fn super_marker_path() -> (r: Vec<String>)
    ensures
        r@.len() == 1,
        r@[0]@ == "super"@,
{
    let mut v: Vec<String> = Vec::new();
    v.push(String::from_str("super"));
    v
}

} // verus!
