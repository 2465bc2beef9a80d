//! The function builder: parameters, return type, generics, and the relations
//! that tie a function to its parts.

use vstd::prelude::*;
use vstd::string::StringExecFns;
use crate::parser::graph_ids::NodeType;
use crate::parser::input::{
    size_param, size_params, size_signature, FnInput, ParamInput,
};
use crate::parser::nodes::{FunctionNode, NodeId, ParameterNode};
use crate::parser::relations::{Relation, RelationKind};
use crate::parser::types::TypeId;
use crate::parser::visitor::state::{builder_frame, spec_cache_lookup, VisitorState};
use crate::parser::visitor::type_processing::key_of;
use crate::parser::visitor::utils::{
    extract_attributes, extract_docstring, opt_view, spec_convert_visibility, spec_docstring,
    spec_extract_attrs,
};

verus! {

/// A produced parameter node reflects its input: same name and mutability,
/// and, for an ordinary parameter, the type id the interning cache holds for
/// the parameter's type text. A receiver becomes a dedicated parameter named
/// after itself with a fresh self-type entry.
pub open spec fn param_matches(r: ParameterNode, p: ParamInput, m: Seq<(String, TypeId)>) -> bool {
    match p {
        ParamInput::Typed { name, mutable, ty } => {
            &&& r.name == name
            &&& r.is_mutable == mutable
            &&& !r.is_self
            &&& spec_cache_lookup(m, key_of(ty)) == Some(r.type_id)
        },
        ParamInput::Receiver { mutable, ty } => {
            &&& match r.name {
                Some(n) => n@ == "self"@,
                None => false,
            }
            &&& r.is_mutable == mutable
            &&& r.is_self
        },
    }
}

impl VisitorState {
    /// Processes one function argument: an ordinary parameter is typed
    /// through the interner; a receiver is synthesized as a dedicated `Self`
    /// type entry tied to its declared type.
    pub fn process_fn_arg(&mut self, arg: ParamInput) -> (r: ParameterNode)
        requires
            old(self).wf(),
            old(self).next_node_id + size_param(arg) <= usize::MAX,
            old(self).next_type_id + size_param(arg) <= usize::MAX,
        ensures
            final(self).wf(),
            builder_frame(*old(self), *final(self)),
            final(self).code_graph.functions == old(self).code_graph.functions,
            final(self).code_graph.defined_types == old(self).code_graph.defined_types,
            final(self).code_graph.impls == old(self).code_graph.impls,
            final(self).code_graph.traits == old(self).code_graph.traits,
            final(self).code_graph.private_traits == old(self).code_graph.private_traits,
            final(self).code_graph.relations == old(self).code_graph.relations,
            final(self).code_graph.modules == old(self).code_graph.modules,
            final(self).code_graph.values == old(self).code_graph.values,
            final(self).code_graph.macros == old(self).code_graph.macros,
            final(self).next_trait_id == old(self).next_trait_id,
            final(self).next_node_id == old(self).next_node_id + 1,
            final(self).next_type_id <= old(self).next_type_id + size_param(arg),
            r.id == (NodeId { type_prefix: NodeType::Node, unique_id: old(self).next_node_id }),
            r.type_id.0 < final(self).next_type_id,
            param_matches(r, arg, final(self).type_map@),
            (arg matches ParamInput::Receiver { ty, .. } ==> r.type_id.0 < final(self).code_graph.type_graph@.len() && ({
                let node = final(self).code_graph.type_graph@[r.type_id.0 as int];
                &&& node.id == r.type_id
                &&& node.related_types@.len() == 1
                &&& spec_cache_lookup(final(self).type_map@, key_of(ty)) == Some(
                    node.related_types@[0],
                )
                &&& match node.kind {
                    crate::parser::types::TypeKind::Named { path, is_fully_qualified } => path@.len()
                        == 1 && path@[0]@ == "Self"@ && !is_fully_qualified,
                    _ => false,
                }
            })),
    {
        match arg {
            ParamInput::Typed { name, mutable, ty } => {
                let type_id = self.get_or_create_type(ty);
                let id = self.alloc_id(NodeType::Node);
                proof {
                    crate::parser::visitor::state::lemma_prefix_refl(
                        old(self).code_graph.relations@,
                    );
                    crate::parser::visitor::state::lemma_prefix_refl(
                        old(self).code_graph.functions@,
                    );
                }
                ParameterNode { id, name, type_id, is_mutable: mutable, is_self: false }
            },
            ParamInput::Receiver { mutable, ty } => {
                let ghost gty = ty;
                let inner = self.get_or_create_type(ty);
                let mut related: Vec<TypeId> = Vec::new();
                related.push(inner);
                proof {
                    assert(related@ =~= seq![inner]);
                }
                let self_type = self.push_type_node(
                    crate::parser::types::TypeKind::Named {
                        path: self_marker_path(),
                        is_fully_qualified: false,
                    },
                    related,
                );
                let id = self.alloc_id(NodeType::Node);
                proof {
                    assert(self.code_graph.type_graph@[self_type.0 as int].related_types@[0]
                        == inner);
                    assert(spec_cache_lookup(self.type_map@, key_of(gty)) == Some(inner));
                }
                ParameterNode {
                    id,
                    name: Some(String::from_str("self")),
                    type_id: self_type,
                    is_mutable: mutable,
                    is_self: true,
                }
            },
        }
    }

    /// Processes every argument of a signature, in order, wiring one
    /// parameter relation from the owning function to each produced node.
    #[verifier::loop_isolation(false)]
    pub fn process_parameters(&mut self, owner: NodeId, params: Vec<ParamInput>) -> (r: Vec<
        ParameterNode,
    >)
        requires
            old(self).wf(),
            owner.type_prefix == NodeType::Function,
            old(self).next_node_id + size_params(params@) <= usize::MAX,
            old(self).next_type_id + size_params(params@) <= usize::MAX,
        ensures
            final(self).wf(),
            builder_frame(*old(self), *final(self)),
            final(self).code_graph.functions == old(self).code_graph.functions,
            final(self).code_graph.defined_types == old(self).code_graph.defined_types,
            final(self).code_graph.impls == old(self).code_graph.impls,
            final(self).code_graph.traits == old(self).code_graph.traits,
            final(self).code_graph.private_traits == old(self).code_graph.private_traits,
            final(self).code_graph.modules == old(self).code_graph.modules,
            final(self).code_graph.values == old(self).code_graph.values,
            final(self).code_graph.macros == old(self).code_graph.macros,
            final(self).next_trait_id == old(self).next_trait_id,
            final(self).next_node_id <= old(self).next_node_id + size_params(params@),
            final(self).next_type_id <= old(self).next_type_id + size_params(params@),
            r@.len() == params@.len(),
            final(self).code_graph.relations@.len() == old(self).code_graph.relations@.len()
                + params@.len(),
            forall|i: int|
                0 <= i < r@.len() ==> param_matches(
                    #[trigger] r@[i],
                    params@[i],
                    final(self).type_map@,
                ),
            forall|j: int|
                old(self).code_graph.relations@.len() <= j
                    < final(self).code_graph.relations@.len() ==> (#[trigger] final(self).code_graph.relations@[j]) == (Relation {
                    source: owner,
                    target: final(self).code_graph.relations@[j].target,
                    kind: RelationKind::FunctionParameter,
                }),
            forall|i: int|
                0 <= i < r@.len() ==> exists|j: int|
                    0 <= j < final(self).code_graph.relations@.len() && final(self).code_graph.relations@[j] == (Relation {
                        source: owner,
                        target: (#[trigger] r@[i]).id,
                        kind: RelationKind::FunctionParameter,
                    }),
    {
        let mut params = params;
        let ghost p0 = params@;
        let mut out: Vec<ParameterNode> = Vec::new();
        while params.len() > 0
            invariant
                self.wf(),
                builder_frame(*old(self), *self),
                self.code_graph.functions == old(self).code_graph.functions,
                self.code_graph.defined_types == old(self).code_graph.defined_types,
                self.code_graph.impls == old(self).code_graph.impls,
                self.code_graph.traits == old(self).code_graph.traits,
                self.code_graph.private_traits == old(self).code_graph.private_traits,
                self.code_graph.modules == old(self).code_graph.modules,
                self.code_graph.values == old(self).code_graph.values,
                self.code_graph.macros == old(self).code_graph.macros,
                self.next_trait_id == old(self).next_trait_id,
                self.next_node_id + size_params(params@) <= old(self).next_node_id + size_params(
                    p0,
                ),
                self.next_type_id + size_params(params@) <= old(self).next_type_id + size_params(
                    p0,
                ),
                out@.len() + params@.len() == p0.len(),
                params@ =~= p0.skip(out@.len() as int),
                self.code_graph.relations@.len() == old(self).code_graph.relations@.len()
                    + out@.len(),
                forall|i: int|
                    0 <= i < out@.len() ==> param_matches(
                        #[trigger] out@[i],
                        p0[i],
                        self.type_map@,
                    ),
                forall|j: int|
                    old(self).code_graph.relations@.len() <= j < self.code_graph.relations@.len()
                        ==> (#[trigger] self.code_graph.relations@[j]) == (Relation {
                        source: owner,
                        target: self.code_graph.relations@[j].target,
                        kind: RelationKind::FunctionParameter,
                    }),
                forall|i: int|
                    0 <= i < out@.len() ==> exists|j: int|
                        0 <= j < self.code_graph.relations@.len() && self.code_graph.relations@[j]
                            == (Relation {
                            source: owner,
                            target: (#[trigger] out@[i]).id,
                            kind: RelationKind::FunctionParameter,
                        }),
            decreases params@.len(),
        {
            let ghost pre_p = params@;
            let ghost done = out@.len() as int;
            proof {
                assert(pre_p.remove(0) =~= pre_p.drop_first());
                assert(p0.skip(done).drop_first() =~= p0.skip(done + 1));
            }
            let ghost pre_loop = *self;
            let p = params.remove(0);
            proof {
                assert(size_params(pre_p) == size_param(p) + size_params(params@));
                assert(size_param(p) >= 2);
            }
            let node = self.process_fn_arg(p);
            let ghost rels_before = self.code_graph.relations@;
            self.add_relation(
                Relation { source: owner, target: node.id, kind: RelationKind::FunctionParameter },
            );
            proof {
                crate::parser::visitor::state::lemma_builder_frame_trans(
                    *old(self),
                    pre_loop,
                    *self,
                );
                assert forall|i: int| 0 <= i < out@.len() implies param_matches(
                    #[trigger] out@[i],
                    p0[i],
                    self.type_map@,
                ) by {
                    match p0[i] {
                        ParamInput::Typed { ty, .. } => {
                            assert(spec_cache_lookup(pre_loop.type_map@, key_of(ty)) == Some(
                                out@[i].type_id,
                            ));
                        },
                        ParamInput::Receiver { .. } => {},
                    }
                }
            }
            out.push(node);
            proof {
                let ghost rels = self.code_graph.relations@;
                assert(rels[rels.len() - 1] == (Relation {
                    source: owner,
                    target: node.id,
                    kind: RelationKind::FunctionParameter,
                }));
                assert forall|i: int| 0 <= i < out@.len() implies exists|j: int|
                    0 <= j < rels.len() && rels[j] == (Relation {
                        source: owner,
                        target: (#[trigger] out@[i]).id,
                        kind: RelationKind::FunctionParameter,
                    }) by {
                    if i < out@.len() - 1 {
                        let j0 = choose|j: int|
                            0 <= j < pre_loop.code_graph.relations@.len()
                                && pre_loop.code_graph.relations@[j] == (Relation {
                                source: owner,
                                target: out@[i].id,
                                kind: RelationKind::FunctionParameter,
                            });
                        assert(rels[j0] == pre_loop.code_graph.relations@[j0]);
                    } else {
                        assert(rels[rels.len() - 1] == (Relation {
                            source: owner,
                            target: out@[i].id,
                            kind: RelationKind::FunctionParameter,
                        }));
                    }
                }
            }
        }
        out
    }

    /// Processes a function item into a function node, wiring parameter and
    /// return-type relations, and records it in the graph. Returns the new
    /// node's id.
    pub fn process_function(&mut self, f: FnInput) -> (r: NodeId)
        requires
            old(self).wf(),
            old(self).next_node_id + size_signature(f.params@, f.ret, f.generics@) <= usize::MAX,
            old(self).next_type_id + size_signature(f.params@, f.ret, f.generics@) <= usize::MAX,
        ensures
            final(self).wf(),
            builder_frame(*old(self), *final(self)),
            final(self).code_graph.defined_types == old(self).code_graph.defined_types,
            final(self).code_graph.impls == old(self).code_graph.impls,
            final(self).code_graph.traits == old(self).code_graph.traits,
            final(self).code_graph.private_traits == old(self).code_graph.private_traits,
            final(self).code_graph.modules == old(self).code_graph.modules,
            final(self).code_graph.values == old(self).code_graph.values,
            final(self).code_graph.macros == old(self).code_graph.macros,
            final(self).next_trait_id == old(self).next_trait_id,
            final(self).next_node_id <= old(self).next_node_id + size_signature(
                f.params@,
                f.ret,
                f.generics@,
            ),
            final(self).next_type_id <= old(self).next_type_id + size_signature(
                f.params@,
                f.ret,
                f.generics@,
            ),
            final(self).code_graph.functions@.len() == old(self).code_graph.functions@.len() + 1,
            final(self).code_graph.relations@.len() == old(self).code_graph.relations@.len()
                + f.params@.len() + (if f.ret is Some {
                1int
            } else {
                0int
            }),
            old(self).next_node_id < final(self).next_node_id,
            r == final(self).code_graph.functions@.last().id,
            r.type_prefix == NodeType::Function,
            r.unique_id == old(self).next_node_id,
            fn_node_matches(
                final(self).code_graph.functions@.last(),
                f,
                final(self).type_map@,
            ),
            forall|i: int|
                0 <= i < final(self).code_graph.functions@.last().generic_params@.len()
                    ==> crate::parser::visitor::generics::gp_resolved(
                    (#[trigger] final(self).code_graph.functions@.last().generic_params@[i]),
                    f.generics@[i],
                    *final(self),
                ),
            forall|i: int|
                0 <= i < final(self).code_graph.functions@.last().parameters@.len()
                    ==> exists|j: int|
                    0 <= j < final(self).code_graph.relations@.len() && final(self).code_graph.relations@[j] == (Relation {
                        source: r,
                        target: (#[trigger] final(self).code_graph.functions@.last().parameters@[i]).id,
                        kind: RelationKind::FunctionParameter,
                    }),
            f.ret is Some ==> exists|j: int|
                0 <= j < final(self).code_graph.relations@.len() && (#[trigger] final(self).code_graph.relations@[j]) == (Relation {
                    source: r,
                    target: (NodeId {
                        type_prefix: NodeType::Type,
                        unique_id: final(self).code_graph.functions@.last().return_type->Some_0.0,
                    }),
                    kind: RelationKind::FunctionReturn,
                }),
    {
        let FnInput { name, vis, params, ret, generics, attrs, body } = f;
        let fn_id = self.alloc_id(NodeType::Function);
        let ghost s_fn = *self;
        let parameters = self.process_parameters(fn_id, params);
        let ghost s_params = *self;
        let return_type: Option<TypeId> = match ret {
            Some(t) => {
                let tid = self.get_or_create_type(t);
                self.add_relation(
                    Relation {
                        source: fn_id,
                        target: NodeId { type_prefix: NodeType::Type, unique_id: tid.0 },
                        kind: RelationKind::FunctionReturn,
                    },
                );
                proof {
                    assert(self.code_graph.relations@[self.code_graph.relations@.len() - 1]
                        == (Relation {
                        source: fn_id,
                        target: NodeId { type_prefix: NodeType::Type, unique_id: tid.0 },
                        kind: RelationKind::FunctionReturn,
                    }));
                }
                Some(tid)
            },
            None => None,
        };
        let ghost s_ret = *self;
        let generic_params = self.process_generics(generics);
        let ghost s_gen = *self;
        let docstring = extract_docstring(&attrs);
        let attributes = extract_attributes(attrs);
        let visibility = crate::parser::visitor::utils::convert_visibility(vis);
        let node = FunctionNode {
            id: fn_id,
            name,
            visibility,
            parameters,
            return_type,
            generic_params,
            attributes,
            docstring,
            body,
        };
        self.add_function(node);
        proof {
            crate::parser::visitor::state::lemma_builder_frame_trans(*old(self), s_fn, s_params);
            crate::parser::visitor::state::lemma_builder_frame_trans(
                *old(self),
                s_params,
                s_ret,
            );
            crate::parser::visitor::state::lemma_builder_frame_trans(*old(self), s_ret, s_gen);
            crate::parser::visitor::state::lemma_builder_frame_trans(*old(self), s_gen, *self);
            assert(self.code_graph.functions@.last() == self.code_graph.functions@[
                self.code_graph.functions@.len() - 1
            ]);
            crate::parser::visitor::state::lemma_prefix_refl(self.code_graph.type_graph@);
            assert forall|i: int| 0 <= i < generic_params@.len() implies
                crate::parser::visitor::generics::gp_resolved(
                #[trigger] generic_params@[i],
                f.generics@[i],
                *self,
            ) by {
                crate::parser::visitor::generics::lemma_gp_resolved_preserved(
                    generic_params@[i],
                    f.generics@[i],
                    s_gen,
                    *self,
                );
            }
            assert forall|i: int|
                0 <= i < self.code_graph.functions@.last().parameters@.len() implies param_matches(
                #[trigger] self.code_graph.functions@.last().parameters@[i],
                f.params@[i],
                self.type_map@,
            ) by {
                match f.params@[i] {
                    ParamInput::Typed { ty, .. } => {
                        assert(spec_cache_lookup(s_params.type_map@, key_of(ty)) == Some(
                            self.code_graph.functions@.last().parameters@[i].type_id,
                        ));
                    },
                    ParamInput::Receiver { .. } => {},
                }
            }
            let ghost rels = self.code_graph.relations@;
            let ghost ps = self.code_graph.functions@.last().parameters@;
            assert forall|i: int| 0 <= i < ps.len() implies exists|j: int|
                0 <= j < rels.len() && rels[j] == (Relation {
                    source: fn_id,
                    target: (#[trigger] ps[i]).id,
                    kind: RelationKind::FunctionParameter,
                }) by {
                let j0 = choose|j: int|
                    0 <= j < s_params.code_graph.relations@.len()
                        && s_params.code_graph.relations@[j] == (Relation {
                        source: fn_id,
                        target: ps[i].id,
                        kind: RelationKind::FunctionParameter,
                    });
                assert(s_params.code_graph.relations@.is_prefix_of(rels));
                assert(rels[j0] == s_params.code_graph.relations@[j0]);
            }
            if f.ret is Some {
                let j1 = s_ret.code_graph.relations@.len() - 1;
                assert(rels[j1] == s_ret.code_graph.relations@[j1]);
            }
        }
        fn_id
    }
}

/// A produced function node reflects its input item: name, visibility,
/// parameters, return type, generics count, documentation, attributes, and
/// body text.
pub open spec fn fn_node_matches(n: FunctionNode, f: FnInput, m: Seq<(String, TypeId)>) -> bool {
    &&& n.name == f.name
    &&& n.visibility == spec_convert_visibility(f.vis)
    &&& n.parameters@.len() == f.params@.len()
    &&& forall|i: int|
        0 <= i < n.parameters@.len() ==> param_matches(#[trigger] n.parameters@[i], f.params@[i], m)
    &&& match f.ret {
        Some(t) => match n.return_type {
            Some(tid) => spec_cache_lookup(m, key_of(t)) == Some(tid),
            None => false,
        },
        None => n.return_type is None,
    }
    &&& n.generic_params@.len() == f.generics@.len()
    &&& forall|i: int|
        0 <= i < n.generic_params@.len() ==> crate::parser::visitor::generics::gp_matches(
            #[trigger] n.generic_params@[i],
            f.generics@[i],
        )
    &&& opt_view(n.docstring) == spec_docstring(f.attrs@)
    &&& n.attributes@ == spec_extract_attrs(f.attrs@)
    &&& n.body == f.body
}

/// The path of the synthesized receiver type entry.
fn self_marker_path() -> (r: Vec<String>)
    ensures
        r@.len() == 1,
        r@[0]@ == "Self"@,
{
    let mut v: Vec<String> = Vec::new();
    v.push(String::from_str("Self"));
    v
}

} // verus!
