//! The generic-parameter processor: normalizes a declaration's generic
//! parameter list, routing trait bounds and default types through the type
//! interner.

use vstd::prelude::*;
use crate::parser::graph_ids::NodeType;
use crate::parser::input::{
    size_bound, size_bounds, size_generic, size_generics, size_type, GenericParamInput, TypeBound,
};
use crate::parser::nodes::NodeId;
use crate::parser::relations::gparams_resolve;
use crate::parser::types::{GenericParamKind, GenericParamNode, TypeId};
use crate::parser::visitor::state::{cache_preserves, spec_cache_lookup, VisitorState};
use crate::parser::visitor::type_processing::{
    bound_entry_matches, intern_frame, key_of, key_of_segments,
};

verus! {

/// What generic-parameter processing never touches: the trait counter and
/// every graph collection but the type table; counters only move forward.
pub open spec fn gen_frame(pre: VisitorState, post: VisitorState) -> bool {
    &&& post.next_trait_id == pre.next_trait_id
    &&& pre.next_node_id <= post.next_node_id
    &&& pre.next_type_id <= post.next_type_id
    &&& post.code_graph.functions == pre.code_graph.functions
    &&& post.code_graph.defined_types == pre.code_graph.defined_types
    &&& post.code_graph.impls == pre.code_graph.impls
    &&& post.code_graph.traits == pre.code_graph.traits
    &&& post.code_graph.private_traits == pre.code_graph.private_traits
    &&& post.code_graph.relations == pre.code_graph.relations
    &&& post.code_graph.modules == pre.code_graph.modules
    &&& post.code_graph.values == pre.code_graph.values
    &&& post.code_graph.macros == pre.code_graph.macros
    &&& pre.code_graph.type_graph@.is_prefix_of(post.code_graph.type_graph@)
    &&& cache_preserves(pre.type_map@, post.type_map@)
}

/// A produced node reflects its input parameter: same kind, same name, one
/// resolved bound per input bound, a default exactly when one was declared.
pub open spec fn gp_matches(n: GenericParamNode, p: GenericParamInput) -> bool {
    match p {
        GenericParamInput::Type { name, bounds, default } => match n.kind {
            GenericParamKind::Type { name: rname, bounds: rbounds, default: rdefault } => {
                &&& rname == name
                &&& rbounds@.len() == bounds@.len()
                &&& (rdefault is Some <==> default is Some)
            },
            _ => false,
        },
        GenericParamInput::Lifetime { name, bounds } => match n.kind {
            GenericParamKind::Lifetime { name: rname, bounds: rbounds } => {
                &&& rname == name
                &&& rbounds == bounds
            },
            _ => false,
        },
        GenericParamInput::Const { name, ty } => match n.kind {
            GenericParamKind::Const { name: rname, .. } => rname == name,
            _ => false,
        },
    }
}

/// The id produced for a bound names the right interned entry: a trait bound
/// resolves through the cache under its path's canonical key; a lifetime or
/// verbatim bound names a table entry recording its marker or text.
pub open spec fn bound_resolved(b: TypeBound, id: TypeId, post: VisitorState) -> bool {
    match b {
        TypeBound::Trait(segments) => spec_cache_lookup(
            post.type_map@,
            key_of_segments(segments@),
        ) == Some(id),
        TypeBound::Lifetime(_) | TypeBound::Other(_) => id.0 < post.code_graph.type_graph@.len()
            && bound_entry_matches(b, post.code_graph.type_graph@[id.0 as int]),
    }
}

/// A resolved bound stays resolved while the cache keeps its answers and the
/// type table only grows.
pub proof fn lemma_bound_resolved_preserved(
    b: TypeBound,
    id: TypeId,
    s1: VisitorState,
    s2: VisitorState,
)
    requires
        bound_resolved(b, id, s1),
        cache_preserves(s1.type_map@, s2.type_map@),
        s1.code_graph.type_graph@.is_prefix_of(s2.code_graph.type_graph@),
    ensures
        bound_resolved(b, id, s2),
{
    match b {
        TypeBound::Trait(_) => {},
        TypeBound::Lifetime(_) | TypeBound::Other(_) => {
            let i = id.0 as int;
            assert(s2.code_graph.type_graph@[i] == s1.code_graph.type_graph@[i]);
        },
    }
}

/// The ids inside a produced generic-parameter node name the right interned
/// entries: each type-parameter bound resolves per `bound_resolved`, a default
/// type resolves through the cache under its canonical key, and a const
/// parameter's type does too.
pub open spec fn gp_resolved(
    n: GenericParamNode,
    p: GenericParamInput,
    post: VisitorState,
) -> bool {
    match p {
        GenericParamInput::Type { name: _, bounds, default } => match n.kind {
            GenericParamKind::Type { bounds: rbounds, default: rdefault, .. } => {
                &&& rbounds@.len() == bounds@.len()
                &&& forall|i: int|
                    0 <= i < rbounds@.len() ==> bound_resolved(
                        bounds@[i],
                        #[trigger] rbounds@[i],
                        post,
                    )
                &&& match default {
                    Some(d) => rdefault matches Some(rd) && spec_cache_lookup(
                        post.type_map@,
                        key_of(d),
                    ) == Some(rd),
                    None => rdefault is None,
                }
            },
            _ => false,
        },
        GenericParamInput::Lifetime { .. } => true,
        GenericParamInput::Const { name: _, ty } => match n.kind {
            GenericParamKind::Const { type_id, .. } => spec_cache_lookup(
                post.type_map@,
                key_of(ty),
            ) == Some(type_id),
            _ => false,
        },
    }
}

/// A resolved generic parameter stays resolved while the cache keeps its
/// answers and the type table only grows.
pub proof fn lemma_gp_resolved_preserved(
    n: GenericParamNode,
    p: GenericParamInput,
    s1: VisitorState,
    s2: VisitorState,
)
    requires
        gp_resolved(n, p, s1),
        cache_preserves(s1.type_map@, s2.type_map@),
        s1.code_graph.type_graph@.is_prefix_of(s2.code_graph.type_graph@),
    ensures
        gp_resolved(n, p, s2),
{
    match p {
        GenericParamInput::Type { bounds, .. } => match n.kind {
            GenericParamKind::Type { bounds: rbounds, .. } => {
                assert forall|i: int| 0 <= i < rbounds@.len() implies bound_resolved(
                    bounds@[i],
                    #[trigger] rbounds@[i],
                    s2,
                ) by {
                    lemma_bound_resolved_preserved(bounds@[i], rbounds@[i], s1, s2);
                }
            },
            _ => {},
        },
        _ => {},
    }
}

impl VisitorState {
    /// Resolves every bound of a list through the bound processor, in order.
    #[verifier::loop_isolation(false)]
    pub fn process_bounds(&mut self, bounds: Vec<TypeBound>) -> (r: Vec<TypeId>)
        requires
            old(self).wf(),
            old(self).next_type_id + size_bounds(bounds@) <= usize::MAX,
        ensures
            final(self).wf(),
            intern_frame(*old(self), *final(self)),
            final(self).next_type_id <= old(self).next_type_id + size_bounds(bounds@),
            r@.len() == bounds@.len(),
            forall|i: int|
                0 <= i < r@.len() ==> (#[trigger] r@[i]).0 < final(self).next_type_id,
            forall|i: int|
                0 <= i < r@.len() ==> bound_resolved(bounds@[i], #[trigger] r@[i], *final(self)),
    {
        let mut bounds = bounds;
        let ghost b0 = bounds@;
        let mut out: Vec<TypeId> = Vec::new();
        while bounds.len() > 0
            invariant
                self.wf(),
                intern_frame(*old(self), *self),
                self.next_type_id + size_bounds(bounds@) <= old(self).next_type_id + size_bounds(
                    b0,
                ),
                out@.len() + bounds@.len() == b0.len(),
                bounds@ =~= b0.skip(out@.len() as int),
                forall|i: int|
                    0 <= i < out@.len() ==> (#[trigger] out@[i]).0 < self.next_type_id,
                forall|i: int|
                    0 <= i < out@.len() ==> bound_resolved(b0[i], #[trigger] out@[i], *self),
            decreases bounds@.len(),
        {
            let ghost pre_b = bounds@;
            proof {
                assert(pre_b.remove(0) =~= pre_b.drop_first());
            }
            let ghost pre_loop = *self;
            let b = bounds.remove(0);
            proof {
                assert(size_bounds(pre_b) == size_bound(b) + size_bounds(bounds@));
            }
            let ghost done = out@.len() as int;
            let id = self.process_type_bound(b);
            proof {
                crate::parser::visitor::type_processing::lemma_intern_frame_trans(
                    *old(self),
                    pre_loop,
                    *self,
                );
                assert(b == b0[done]);
                assert forall|i: int| 0 <= i < done implies bound_resolved(
                    b0[i],
                    #[trigger] out@[i],
                    *self,
                ) by {
                    lemma_bound_resolved_preserved(b0[i], out@[i], pre_loop, *self);
                }
                assert(bounds@ =~= b0.skip(done + 1)) by {
                    assert(pre_b =~= b0.skip(done));
                    assert(pre_b.drop_first() =~= b0.skip(done + 1));
                }
            }
            out.push(id);
        }
        out
    }

    /// Normalizes one generic parameter: a type parameter routes each bound
    /// through the interner and resolves its optional default type, a
    /// lifetime parameter keeps its bound names as raw text, and a const
    /// parameter resolves its value type.
    pub fn process_generic_param(&mut self, p: GenericParamInput) -> (r: GenericParamNode)
        requires
            old(self).wf(),
            old(self).next_node_id < usize::MAX,
            old(self).next_type_id + size_generic(p) <= usize::MAX,
        ensures
            final(self).wf(),
            gen_frame(*old(self), *final(self)),
            final(self).next_node_id == old(self).next_node_id + 1,
            final(self).next_type_id <= old(self).next_type_id + size_generic(p),
            r.id == (NodeId { type_prefix: NodeType::Node, unique_id: old(self).next_node_id }),
            gp_matches(r, p),
            gp_resolved(r, p, *final(self)),
            gparams_resolve(seq![r], final(self).next_type_id as nat),
    {
        match p {
            GenericParamInput::Type { name, bounds, default } => {
                let ghost gb = bounds@;
                let rbounds = self.process_bounds(bounds);
                let ghost s_b = *self;
                let rdefault = match default {
                    Some(d) => Some(self.get_or_create_type(d)),
                    None => None,
                };
                proof {
                    assert forall|i: int| 0 <= i < rbounds@.len() implies bound_resolved(
                        gb[i],
                        #[trigger] rbounds@[i],
                        *self,
                    ) by {
                        lemma_bound_resolved_preserved(gb[i], rbounds@[i], s_b, *self);
                    }
                }
                let ghost s_d = *self;
                let id = self.alloc_id(NodeType::Node);
                proof {
                    assert forall|i: int| 0 <= i < rbounds@.len() implies bound_resolved(
                        gb[i],
                        #[trigger] rbounds@[i],
                        *self,
                    ) by {
                        lemma_bound_resolved_preserved(gb[i], rbounds@[i], s_d, *self);
                    }
                }
                GenericParamNode {
                    id,
                    kind: GenericParamKind::Type { name, bounds: rbounds, default: rdefault },
                }
            },
            GenericParamInput::Lifetime { name, bounds } => {
                let id = self.alloc_id(NodeType::Node);
                GenericParamNode { id, kind: GenericParamKind::Lifetime { name, bounds } }
            },
            GenericParamInput::Const { name, ty } => {
                let type_id = self.get_or_create_type(ty);
                let id = self.alloc_id(NodeType::Node);
                GenericParamNode { id, kind: GenericParamKind::Const { name, type_id } }
            },
        }
    }

    /// Normalizes a declaration's generic parameter list, in order.
    #[verifier::loop_isolation(false)]
    pub fn process_generics(&mut self, params: Vec<GenericParamInput>) -> (r: Vec<GenericParamNode>)
        requires
            old(self).wf(),
            old(self).next_node_id + size_generics(params@) <= usize::MAX,
            old(self).next_type_id + size_generics(params@) <= usize::MAX,
        ensures
            final(self).wf(),
            gen_frame(*old(self), *final(self)),
            final(self).next_node_id == old(self).next_node_id + params@.len(),
            final(self).next_node_id <= old(self).next_node_id + size_generics(params@),
            final(self).next_type_id <= old(self).next_type_id + size_generics(params@),
            r@.len() == params@.len(),
            forall|i: int| 0 <= i < r@.len() ==> gp_matches(#[trigger] r@[i], params@[i]),
            forall|i: int|
                0 <= i < r@.len() ==> gp_resolved(#[trigger] r@[i], params@[i], *final(self)),
            gparams_resolve(r@, final(self).next_type_id as nat),
    {
        let mut params = params;
        let ghost p0 = params@;
        let mut out: Vec<GenericParamNode> = Vec::new();
        while params.len() > 0
            invariant
                self.wf(),
                gen_frame(*old(self), *self),
                self.next_type_id + size_generics(params@) <= old(self).next_type_id
                    + size_generics(p0),
                self.next_node_id + size_generics(params@) <= old(self).next_node_id
                    + size_generics(p0),
                out@.len() + params@.len() == p0.len(),
                self.next_node_id == old(self).next_node_id + out@.len(),
                params@ =~= p0.skip(out@.len() as int),
                forall|i: int| 0 <= i < out@.len() ==> gp_matches(#[trigger] out@[i], p0[i]),
                forall|i: int|
                    0 <= i < out@.len() ==> gp_resolved(#[trigger] out@[i], p0[i], *self),
                gparams_resolve(out@, self.next_type_id as nat),
            decreases params@.len(),
        {
            let ghost pre_p = params@;
            let ghost done = out@.len() as int;
            proof {
                assert(pre_p.remove(0) =~= pre_p.drop_first());
                assert(p0.skip(done).drop_first() =~= p0.skip(done + 1));
            }
            let ghost pre_loop = *self;
            let p = params.remove(0);
            proof {
                assert(size_generics(pre_p) == size_generic(p) + size_generics(params@));
                assert(size_generic(p) >= 1);
            }
            let node = self.process_generic_param(p);
            proof {
                lemma_gen_frame_trans(*old(self), pre_loop, *self);
                assert(p == p0[done]);
                assert forall|i: int| 0 <= i < done implies gp_resolved(
                    #[trigger] out@[i],
                    p0[i],
                    *self,
                ) by {
                    lemma_gp_resolved_preserved(out@[i], p0[i], pre_loop, *self);
                }
                crate::parser::relations::lemma_gparams_resolve_monotone(
                    out@,
                    pre_loop.next_type_id as nat,
                    self.next_type_id as nat,
                );
            }
            proof {
                crate::parser::relations::lemma_gparams_resolve_push(
                    out@,
                    node,
                    self.next_type_id as nat,
                );
            }
            out.push(node);
        }
        out
    }
}

/// The generics frame composes across consecutive calls.
pub proof fn lemma_gen_frame_trans(a: VisitorState, b: VisitorState, c: VisitorState)
    requires
        gen_frame(a, b),
        gen_frame(b, c),
    ensures
        gen_frame(a, c),
{
    assert(a.code_graph.type_graph@.is_prefix_of(c.code_graph.type_graph@)) by {
        assert(a.code_graph.type_graph@ =~= c.code_graph.type_graph@.subrange(
            0,
            a.code_graph.type_graph@.len() as int,
        ));
    }
    assert forall|k: Seq<char>| #[trigger]
        crate::parser::visitor::state::spec_cache_lookup(a.type_map@, k) is Some implies crate::parser::visitor::state::spec_cache_lookup(
        c.type_map@,
        k,
    ) == crate::parser::visitor::state::spec_cache_lookup(a.type_map@, k) by {
        assert(crate::parser::visitor::state::spec_cache_lookup(b.type_map@, k)
            == crate::parser::visitor::state::spec_cache_lookup(a.type_map@, k));
    }
}

} // verus!
