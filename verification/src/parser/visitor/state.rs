//! The single mutable builder state threaded through an analysis run:
//! identifier allocators, the type-interning cache, and the graph under
//! construction.

use vstd::prelude::*;
use crate::parser::graph::CodeGraph;
use crate::parser::graph_ids::NodeType;
use crate::parser::nodes::{
    FunctionNode, MacroNode, ModuleNode, NodeId, TraitNode, TypeDefNode, ValueNode,
};
use crate::parser::relations::{gparams_resolve, rel_valid, Relation, RelationKind};
use crate::parser::types::{TypeId, TypeKind, TypeNode, VisibilityKind};

verus! {

/// First-match lookup in the interning cache, keyed by canonical text.
pub open spec fn spec_cache_lookup(m: Seq<(String, TypeId)>, k: Seq<char>) -> Option<TypeId>
    decreases m.len(),
{
    if m.len() == 0 {
        None
    } else if m[0].0@ == k {
        Some(m[0].1)
    } else {
        spec_cache_lookup(m.drop_first(), k)
    }
}

/// A successful lookup names an entry of the cache.
pub proof fn lemma_lookup_some_index(m: Seq<(String, TypeId)>, k: Seq<char>)
    requires
        spec_cache_lookup(m, k) is Some,
    ensures
        exists|i: int|
            0 <= i < m.len() && (#[trigger] m[i]).0@ == k && m[i].1
                == spec_cache_lookup(m, k)->Some_0,
    decreases m.len(),
{
    if m.len() > 0 {
        if m[0].0@ == k {
        } else {
            lemma_lookup_some_index(m.drop_first(), k);
            let i = choose|i: int|
                0 <= i < m.drop_first().len() && (#[trigger] m.drop_first()[i]).0@ == k
                    && m.drop_first()[i].1 == spec_cache_lookup(m.drop_first(), k)->Some_0;
            assert(m[i + 1].0@ == k && m[i + 1].1 == spec_cache_lookup(m, k)->Some_0);
        }
    }
}

/// A failed lookup means no entry carries the key.
pub proof fn lemma_lookup_none(m: Seq<(String, TypeId)>, k: Seq<char>)
    requires
        spec_cache_lookup(m, k) is None,
    ensures
        forall|i: int| 0 <= i < m.len() ==> (#[trigger] m[i]).0@ != k,
    decreases m.len(),
{
    if m.len() > 0 {
        lemma_lookup_none(m.drop_first(), k);
        assert forall|i: int| 0 <= i < m.len() implies (#[trigger] m[i]).0@ != k by {
            if i > 0 {
                assert(m.drop_first()[i - 1] == m[i]);
            }
        }
    }
}

/// Appending an entry leaves every present key's lookup unchanged, and serves
/// the new key when it was absent.
pub proof fn lemma_lookup_push(m: Seq<(String, TypeId)>, k0: String, v0: TypeId, k: Seq<char>)
    ensures
        spec_cache_lookup(m, k) is Some ==> spec_cache_lookup(m.push((k0, v0)), k)
            == spec_cache_lookup(m, k),
        spec_cache_lookup(m, k) is None && k0@ == k ==> spec_cache_lookup(m.push((k0, v0)), k)
            == Some(v0),
        spec_cache_lookup(m, k) is None && k0@ != k ==> spec_cache_lookup(m.push((k0, v0)), k)
            is None,
    decreases m.len(),
{
    if m.len() == 0 {
        assert(m.push((k0, v0)).drop_first() =~= Seq::<(String, TypeId)>::empty());
    } else {
        assert(m.push((k0, v0))[0] == m[0]);
        assert(m.push((k0, v0)).drop_first() =~= m.drop_first().push((k0, v0)));
        lemma_lookup_push(m.drop_first(), k0, v0, k);
    }
}

/// Every key that resolves in `a` resolves to the same id in `b`.
pub open spec fn cache_preserves(a: Seq<(String, TypeId)>, b: Seq<(String, TypeId)>) -> bool {
    forall|k: Seq<char>|
        #[trigger] spec_cache_lookup(a, k) is Some ==> spec_cache_lookup(b, k)
            == spec_cache_lookup(a, k)
}

/// Kept lookups compose across consecutive cache growths.
pub proof fn lemma_cache_preserves_trans(
    a: Seq<(String, TypeId)>,
    b: Seq<(String, TypeId)>,
    c: Seq<(String, TypeId)>,
)
    requires
        cache_preserves(a, b),
        cache_preserves(b, c),
    ensures
        cache_preserves(a, c),
{
    assert forall|k: Seq<char>| #[trigger] spec_cache_lookup(a, k) is Some implies spec_cache_lookup(
        c,
        k,
    ) == spec_cache_lookup(a, k) by {
        assert(spec_cache_lookup(b, k) == spec_cache_lookup(a, k));
    }
}

/// The implemented trait behind a trait-type reference is publicly recorded:
/// a type-definition relation ties the referenced type entry to a trait node,
/// and a trait with that id stands in the public trait collection.
pub open spec fn trait_linked(g: CodeGraph, t: TypeId) -> bool {
    exists|j: int, k: int|
        0 <= j < g.relations@.len() && 0 <= k < g.traits@.len() && (
        #[trigger] g.relations@[j]).kind == RelationKind::TypeDefinition && g.relations@[j].target
            == (NodeId { type_prefix: NodeType::Type, unique_id: t.0 })
            && g.relations@[j].source.type_prefix == NodeType::Trait && (
        #[trigger] g.traits@[k]).id.0 == g.relations@[j].source.unique_id
}

/// A trait link survives any growth of the relation and trait collections.
pub proof fn lemma_trait_linked_extends(g1: CodeGraph, g2: CodeGraph, t: TypeId)
    requires
        trait_linked(g1, t),
        g1.relations@.is_prefix_of(g2.relations@),
        g1.traits@.is_prefix_of(g2.traits@),
    ensures
        trait_linked(g2, t),
{
    let (j, k) = choose|j: int, k: int|
        0 <= j < g1.relations@.len() && 0 <= k < g1.traits@.len() && (
        #[trigger] g1.relations@[j]).kind == RelationKind::TypeDefinition && g1.relations@[j].target
            == (NodeId { type_prefix: NodeType::Type, unique_id: t.0 })
            && g1.relations@[j].source.type_prefix == NodeType::Trait && (
        #[trigger] g1.traits@[k]).id.0 == g1.relations@[j].source.unique_id;
    assert(g2.relations@[j] == g1.relations@[j]);
    assert(g2.traits@[k] == g1.traits@[k]);
}

/// Every implementation block naming a trait is linked to a publicly
/// recorded trait.
pub open spec fn graph_impls_linked(g: CodeGraph) -> bool {
    forall|i: int|
        0 <= i < g.impls@.len() ==> match (#[trigger] g.impls@[i]).trait_type {
            Some(t) => trait_linked(g, t),
            None => true,
        }
}

/// The implementation-block invariant survives growth of the graph around an
/// unchanged implementation collection.
pub proof fn lemma_impls_wf_preserved(pre: VisitorState, post: VisitorState)
    requires
        pre.impls_wf(),
        post.code_graph.impls == pre.code_graph.impls,
        pre.code_graph.relations@.is_prefix_of(post.code_graph.relations@),
        pre.code_graph.traits@.is_prefix_of(post.code_graph.traits@),
        pre.next_type_id <= post.next_type_id,
    ensures
        post.impls_wf(),
{
    assert forall|i: int| 0 <= i < post.code_graph.impls@.len() implies {
        &&& (#[trigger] post.code_graph.impls@[i]).self_type.0 < post.next_type_id
        &&& match post.code_graph.impls@[i].trait_type {
            Some(t) => t.0 < post.next_type_id && trait_linked(post.code_graph, t),
            None => true,
        }
        &&& gparams_resolve(post.code_graph.impls@[i].generic_params@, post.next_type_id as nat)
    } by {
        assert(post.code_graph.impls@[i] == pre.code_graph.impls@[i]);
        match pre.code_graph.impls@[i].trait_type {
            Some(t) => {
                lemma_trait_linked_extends(pre.code_graph, post.code_graph, t);
            },
            None => {},
        }
        crate::parser::relations::lemma_gparams_resolve_monotone(
            pre.code_graph.impls@[i].generic_params@,
            pre.next_type_id as nat,
            post.next_type_id as nat,
        );
    }
}

/// What every node builder guarantees of the state: collections only grow,
/// counters only move forward, and cache entries once made never change.
pub open spec fn builder_frame(pre: VisitorState, post: VisitorState) -> bool {
    &&& crate::parser::graph::graph_extends(pre.code_graph, post.code_graph)
    &&& pre.next_node_id <= post.next_node_id
    &&& pre.next_type_id <= post.next_type_id
    &&& pre.next_trait_id <= post.next_trait_id
    &&& cache_preserves(pre.type_map@, post.type_map@)
}

/// The builder frame composes across consecutive calls.
pub proof fn lemma_builder_frame_trans(a: VisitorState, b: VisitorState, c: VisitorState)
    requires
        builder_frame(a, b),
        builder_frame(b, c),
    ensures
        builder_frame(a, c),
{
    crate::parser::graph::lemma_graph_extends_trans(a.code_graph, b.code_graph, c.code_graph);
    assert forall|k: Seq<char>| #[trigger]
        spec_cache_lookup(a.type_map@, k) is Some implies spec_cache_lookup(c.type_map@, k)
        == spec_cache_lookup(a.type_map@, k) by {
        assert(spec_cache_lookup(b.type_map@, k) == spec_cache_lookup(a.type_map@, k));
    }
}

/// Every graph extends itself.
pub proof fn lemma_graph_extends_refl(g: CodeGraph)
    ensures
        crate::parser::graph::graph_extends(g, g),
{
    lemma_prefix_refl(g.functions@);
    lemma_prefix_refl(g.defined_types@);
    lemma_prefix_refl(g.type_graph@);
    lemma_prefix_refl(g.impls@);
    lemma_prefix_refl(g.traits@);
    lemma_prefix_refl(g.private_traits@);
    lemma_prefix_refl(g.relations@);
    lemma_prefix_refl(g.modules@);
    lemma_prefix_refl(g.values@);
    lemma_prefix_refl(g.macros@);
}

/// Every sequence is a prefix of itself.
pub proof fn lemma_prefix_refl<A>(s: Seq<A>)
    ensures
        s.is_prefix_of(s),
{
    assert(s =~= s.subrange(0, s.len() as int));
}

/// Every sequence is a prefix of itself extended by one element.
pub proof fn lemma_prefix_push<A>(s: Seq<A>, x: A)
    ensures
        s.is_prefix_of(s.push(x)),
{
    assert(s =~= s.push(x).subrange(0, s.len() as int));
}

/// The builder state: the graph under construction, one monotone counter per
/// identifier namespace, and the type-interning cache.
pub struct VisitorState {
    pub code_graph: CodeGraph,
    pub next_node_id: usize,
    pub next_type_id: usize,
    pub next_trait_id: usize,
    /// Maps canonical type text to the interned id, to avoid duplication.
    pub type_map: Vec<(String, TypeId)>,
}

/// Identifier allocation, as a capability of the builder state.
pub trait StateManagement {
    /// The declaration-node counter.
    spec fn node_counter(&self) -> nat;

    /// The type-table counter.
    spec fn type_counter(&self) -> nat;

    /// What allocation leaves untouched.
    spec fn alloc_frame(&self, other: &Self) -> bool;

    fn next_node_id(&mut self) -> (r: NodeId)
        requires
            old(self).node_counter() < usize::MAX as nat,
        ensures
            final(self).node_counter() == old(self).node_counter() + 1,
            final(self).type_counter() == old(self).type_counter(),
            old(self).alloc_frame(final(self)),
            r.type_prefix == NodeType::Node,
            r.unique_id as nat == old(self).node_counter(),
    ;

    fn next_type_id(&mut self) -> (r: TypeId)
        requires
            old(self).type_counter() < usize::MAX as nat,
        ensures
            final(self).type_counter() == old(self).type_counter() + 1,
            final(self).node_counter() == old(self).node_counter(),
            old(self).alloc_frame(final(self)),
            r.0 as nat == old(self).type_counter(),
    ;
}

impl StateManagement for VisitorState {
    open spec fn node_counter(&self) -> nat {
        self.next_node_id as nat
    }

    open spec fn type_counter(&self) -> nat {
        self.next_type_id as nat
    }

    open spec fn alloc_frame(&self, other: &Self) -> bool {
        &&& self.code_graph == other.code_graph
        &&& self.type_map == other.type_map
        &&& self.next_trait_id == other.next_trait_id
    }

    fn next_node_id(&mut self) -> (r: NodeId) {
        let id = NodeId { type_prefix: NodeType::Node, unique_id: self.next_node_id };
        self.next_node_id += 1;
        id
    }

    fn next_type_id(&mut self) -> (r: TypeId) {
        let id = TypeId(self.next_type_id);
        self.next_type_id += 1;
        id
    }
}

impl VisitorState {
    /// The interning cache is consistent: every cached id is an allocated
    /// type id, keys are pairwise distinct, and so are the ids they map to.
    pub open spec fn cache_wf(&self) -> bool {
        &&& forall|i: int|
            0 <= i < self.type_map@.len() ==> (#[trigger] self.type_map@[i]).1.0
                < self.next_type_id
        &&& forall|i: int, j: int|
            0 <= i < j < self.type_map@.len() ==> (#[trigger] self.type_map@[i].0@)
                != (#[trigger] self.type_map@[j].0@)
        &&& forall|i: int, j: int|
            0 <= i < j < self.type_map@.len() ==> (#[trigger] self.type_map@[i].1)
                != (#[trigger] self.type_map@[j].1)
    }

    /// The type table is positional: entry `i` carries id `i`, the counter
    /// equals the table length, and related ids resolve within the table.
    pub open spec fn types_wf(&self) -> bool {
        &&& self.code_graph.type_graph@.len() == self.next_type_id
        &&& forall|i: int|
            0 <= i < self.code_graph.type_graph@.len() ==> (
            #[trigger] self.code_graph.type_graph@[i]).id.0 == i
        &&& forall|i: int, j: int|
            0 <= i < self.code_graph.type_graph@.len() && 0 <= j
                < self.code_graph.type_graph@[i].related_types@.len() ==> (
            #[trigger] self.code_graph.type_graph@[i].related_types@[j]).0 < self.next_type_id
    }

    /// Every recorded relation is tag-valid, containment always points from
    /// an earlier-allocated node to a later-allocated one, and a relation
    /// aimed at a type entry aims at an already-allocated one.
    pub open spec fn rels_wf(&self) -> bool {
        &&& forall|i: int|
            0 <= i < self.code_graph.relations@.len() ==> rel_valid(
                #[trigger] self.code_graph.relations@[i],
            )
        &&& forall|i: int|
            0 <= i < self.code_graph.relations@.len() && (
            #[trigger] self.code_graph.relations@[i]).kind == RelationKind::Contains
                ==> self.code_graph.relations@[i].source.unique_id
                < self.code_graph.relations@[i].target.unique_id
        &&& forall|i: int|
            0 <= i < self.code_graph.relations@.len() && (
            #[trigger] self.code_graph.relations@[i]).target.type_prefix == NodeType::Type
                ==> self.code_graph.relations@[i].target.unique_id < self.next_type_id
    }

    /// Every implementation block resolves its type ids, and one that names a
    /// trait is linked to a publicly recorded trait.
    pub open spec fn impls_wf(&self) -> bool {
        forall|i: int|
            0 <= i < self.code_graph.impls@.len() ==> {
                &&& (#[trigger] self.code_graph.impls@[i]).self_type.0 < self.next_type_id
                &&& match self.code_graph.impls@[i].trait_type {
                    Some(t) => t.0 < self.next_type_id && trait_linked(self.code_graph, t),
                    None => true,
                }
                &&& gparams_resolve(
                    self.code_graph.impls@[i].generic_params@,
                    self.next_type_id as nat,
                )
            }
    }

    /// The public trait collection holds public traits only.
    pub open spec fn traits_wf(&self) -> bool {
        forall|i: int|
            0 <= i < self.code_graph.traits@.len() ==> (
            #[trigger] self.code_graph.traits@[i]).visibility == VisibilityKind::Public
    }

    /// Macro nodes carry declaration-space ids.
    pub open spec fn macros_wf(&self) -> bool {
        forall|i: int|
            0 <= i < self.code_graph.macros@.len() ==> (
            #[trigger] self.code_graph.macros@[i]).id.type_prefix == NodeType::Node
    }

    /// The full builder invariant.
    /// The cache entry at one position records a decomposition: some type
    /// expression carries the entry's key, and the row the entry's id names
    /// decomposes that expression against the current state.
    pub open spec fn entry_decomposes(&self, i: int) -> bool {
        exists|t0: crate::parser::input::TypeExpr|
            crate::parser::visitor::type_processing::key_of(t0) == self.type_map@[i].0@
                && self.type_map@[i].1.0 < self.code_graph.type_graph@.len()
                && crate::parser::visitor::type_processing::decomposition_matches(
                t0,
                self.code_graph.type_graph@[self.type_map@[i].1.0 as int].kind,
                self.code_graph.type_graph@[self.type_map@[i].1.0 as int].related_types@,
                *self,
            )
    }

    /// Every cache entry records a decomposition.
    pub open spec fn cache_decomposes(&self) -> bool {
        forall|i: int| 0 <= i < self.type_map@.len() ==> #[trigger] self.entry_decomposes(i)
    }

    pub open spec fn wf(&self) -> bool {
        &&& self.cache_wf()
        &&& self.types_wf()
        &&& self.rels_wf()
        &&& self.impls_wf()
        &&& self.traits_wf()
        &&& self.macros_wf()
        &&& self.cache_decomposes()
    }

    /// All three identifier counters are unchanged.
    pub open spec fn same_counters(a: Self, b: Self) -> bool {
        &&& a.next_node_id == b.next_node_id
        &&& a.next_type_id == b.next_type_id
        &&& a.next_trait_id == b.next_trait_id
    }

    /// No counter moved by more than `budget`, and none moved backwards.
    pub open spec fn within_budget(a: Self, b: Self, budget: nat) -> bool {
        &&& a.next_node_id <= b.next_node_id <= a.next_node_id + budget
        &&& a.next_type_id <= b.next_type_id <= a.next_type_id + budget
        &&& a.next_trait_id <= b.next_trait_id <= a.next_trait_id + budget
    }

    /// All three counters have at least `budget` headroom.
    pub open spec fn headroom(&self, budget: nat) -> bool {
        &&& self.next_node_id + budget <= usize::MAX
        &&& self.next_type_id + budget <= usize::MAX
        &&& self.next_trait_id + budget <= usize::MAX
    }

    /// A fresh state: an empty graph, counters at zero, an empty cache.
    pub fn new() -> (r: Self)
        ensures
            r.wf(),
            r.code_graph.functions@.len() == 0,
            r.code_graph.defined_types@.len() == 0,
            r.code_graph.type_graph@.len() == 0,
            r.code_graph.impls@.len() == 0,
            r.code_graph.traits@.len() == 0,
            r.code_graph.private_traits@.len() == 0,
            r.code_graph.relations@.len() == 0,
            r.code_graph.modules@.len() == 0,
            r.code_graph.values@.len() == 0,
            r.code_graph.macros@.len() == 0,
            r.next_node_id == 0,
            r.next_type_id == 0,
            r.next_trait_id == 0,
            r.type_map@.len() == 0,
    {
        VisitorState {
            code_graph: CodeGraph {
                functions: Vec::new(),
                defined_types: Vec::new(),
                type_graph: Vec::new(),
                impls: Vec::new(),
                traits: Vec::new(),
                private_traits: Vec::new(),
                relations: Vec::new(),
                modules: Vec::new(),
                values: Vec::new(),
                macros: Vec::new(),
            },
            next_node_id: 0,
            next_type_id: 0,
            next_trait_id: 0,
            type_map: Vec::new(),
        }
    }

    /// Allocates a fresh declaration-node id carrying the given tag.
    pub fn alloc_id(&mut self, kind: NodeType) -> (r: NodeId)
        requires
            old(self).next_node_id < usize::MAX,
        ensures
            final(self).next_node_id == old(self).next_node_id + 1,
            final(self).next_type_id == old(self).next_type_id,
            final(self).next_trait_id == old(self).next_trait_id,
            final(self).code_graph == old(self).code_graph,
            final(self).type_map == old(self).type_map,
            r.type_prefix == kind,
            r.unique_id == old(self).next_node_id,
            old(self).wf() ==> final(self).wf(),
    {
        let id = NodeId { type_prefix: kind, unique_id: self.next_node_id };
        self.next_node_id += 1;
        proof {
            if old(self).wf() {
                lemma_prefix_refl(old(self).code_graph.type_graph@);
                crate::parser::visitor::type_processing::lemma_cache_decomposes_preserved(
                    *old(self),
                    *self,
                );
            }
        }
        id
    }

    /// Appends a tag-valid relation.
    pub fn add_relation(&mut self, r: Relation)
        requires
            old(self).wf(),
            rel_valid(r),
            r.kind == RelationKind::Contains ==> r.source.unique_id < r.target.unique_id,
            r.target.type_prefix == NodeType::Type ==> r.target.unique_id < old(self).next_type_id,
        ensures
            final(self).wf(),
            final(self).code_graph.relations@ == old(self).code_graph.relations@.push(r),
            final(self).code_graph.functions == old(self).code_graph.functions,
            final(self).code_graph.defined_types == old(self).code_graph.defined_types,
            final(self).code_graph.type_graph == old(self).code_graph.type_graph,
            final(self).code_graph.impls == old(self).code_graph.impls,
            final(self).code_graph.traits == old(self).code_graph.traits,
            final(self).code_graph.private_traits == old(self).code_graph.private_traits,
            final(self).code_graph.modules == old(self).code_graph.modules,
            final(self).code_graph.values == old(self).code_graph.values,
            final(self).code_graph.macros == old(self).code_graph.macros,
            Self::same_counters(*old(self), *final(self)),
            final(self).type_map == old(self).type_map,
    {
        self.code_graph.relations.push(r);
        proof {
            lemma_prefix_push(old(self).code_graph.relations@, r);
            lemma_prefix_refl(old(self).code_graph.traits@);
            lemma_impls_wf_preserved(*old(self), *self);
            lemma_prefix_refl(old(self).code_graph.type_graph@);
            crate::parser::visitor::type_processing::lemma_cache_decomposes_preserved(
                *old(self),
                *self,
            );
        }
    }

    /// Allocates the next type id and appends its table entry in one step,
    /// keeping the table positional.
    pub fn push_type_node(&mut self, kind: TypeKind, related: Vec<TypeId>) -> (r: TypeId)
        requires
            old(self).wf(),
            old(self).next_type_id < usize::MAX,
            forall|i: int| 0 <= i < related@.len() ==> (#[trigger] related@[i]).0 < old(
                self,
            ).next_type_id,
        ensures
            final(self).wf(),
            r.0 == old(self).next_type_id,
            final(self).next_type_id == old(self).next_type_id + 1,
            final(self).next_node_id == old(self).next_node_id,
            final(self).next_trait_id == old(self).next_trait_id,
            final(self).code_graph.type_graph@ == old(self).code_graph.type_graph@.push(
                TypeNode { id: r, kind: kind, related_types: related },
            ),
            final(self).code_graph.functions == old(self).code_graph.functions,
            final(self).code_graph.defined_types == old(self).code_graph.defined_types,
            final(self).code_graph.impls == old(self).code_graph.impls,
            final(self).code_graph.traits == old(self).code_graph.traits,
            final(self).code_graph.private_traits == old(self).code_graph.private_traits,
            final(self).code_graph.relations == old(self).code_graph.relations,
            final(self).code_graph.modules == old(self).code_graph.modules,
            final(self).code_graph.values == old(self).code_graph.values,
            final(self).code_graph.macros == old(self).code_graph.macros,
            final(self).type_map == old(self).type_map,
    {
        let id = TypeId(self.next_type_id);
        self.next_type_id += 1;
        self.code_graph.type_graph.push(TypeNode { id, kind, related_types: related });
        proof {
            let ghost tg = self.code_graph.type_graph@;
            let ghost n0 = old(self).code_graph.type_graph@.len() as int;
            assert forall|i: int, j: int|
                0 <= i < tg.len() && 0 <= j < tg[i].related_types@.len() implies (
            #[trigger] tg[i].related_types@[j]).0 < self.next_type_id by {
                if i < n0 {
                    assert(tg[i] == old(self).code_graph.type_graph@[i]);
                    assert(tg[i].related_types@[j].0 < old(self).next_type_id);
                } else {
                    assert(tg[i].related_types == related);
                    assert(related@[j].0 < old(self).next_type_id);
                }
            }
            lemma_prefix_refl(old(self).code_graph.relations@);
            lemma_prefix_refl(old(self).code_graph.traits@);
            lemma_impls_wf_preserved(*old(self), *self);
            assert(old(self).code_graph.type_graph@.is_prefix_of(
                self.code_graph.type_graph@,
            )) by {
                assert(old(self).code_graph.type_graph@ =~= self.code_graph.type_graph@.subrange(
                    0,
                    old(self).code_graph.type_graph@.len() as int,
                ));
            }
            crate::parser::visitor::type_processing::lemma_cache_decomposes_preserved(
                *old(self),
                *self,
            );
        }
        id
    }

    /// Records a canonical key for an id that is not yet cached.
    pub fn cache_insert(&mut self, key: String, id: TypeId)
        requires
            old(self).wf(),
            spec_cache_lookup(old(self).type_map@, key@) is None,
            id.0 < old(self).next_type_id,
            forall|i: int| 0 <= i < old(self).type_map@.len() ==> (#[trigger] old(
                self,
            ).type_map@[i]).1 != id,
            id.0 < old(self).code_graph.type_graph@.len(),
            exists|t0: crate::parser::input::TypeExpr|
                crate::parser::visitor::type_processing::key_of(t0) == key@
                    && crate::parser::visitor::type_processing::decomposition_matches(
                    t0,
                    old(self).code_graph.type_graph@[id.0 as int].kind,
                    old(self).code_graph.type_graph@[id.0 as int].related_types@,
                    *old(self),
                ),
        ensures
            final(self).wf(),
            final(self).type_map@ == old(self).type_map@.push((key, id)),
            final(self).code_graph == old(self).code_graph,
            Self::same_counters(*old(self), *final(self)),
            spec_cache_lookup(final(self).type_map@, key@) == Some(id),
            cache_preserves(old(self).type_map@, final(self).type_map@),
    {
        proof {
            lemma_lookup_none(self.type_map@, key@);
        }
        let ghost old_map = self.type_map@;
        self.type_map.push((key, id));
        proof {
            lemma_lookup_push(old_map, key, id, key@);
            assert forall|k: Seq<char>| #[trigger]
                spec_cache_lookup(old_map, k) is Some implies spec_cache_lookup(
                self.type_map@,
                k,
            ) == spec_cache_lookup(old_map, k) by {
                lemma_lookup_push(old_map, key, id, k);
            }
            lemma_prefix_refl(old(self).code_graph.type_graph@);
            assert forall|i: int|
                0 <= i < self.type_map@.len() implies #[trigger] self.entry_decomposes(i) by {
                if i < old_map.len() {
                    assert(old(self).entry_decomposes(i));
                    let t0 = choose|t0: crate::parser::input::TypeExpr|
                        crate::parser::visitor::type_processing::key_of(t0) == (old_map[i]).0@
                            && old_map[i].1.0 < old(self).code_graph.type_graph@.len()
                            && crate::parser::visitor::type_processing::decomposition_matches(
                            t0,
                            old(self).code_graph.type_graph@[old_map[i].1.0 as int].kind,
                            old(self).code_graph.type_graph@[old_map[i].1.0 as int].related_types@,
                            *old(self),
                        );
                    crate::parser::visitor::type_processing::lemma_decomposition_preserved(
                        t0,
                        old(self).code_graph.type_graph@[old_map[i].1.0 as int].kind,
                        old(self).code_graph.type_graph@[old_map[i].1.0 as int].related_types@,
                        *old(self),
                        *self,
                    );
                    assert(crate::parser::visitor::type_processing::key_of(t0)
                        == self.type_map@[i].0@
                        && self.type_map@[i].1.0 < self.code_graph.type_graph@.len()
                        && crate::parser::visitor::type_processing::decomposition_matches(
                        t0,
                        self.code_graph.type_graph@[self.type_map@[i].1.0 as int].kind,
                        self.code_graph.type_graph@[self.type_map@[i].1.0 as int].related_types@,
                        *self,
                    ));
                } else {
                    assert(self.type_map@[i] == (key, id));
                    let t0 = choose|t0: crate::parser::input::TypeExpr|
                        crate::parser::visitor::type_processing::key_of(t0) == key@
                            && crate::parser::visitor::type_processing::decomposition_matches(
                            t0,
                            old(self).code_graph.type_graph@[id.0 as int].kind,
                            old(self).code_graph.type_graph@[id.0 as int].related_types@,
                            *old(self),
                        );
                    crate::parser::visitor::type_processing::lemma_decomposition_preserved(
                        t0,
                        old(self).code_graph.type_graph@[id.0 as int].kind,
                        old(self).code_graph.type_graph@[id.0 as int].related_types@,
                        *old(self),
                        *self,
                    );
                    assert(crate::parser::visitor::type_processing::key_of(t0)
                        == self.type_map@[i].0@
                        && self.type_map@[i].1.0 < self.code_graph.type_graph@.len()
                        && crate::parser::visitor::type_processing::decomposition_matches(
                        t0,
                        self.code_graph.type_graph@[self.type_map@[i].1.0 as int].kind,
                        self.code_graph.type_graph@[self.type_map@[i].1.0 as int].related_types@,
                        *self,
                    ));
                }
            }
        }
    }

    /// Looks a canonical key up in the interning cache.
    pub fn cache_get(&self, key: &String) -> (r: Option<TypeId>)
        ensures
            r == spec_cache_lookup(self.type_map@, key@),
    {
        let mut i: usize = 0;
        proof {
            assert(self.type_map@.skip(0) =~= self.type_map@);
        }
        while i < self.type_map.len()
            invariant
                i <= self.type_map@.len(),
                spec_cache_lookup(self.type_map@, key@) == spec_cache_lookup(
                    self.type_map@.skip(i as int),
                    key@,
                ),
            decreases self.type_map@.len() - i,
        {
            proof {
                assert(self.type_map@.skip(i as int)[0] == self.type_map@[i as int]);
            }
            if self.type_map[i].0 == *key {
                return Some(self.type_map[i].1);
            }
            proof {
                assert(self.type_map@.skip(i as int).drop_first() =~= self.type_map@.skip(
                    i as int + 1,
                ));
            }
            i += 1;
        }
        proof {
            assert(self.type_map@.skip(self.type_map@.len() as int) =~= Seq::<(
                String,
                TypeId,
            )>::empty());
        }
        None
    }

    /// Appends a function node.
    pub fn add_function(&mut self, f: FunctionNode)
        requires
            old(self).wf(),
        ensures
            final(self).wf(),
            final(self).code_graph.functions@ == old(self).code_graph.functions@.push(f),
            final(self).code_graph.defined_types == old(self).code_graph.defined_types,
            final(self).code_graph.type_graph == old(self).code_graph.type_graph,
            final(self).code_graph.impls == old(self).code_graph.impls,
            final(self).code_graph.traits == old(self).code_graph.traits,
            final(self).code_graph.private_traits == old(self).code_graph.private_traits,
            final(self).code_graph.relations == old(self).code_graph.relations,
            final(self).code_graph.modules == old(self).code_graph.modules,
            final(self).code_graph.values == old(self).code_graph.values,
            final(self).code_graph.macros == old(self).code_graph.macros,
            Self::same_counters(*old(self), *final(self)),
            final(self).type_map == old(self).type_map,
    {
        self.code_graph.functions.push(f);
        proof {
            lemma_prefix_refl(old(self).code_graph.type_graph@);
            crate::parser::visitor::type_processing::lemma_cache_decomposes_preserved(
                *old(self),
                *self,
            );
        }
    }

    /// Appends a type definition node.
    pub fn add_defined_type(&mut self, d: TypeDefNode)
        requires
            old(self).wf(),
        ensures
            final(self).wf(),
            final(self).code_graph.defined_types@ == old(self).code_graph.defined_types@.push(d),
            final(self).code_graph.functions == old(self).code_graph.functions,
            final(self).code_graph.type_graph == old(self).code_graph.type_graph,
            final(self).code_graph.impls == old(self).code_graph.impls,
            final(self).code_graph.traits == old(self).code_graph.traits,
            final(self).code_graph.private_traits == old(self).code_graph.private_traits,
            final(self).code_graph.relations == old(self).code_graph.relations,
            final(self).code_graph.modules == old(self).code_graph.modules,
            final(self).code_graph.values == old(self).code_graph.values,
            final(self).code_graph.macros == old(self).code_graph.macros,
            Self::same_counters(*old(self), *final(self)),
            final(self).type_map == old(self).type_map,
    {
        self.code_graph.defined_types.push(d);
        proof {
            lemma_prefix_refl(old(self).code_graph.type_graph@);
            crate::parser::visitor::type_processing::lemma_cache_decomposes_preserved(
                *old(self),
                *self,
            );
        }
    }

    /// Appends a trait node to the public or the private trait collection,
    /// by its recorded visibility.
    pub fn add_trait(&mut self, t: TraitNode)
        requires
            old(self).wf(),
        ensures
            final(self).wf(),
            t.visibility == VisibilityKind::Public ==> final(self).code_graph.traits@ == old(
                self,
            ).code_graph.traits@.push(t) && final(self).code_graph.private_traits == old(
                self,
            ).code_graph.private_traits,
            t.visibility != VisibilityKind::Public ==> final(self).code_graph.private_traits@
                == old(self).code_graph.private_traits@.push(t) && final(self).code_graph.traits
                == old(self).code_graph.traits,
            final(self).code_graph.functions == old(self).code_graph.functions,
            final(self).code_graph.defined_types == old(self).code_graph.defined_types,
            final(self).code_graph.type_graph == old(self).code_graph.type_graph,
            final(self).code_graph.impls == old(self).code_graph.impls,
            final(self).code_graph.relations == old(self).code_graph.relations,
            final(self).code_graph.modules == old(self).code_graph.modules,
            final(self).code_graph.values == old(self).code_graph.values,
            final(self).code_graph.macros == old(self).code_graph.macros,
            Self::same_counters(*old(self), *final(self)),
            final(self).type_map == old(self).type_map,
    {
        if matches!(t.visibility, VisibilityKind::Public) {
            let ghost old_traits = self.code_graph.traits@;
            self.code_graph.traits.push(t);
            proof {
                lemma_prefix_refl(old(self).code_graph.relations@);
                lemma_prefix_push(old_traits, t);
                lemma_impls_wf_preserved(*old(self), *self);
            lemma_prefix_refl(old(self).code_graph.type_graph@);
            crate::parser::visitor::type_processing::lemma_cache_decomposes_preserved(
                *old(self),
                *self,
            );
            }
        } else {
            self.code_graph.private_traits.push(t);
            proof {
            lemma_prefix_refl(old(self).code_graph.type_graph@);
            crate::parser::visitor::type_processing::lemma_cache_decomposes_preserved(
                *old(self),
                *self,
            );
            }
        }
    }

    /// Appends an implementation block whose ids resolve and whose trait
    /// reference, if any, is linked to a publicly recorded trait.
    pub fn add_impl(&mut self, imp: crate::parser::nodes::ImplNode)
        requires
            old(self).wf(),
            imp.self_type.0 < old(self).next_type_id,
            match imp.trait_type {
                Some(t) => t.0 < old(self).next_type_id && trait_linked(old(self).code_graph, t),
                None => true,
            },
            gparams_resolve(imp.generic_params@, old(self).next_type_id as nat),
        ensures
            final(self).wf(),
            final(self).code_graph.impls@ == old(self).code_graph.impls@.push(imp),
            final(self).code_graph.functions == old(self).code_graph.functions,
            final(self).code_graph.defined_types == old(self).code_graph.defined_types,
            final(self).code_graph.type_graph == old(self).code_graph.type_graph,
            final(self).code_graph.traits == old(self).code_graph.traits,
            final(self).code_graph.private_traits == old(self).code_graph.private_traits,
            final(self).code_graph.relations == old(self).code_graph.relations,
            final(self).code_graph.modules == old(self).code_graph.modules,
            final(self).code_graph.values == old(self).code_graph.values,
            final(self).code_graph.macros == old(self).code_graph.macros,
            Self::same_counters(*old(self), *final(self)),
            final(self).type_map == old(self).type_map,
    {
        self.code_graph.impls.push(imp);
        proof {
            lemma_prefix_refl(old(self).code_graph.relations@);
            lemma_prefix_refl(old(self).code_graph.traits@);
            let ghost n0 = old(self).code_graph.impls@.len() as int;
            assert forall|i: int| 0 <= i < self.code_graph.impls@.len() implies {
                &&& (#[trigger] self.code_graph.impls@[i]).self_type.0 < self.next_type_id
                &&& match self.code_graph.impls@[i].trait_type {
                    Some(t) => t.0 < self.next_type_id && trait_linked(self.code_graph, t),
                    None => true,
                }
                &&& gparams_resolve(
                    self.code_graph.impls@[i].generic_params@,
                    self.next_type_id as nat,
                )
            } by {
                if i < n0 {
                    assert(self.code_graph.impls@[i] == old(self).code_graph.impls@[i]);
                    match old(self).code_graph.impls@[i].trait_type {
                        Some(t) => {
                            lemma_trait_linked_extends(
                                old(self).code_graph,
                                self.code_graph,
                                t,
                            );
                        },
                        None => {},
                    }
                } else {
                    assert(self.code_graph.impls@[i] == imp);
                    match imp.trait_type {
                        Some(t) => {
                            lemma_trait_linked_extends(
                                old(self).code_graph,
                                self.code_graph,
                                t,
                            );
                        },
                        None => {},
                    }
                }
            }
            lemma_prefix_refl(old(self).code_graph.type_graph@);
            crate::parser::visitor::type_processing::lemma_cache_decomposes_preserved(
                *old(self),
                *self,
            );
        }
    }

    /// Appends a module node.
    pub fn add_module(&mut self, m: ModuleNode)
        requires
            old(self).wf(),
        ensures
            final(self).wf(),
            final(self).code_graph.modules@ == old(self).code_graph.modules@.push(m),
            final(self).code_graph.functions == old(self).code_graph.functions,
            final(self).code_graph.defined_types == old(self).code_graph.defined_types,
            final(self).code_graph.type_graph == old(self).code_graph.type_graph,
            final(self).code_graph.impls == old(self).code_graph.impls,
            final(self).code_graph.traits == old(self).code_graph.traits,
            final(self).code_graph.private_traits == old(self).code_graph.private_traits,
            final(self).code_graph.relations == old(self).code_graph.relations,
            final(self).code_graph.values == old(self).code_graph.values,
            final(self).code_graph.macros == old(self).code_graph.macros,
            Self::same_counters(*old(self), *final(self)),
            final(self).type_map == old(self).type_map,
    {
        self.code_graph.modules.push(m);
        proof {
            lemma_prefix_refl(old(self).code_graph.type_graph@);
            crate::parser::visitor::type_processing::lemma_cache_decomposes_preserved(
                *old(self),
                *self,
            );
        }
    }

    /// Appends a constant or static value node.
    pub fn add_value(&mut self, v: ValueNode)
        requires
            old(self).wf(),
        ensures
            final(self).wf(),
            final(self).code_graph.values@ == old(self).code_graph.values@.push(v),
            final(self).code_graph.functions == old(self).code_graph.functions,
            final(self).code_graph.defined_types == old(self).code_graph.defined_types,
            final(self).code_graph.type_graph == old(self).code_graph.type_graph,
            final(self).code_graph.impls == old(self).code_graph.impls,
            final(self).code_graph.traits == old(self).code_graph.traits,
            final(self).code_graph.private_traits == old(self).code_graph.private_traits,
            final(self).code_graph.relations == old(self).code_graph.relations,
            final(self).code_graph.modules == old(self).code_graph.modules,
            final(self).code_graph.macros == old(self).code_graph.macros,
            Self::same_counters(*old(self), *final(self)),
            final(self).type_map == old(self).type_map,
    {
        self.code_graph.values.push(v);
        proof {
            lemma_prefix_refl(old(self).code_graph.type_graph@);
            crate::parser::visitor::type_processing::lemma_cache_decomposes_preserved(
                *old(self),
                *self,
            );
        }
    }

    /// Appends a macro node.
    pub fn add_macro(&mut self, m: MacroNode)
        requires
            old(self).wf(),
            m.id.type_prefix == NodeType::Node,
        ensures
            final(self).wf(),
            final(self).code_graph.macros@ == old(self).code_graph.macros@.push(m),
            final(self).code_graph.functions == old(self).code_graph.functions,
            final(self).code_graph.defined_types == old(self).code_graph.defined_types,
            final(self).code_graph.type_graph == old(self).code_graph.type_graph,
            final(self).code_graph.impls == old(self).code_graph.impls,
            final(self).code_graph.traits == old(self).code_graph.traits,
            final(self).code_graph.private_traits == old(self).code_graph.private_traits,
            final(self).code_graph.relations == old(self).code_graph.relations,
            final(self).code_graph.modules == old(self).code_graph.modules,
            final(self).code_graph.values == old(self).code_graph.values,
            Self::same_counters(*old(self), *final(self)),
            final(self).type_map == old(self).type_map,
    {
        self.code_graph.macros.push(m);
        proof {
            lemma_prefix_refl(old(self).code_graph.type_graph@);
            crate::parser::visitor::type_processing::lemma_cache_decomposes_preserved(
                *old(self),
                *self,
            );
        }
    }
}

} // verus!
