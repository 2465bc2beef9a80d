//! Typed relations between graph nodes, and their validator.
//!
//! Validation is advisory: it runs as a post-build consistency pass and
//! reports findings as data rather than failing the build, since forward
//! references are legal during a single top-down pass.

use vstd::prelude::*;
use crate::parser::graph::CodeGraph;
use crate::parser::graph_ids::NodeType;
use crate::parser::nodes::NodeId;
use crate::parser::types::{GenericParamKind, GenericParamNode};

verus! {

/// A typed, directed edge between two graph entities.
#[derive(Debug, Clone, Copy, PartialEq, Eq, Hash, Structural)]
pub struct Relation {
    pub source: NodeId,
    pub target: NodeId,
    pub kind: RelationKind,
}

/// The kinds of relations the builders emit or reserve.
#[derive(Debug, Clone, Copy, PartialEq, Eq, Hash, Structural)]
pub enum RelationKind {
    FunctionParameter,
    FunctionReturn,
    StructField,
    EnumVariant,
    ImplementsFor,
    ImplementsTrait,
    Inherits,
    References,
    Contains,
    TypeDefinition,
    Uses,
    ValueType,
    MacroUse,
    MacroExpansion,
    MacroDefinition,
    MacroInvocation,
    GenericParameter,
    HasType,
}

/// A finding of the relation validator. Each carries the offending kind and,
/// where relevant, the offending ids.
#[derive(Debug, Clone, Copy, PartialEq, Eq, Structural)]
pub enum RelationError {
    InvalidSourceType { kind: RelationKind, source: NodeId },
    InvalidTargetType { kind: RelationKind, target: NodeId },
    MissingRequiredId { kind: RelationKind, id: NodeId },
    CircularDependency { kind: RelationKind, source: NodeId },
    GenericConstraintViolation { kind: RelationKind, id: NodeId },
    InvalidImplementationPairing { kind: RelationKind, source: NodeId, target: NodeId },
}

/// The namespace tag a relation kind expects of its source.
pub open spec fn source_tag_ok(kind: RelationKind, t: NodeType) -> bool {
    match kind {
        RelationKind::FunctionParameter => t == NodeType::Function,
        RelationKind::FunctionReturn => t == NodeType::Function,
        RelationKind::StructField => t == NodeType::Node,
        RelationKind::EnumVariant => t == NodeType::Node,
        RelationKind::ImplementsFor => t == NodeType::Impl,
        RelationKind::ImplementsTrait => t == NodeType::Impl,
        RelationKind::Inherits => t == NodeType::Trait,
        RelationKind::References => true,
        RelationKind::Contains => t == NodeType::Module,
        RelationKind::TypeDefinition => t == NodeType::Trait,
        RelationKind::Uses => t == NodeType::Node,
        RelationKind::ValueType => t == NodeType::Node,
        RelationKind::MacroUse => t == NodeType::Node,
        RelationKind::MacroExpansion => t == NodeType::Node,
        RelationKind::MacroDefinition => t == NodeType::Module,
        RelationKind::MacroInvocation => t == NodeType::Node,
        RelationKind::GenericParameter => true,
        RelationKind::HasType => t == NodeType::Node,
    }
}

/// The namespace tag a relation kind expects of its target.
pub open spec fn target_tag_ok(kind: RelationKind, t: NodeType) -> bool {
    match kind {
        RelationKind::FunctionParameter => t == NodeType::Node,
        RelationKind::FunctionReturn => t == NodeType::Type,
        RelationKind::StructField => t == NodeType::Node,
        RelationKind::EnumVariant => t == NodeType::Node,
        RelationKind::ImplementsFor => t == NodeType::Type,
        RelationKind::ImplementsTrait => t == NodeType::Trait,
        RelationKind::Inherits => t == NodeType::Type,
        RelationKind::References => t == NodeType::Type,
        RelationKind::Contains => t != NodeType::Type,
        RelationKind::TypeDefinition => t == NodeType::Type,
        RelationKind::Uses => t == NodeType::Type,
        RelationKind::ValueType => t == NodeType::Type,
        RelationKind::MacroUse => t == NodeType::Node,
        RelationKind::MacroExpansion => t == NodeType::Node,
        RelationKind::MacroDefinition => t == NodeType::Node,
        RelationKind::MacroInvocation => t == NodeType::Node,
        RelationKind::GenericParameter => t == NodeType::Node,
        RelationKind::HasType => t == NodeType::Type,
    }
}

/// Whether a relation kind expresses containment or inheritance, for which an
/// immediate self-loop is rejected.
pub open spec fn loop_checked(kind: RelationKind) -> bool {
    kind == RelationKind::Contains || kind == RelationKind::Inherits
}

/// Whether a relation kind pairs an implementation with what it implements.
pub open spec fn pairing_kind(kind: RelationKind) -> bool {
    kind == RelationKind::ImplementsFor || kind == RelationKind::ImplementsTrait
}

/// A relation satisfies its kind's source and target tag constraints, and is
/// no immediate self-loop where its kind forbids one.
pub open spec fn rel_valid(r: Relation) -> bool {
    &&& source_tag_ok(r.kind, r.source.type_prefix)
    &&& target_tag_ok(r.kind, r.target.type_prefix)
    &&& loop_checked(r.kind) ==> r.source != r.target
}

fn check_source_tag(kind: RelationKind, t: NodeType) -> (b: bool)
    ensures
        b == source_tag_ok(kind, t),
{
    match kind {
        RelationKind::FunctionParameter => t == NodeType::Function,
        RelationKind::FunctionReturn => t == NodeType::Function,
        RelationKind::StructField => t == NodeType::Node,
        RelationKind::EnumVariant => t == NodeType::Node,
        RelationKind::ImplementsFor => t == NodeType::Impl,
        RelationKind::ImplementsTrait => t == NodeType::Impl,
        RelationKind::Inherits => t == NodeType::Trait,
        RelationKind::References => true,
        RelationKind::Contains => t == NodeType::Module,
        RelationKind::TypeDefinition => t == NodeType::Trait,
        RelationKind::Uses => t == NodeType::Node,
        RelationKind::ValueType => t == NodeType::Node,
        RelationKind::MacroUse => t == NodeType::Node,
        RelationKind::MacroExpansion => t == NodeType::Node,
        RelationKind::MacroDefinition => t == NodeType::Module,
        RelationKind::MacroInvocation => t == NodeType::Node,
        RelationKind::GenericParameter => true,
        RelationKind::HasType => t == NodeType::Node,
    }
}

fn check_target_tag(kind: RelationKind, t: NodeType) -> (b: bool)
    ensures
        b == target_tag_ok(kind, t),
{
    match kind {
        RelationKind::FunctionParameter => t == NodeType::Node,
        RelationKind::FunctionReturn => t == NodeType::Type,
        RelationKind::StructField => t == NodeType::Node,
        RelationKind::EnumVariant => t == NodeType::Node,
        RelationKind::ImplementsFor => t == NodeType::Type,
        RelationKind::ImplementsTrait => t == NodeType::Trait,
        RelationKind::Inherits => t == NodeType::Type,
        RelationKind::References => t == NodeType::Type,
        RelationKind::Contains => t != NodeType::Type,
        RelationKind::TypeDefinition => t == NodeType::Type,
        RelationKind::Uses => t == NodeType::Type,
        RelationKind::ValueType => t == NodeType::Type,
        RelationKind::MacroUse => t == NodeType::Node,
        RelationKind::MacroExpansion => t == NodeType::Node,
        RelationKind::MacroDefinition => t == NodeType::Node,
        RelationKind::MacroInvocation => t == NodeType::Node,
        RelationKind::GenericParameter => t == NodeType::Node,
        RelationKind::HasType => t == NodeType::Type,
    }
}

/// Checks one relation for tag compatibility and immediate self-loops.
pub fn validate(r: &Relation) -> (res: Result<(), RelationError>)
    ensures
        res is Ok <==> rel_valid(*r),
        !source_tag_ok(r.kind, r.source.type_prefix) && pairing_kind(r.kind) ==> res == Err::<
            (),
            RelationError,
        >(RelationError::InvalidImplementationPairing { kind: r.kind, source: r.source, target: r.target }),
        !source_tag_ok(r.kind, r.source.type_prefix) && !pairing_kind(r.kind) ==> res == Err::<
            (),
            RelationError,
        >(RelationError::InvalidSourceType { kind: r.kind, source: r.source }),
        source_tag_ok(r.kind, r.source.type_prefix) && !target_tag_ok(r.kind, r.target.type_prefix)
            && pairing_kind(r.kind) ==> res == Err::<(), RelationError>(
            RelationError::InvalidImplementationPairing { kind: r.kind, source: r.source, target: r.target },
        ),
        source_tag_ok(r.kind, r.source.type_prefix) && !target_tag_ok(r.kind, r.target.type_prefix)
            && !pairing_kind(r.kind) ==> res == Err::<(), RelationError>(
            RelationError::InvalidTargetType { kind: r.kind, target: r.target },
        ),
        source_tag_ok(r.kind, r.source.type_prefix) && target_tag_ok(r.kind, r.target.type_prefix)
            && loop_checked(r.kind) && r.source == r.target ==> res == Err::<(), RelationError>(
            RelationError::CircularDependency { kind: r.kind, source: r.source },
        ),
{
    let pairing = matches!(r.kind, RelationKind::ImplementsFor | RelationKind::ImplementsTrait);
    if !check_source_tag(r.kind, r.source.type_prefix) {
        if pairing {
            Err(RelationError::InvalidImplementationPairing { kind: r.kind, source: r.source, target: r.target })
        } else {
            Err(RelationError::InvalidSourceType { kind: r.kind, source: r.source })
        }
    } else if !check_target_tag(r.kind, r.target.type_prefix) {
        if pairing {
            Err(RelationError::InvalidImplementationPairing { kind: r.kind, source: r.source, target: r.target })
        } else {
            Err(RelationError::InvalidTargetType { kind: r.kind, target: r.target })
        }
    } else if matches!(r.kind, RelationKind::Contains | RelationKind::Inherits) && r.source
        == r.target {
        Err(RelationError::CircularDependency { kind: r.kind, source: r.source })
    } else {
        Ok(())
    }
}

/// Containment always points from an earlier-allocated node to a
/// later-allocated one.
pub open spec fn contains_increasing(g: CodeGraph) -> bool {
    forall|i: int|
        0 <= i < g.relations@.len() && (#[trigger] g.relations@[i]).kind == RelationKind::Contains
            ==> g.relations@[i].source.unique_id < g.relations@[i].target.unique_id
}

/// Every relation of the graph satisfies its kind's tag constraints.
pub open spec fn graph_relations_valid(g: CodeGraph) -> bool {
    forall|i: int| 0 <= i < g.relations@.len() ==> rel_valid(#[trigger] g.relations@[i])
}

/// The bound and default type ids of a generic parameter list all resolve
/// within a type table of length `n`.
pub open spec fn gparams_resolve(ps: Seq<GenericParamNode>, n: nat) -> bool {
    forall|i: int|
        0 <= i < ps.len() ==> match (#[trigger] ps[i]).kind {
            GenericParamKind::Type { bounds, default, .. } => {
                &&& forall|j: int| 0 <= j < bounds@.len() ==> (#[trigger] bounds@[j]).0 < n
                &&& match default {
                    Some(d) => d.0 < n,
                    None => true,
                }
            },
            GenericParamKind::Lifetime { .. } => true,
            GenericParamKind::Const { type_id, .. } => type_id.0 < n,
        }
}

/// A resolving generic parameter list still resolves in a longer table.
pub proof fn lemma_gparams_resolve_monotone(ps: Seq<GenericParamNode>, n1: nat, n2: nat)
    requires
        gparams_resolve(ps, n1),
        n1 <= n2,
    ensures
        gparams_resolve(ps, n2),
{
    assert forall|i: int| 0 <= i < ps.len() implies match (#[trigger] ps[i]).kind {
        GenericParamKind::Type { bounds, default, .. } => {
            &&& forall|j: int| 0 <= j < bounds@.len() ==> (#[trigger] bounds@[j]).0 < n2
            &&& match default {
                Some(d) => d.0 < n2,
                None => true,
            }
        },
        GenericParamKind::Lifetime { .. } => true,
        GenericParamKind::Const { type_id, .. } => type_id.0 < n2,
    } by {
        assert(match ps[i].kind {
            GenericParamKind::Type { bounds, default, .. } => {
                &&& forall|j: int| 0 <= j < bounds@.len() ==> (#[trigger] bounds@[j]).0 < n1
                &&& match default {
                    Some(d) => d.0 < n1,
                    None => true,
                }
            },
            GenericParamKind::Lifetime { .. } => true,
            GenericParamKind::Const { type_id, .. } => type_id.0 < n1,
        });
    }
}

/// A parameter list extended by one resolving parameter still resolves.
pub proof fn lemma_gparams_resolve_push(ps: Seq<GenericParamNode>, x: GenericParamNode, n: nat)
    requires
        gparams_resolve(ps, n),
        gparams_resolve(seq![x], n),
    ensures
        gparams_resolve(ps.push(x), n),
{
    let p = ps.push(x);
    assert forall|i: int| 0 <= i < p.len() implies match (#[trigger] p[i]).kind {
        GenericParamKind::Type { bounds, default, .. } => {
            &&& forall|j: int| 0 <= j < bounds@.len() ==> (#[trigger] bounds@[j]).0 < n
            &&& match default {
                Some(d) => d.0 < n,
                None => true,
            }
        },
        GenericParamKind::Lifetime { .. } => true,
        GenericParamKind::Const { type_id, .. } => type_id.0 < n,
    } by {
        if i < ps.len() {
            assert(p[i] == ps[i]);
        } else {
            assert(p[i] == x);
            assert(seq![x][0] == x);
        }
    }
}

/// The self-type and trait ids of every implementation block, and the type
/// ids of its generic parameters, resolve within the type table.
pub open spec fn graph_impls_resolve(g: CodeGraph) -> bool {
    forall|i: int|
        0 <= i < g.impls@.len() ==> {
            &&& (#[trigger] g.impls@[i]).self_type.0 < g.type_graph@.len()
            &&& match g.impls@[i].trait_type {
                Some(t) => t.0 < g.type_graph@.len(),
                None => true,
            }
            &&& gparams_resolve(g.impls@[i].generic_params@, g.type_graph@.len())
        }
}

fn check_gparams(ps: &Vec<GenericParamNode>, n: usize) -> (ok: bool)
    ensures
        ok == gparams_resolve(ps@, n as nat),
{
    let mut i: usize = 0;
    let mut ok: bool = true;
    while i < ps.len()
        invariant
            i <= ps@.len(),
            ok == gparams_resolve(ps@.take(i as int), n as nat),
        decreases ps@.len() - i,
    {
        let entry_ok: bool = match &ps[i].kind {
            GenericParamKind::Type { bounds, default, .. } => {
                let mut j: usize = 0;
                let mut bok: bool = true;
                while j < bounds.len()
                    invariant
                        j <= bounds@.len(),
                        bok == forall|k: int| 0 <= k < j ==> (#[trigger] bounds@[k]).0 < n,
                    decreases bounds@.len() - j,
                {
                    bok = bok && bounds[j].0 < n;
                    j += 1;
                }
                let dok: bool = match default {
                    Some(d) => d.0 < n,
                    None => true,
                };
                bok && dok
            },
            GenericParamKind::Lifetime { .. } => true,
            GenericParamKind::Const { type_id, .. } => type_id.0 < n,
        };
        proof {
            assert(ps@.take(i + 1 as int).drop_last() =~= ps@.take(i as int));
            assert(ps@.take(i + 1 as int).last() == ps@[i as int]);
        }
        ok = ok && entry_ok;
        i += 1;
    }
    proof {
        assert(ps@.take(ps@.len() as int) =~= ps@);
    }
    ok
}

/// Post-build consistency pass: checks every relation for tag compatibility
/// and self-loops, and every implementation block for ids that resolve within
/// the type table. Findings are reported as data; the empty report means the
/// graph is consistent.
pub fn validate_graph(g: &CodeGraph) -> (errs: Vec<RelationError>)
    ensures
        errs@.len() == 0 <==> graph_relations_valid(*g) && graph_impls_resolve(*g),
{
    let mut errs: Vec<RelationError> = Vec::new();
    let mut i: usize = 0;
    while i < g.relations.len()
        invariant
            i <= g.relations@.len(),
            errs@.len() == 0 <==> forall|k: int|
                0 <= k < i ==> rel_valid(#[trigger] g.relations@[k]),
        decreases g.relations@.len() - i,
    {
        match validate(&g.relations[i]) {
            Ok(_) => {},
            Err(e) => {
                errs.push(e);
            },
        }
        i += 1;
    }
    let n = g.type_graph.len();
    let mut j: usize = 0;
    while j < g.impls.len()
        invariant
            j <= g.impls@.len(),
            n == g.type_graph@.len(),
            errs@.len() == 0 <==> graph_relations_valid(*g) && forall|k: int|
                0 <= k < j ==> {
                    &&& (#[trigger] g.impls@[k]).self_type.0 < g.type_graph@.len()
                    &&& match g.impls@[k].trait_type {
                        Some(t) => t.0 < g.type_graph@.len(),
                        None => true,
                    }
                    &&& gparams_resolve(g.impls@[k].generic_params@, g.type_graph@.len())
                },
        decreases g.impls@.len() - j,
    {
        let imp = &g.impls[j];
        if imp.self_type.0 >= n {
            let id = imp.self_type.as_node_id().unwrap();
            errs.push(RelationError::MissingRequiredId { kind: RelationKind::ImplementsFor, id });
        }
        match &imp.trait_type {
            Some(t) => {
                if t.0 >= n {
                    let id = t.as_node_id().unwrap();
                    errs.push(
                        RelationError::MissingRequiredId { kind: RelationKind::ImplementsTrait, id },
                    );
                }
            },
            None => {},
        }
        if !check_gparams(&imp.generic_params, n) {
            errs.push(
                RelationError::GenericConstraintViolation {
                    kind: RelationKind::GenericParameter,
                    id: imp.id,
                },
            );
        }
        j += 1;
    }
    errs
}

} // verus!

verus! {

/// There is a containment relation from `a` to `b` in the graph.
pub open spec fn contains_edge(g: CodeGraph, a: NodeId, b: NodeId) -> bool {
    exists|j: int|
        0 <= j < g.relations@.len() && (#[trigger] g.relations@[j]) == (Relation {
            source: a,
            target: b,
            kind: RelationKind::Contains,
        })
}

/// Containment acyclicity. In a graph whose containment relations all point
/// from an earlier-allocated node to a later-allocated one, no chain of
/// containment edges leads from a node back to itself: the containment
/// subgraph, and in particular its module-to-module part, is cycle-free.
pub proof fn lemma_containment_acyclic(g: CodeGraph, p: Seq<NodeId>)
    requires
        contains_increasing(g),
        p.len() >= 2,
        forall|k: int| 0 <= k < p.len() - 1 ==> contains_edge(g, #[trigger] p[k], p[k + 1]),
    ensures
        p.first().unique_id < p.last().unique_id,
        p.first() != p.last(),
    decreases p.len(),
{
    if p.len() == 2 {
        assert(contains_edge(g, p[0], p[1]));
        let j = choose|j: int|
            0 <= j < g.relations@.len() && (#[trigger] g.relations@[j]) == (Relation {
                source: p[0],
                target: p[1],
                kind: RelationKind::Contains,
            });
        assert(g.relations@[j].source.unique_id < g.relations@[j].target.unique_id);
    } else {
        let q = p.drop_last();
        assert forall|k: int| 0 <= k < q.len() - 1 implies contains_edge(
            g,
            #[trigger] q[k],
            q[k + 1],
        ) by {
            assert(q[k] == p[k]);
            assert(q[k + 1] == p[k + 1]);
            assert(contains_edge(g, p[k], p[k + 1]));
        }
        lemma_containment_acyclic(g, q);
        assert(contains_edge(g, p[p.len() - 2], p[p.len() - 1]));
        let j = choose|j: int|
            0 <= j < g.relations@.len() && (#[trigger] g.relations@[j]) == (Relation {
                source: p[p.len() - 2],
                target: p[p.len() - 1],
                kind: RelationKind::Contains,
            });
        assert(g.relations@[j].source.unique_id < g.relations@[j].target.unique_id);
        assert(q.first() == p.first());
        assert(q.last() == p[p.len() - 2]);
    }
}

} // verus!
