//! The code graph: the aggregate, append-only result of one analysis run.

use vstd::prelude::*;
use crate::parser::nodes::{FunctionNode, ImplNode, MacroNode, ModuleNode, TraitNode, TypeDefNode, ValueNode};
use crate::parser::relations::Relation;
use crate::parser::types::TypeNode;

verus! {

/// The aggregate output of one analysis run. All collections are append-only
/// during the run and read-only to consumers afterwards.
#[derive(Debug)]
pub struct CodeGraph {
    /// Functions defined in the code.
    pub functions: Vec<FunctionNode>,
    /// Type definitions: structs, enums, type aliases, and unions.
    pub defined_types: Vec<TypeDefNode>,
    /// All observed types, including nested and generic types.
    pub type_graph: Vec<TypeNode>,
    /// Implementation blocks. An implementation of a trait that is not
    /// publicly visible is excluded at build time.
    pub impls: Vec<ImplNode>,
    /// Public traits defined in the code.
    pub traits: Vec<TraitNode>,
    /// Non-public traits defined in the code.
    pub private_traits: Vec<TraitNode>,
    /// Relations between nodes.
    pub relations: Vec<Relation>,
    /// Modules defined in the code.
    pub modules: Vec<ModuleNode>,
    /// Constants and static variables.
    pub values: Vec<ValueNode>,
    /// Macros defined in the code.
    pub macros: Vec<MacroNode>,
}

/// Every collection of `b` extends the same collection of `a`: entries are
/// only ever appended during a run.
pub open spec fn graph_extends(a: CodeGraph, b: CodeGraph) -> bool {
    &&& a.functions@.is_prefix_of(b.functions@)
    &&& a.defined_types@.is_prefix_of(b.defined_types@)
    &&& a.type_graph@.is_prefix_of(b.type_graph@)
    &&& a.impls@.is_prefix_of(b.impls@)
    &&& a.traits@.is_prefix_of(b.traits@)
    &&& a.private_traits@.is_prefix_of(b.private_traits@)
    &&& a.relations@.is_prefix_of(b.relations@)
    &&& a.modules@.is_prefix_of(b.modules@)
    &&& a.values@.is_prefix_of(b.values@)
    &&& a.macros@.is_prefix_of(b.macros@)
}

pub proof fn lemma_graph_extends_trans(a: CodeGraph, b: CodeGraph, c: CodeGraph)
    requires
        graph_extends(a, b),
        graph_extends(b, c),
    ensures
        graph_extends(a, c),
{
}

} // verus!
