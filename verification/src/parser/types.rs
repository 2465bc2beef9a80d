//! Type-table entries and shared kind/visibility enums.
//!
//! Every type expression observed during an analysis run is interned into a
//! table of `TypeNode`s; a `TypeId` is an index into that table.

use vstd::prelude::*;
use crate::parser::graph_ids::{GraphIdentifier, GraphNodeId, NodeType};
use crate::parser::nodes::NodeId;
use crate::parser::text::decimal_string;
use crate::parser::text::spec_decimal;

verus! {

/// Unique identifier for a type-table entry: the index of its `TypeNode`.
#[derive(Debug, Clone, Copy, PartialEq, Eq, Hash, Structural)]
pub struct TypeId(pub usize);

impl TypeId {
    /// The identifier, re-tagged into the universal node-id space.
    pub fn as_node_id(&self) -> (r: Option<NodeId>)
        ensures
            r == Some(NodeId { type_prefix: NodeType::Type, unique_id: self.0 }),
    {
        Some(NodeId { type_prefix: NodeType::Type, unique_id: self.0 })
    }

    pub fn as_usize(&self) -> (r: usize)
        ensures
            r == self.0,
    {
        self.0
    }

    /// Rendering used wherever a type id is shown as text.
    pub fn to_string(&self) -> (r: String)
        ensures
            r@ == "type#"@ + spec_decimal(self.0 as nat),
    {
        let prefix = String::from_str("type#");
        prefix.concat(decimal_string(self.0).as_str())
    }
}

impl From<TypeId> for GraphNodeId {
    fn from(id: TypeId) -> (r: GraphNodeId) {
        GraphNodeId { type_prefix: NodeType::Type, unique_id: id.0 }
    }
}

impl vstd::std_specs::convert::FromSpecImpl<TypeId> for GraphNodeId {
    open spec fn obeys_from_spec() -> bool {
        true
    }

    open spec fn from_spec(id: TypeId) -> GraphNodeId {
        GraphNodeId { type_prefix: NodeType::Type, unique_id: id.0 }
    }
}

impl From<usize> for TypeId {
    fn from(v: usize) -> (r: TypeId) {
        TypeId(v)
    }
}

impl vstd::std_specs::convert::FromSpecImpl<usize> for TypeId {
    open spec fn obeys_from_spec() -> bool {
        true
    }

    open spec fn from_spec(v: usize) -> TypeId {
        TypeId(v)
    }
}

impl GraphIdentifier for TypeId {
    open spec fn spec_tag() -> NodeType {
        NodeType::Type
    }

    open spec fn spec_index(&self) -> usize {
        self.0
    }

    fn as_graph_id(&self) -> (r: GraphNodeId) {
        GraphNodeId { type_prefix: NodeType::Type, unique_id: self.0 }
    }

    fn from_graph_id(id: GraphNodeId) -> (r: Option<Self>) {
        if matches!(id.type_prefix, NodeType::Type) {
            Some(TypeId(id.unique_id))
        } else {
            None
        }
    }
}

/// One interned type-table entry.
#[derive(Debug, Clone)]
pub struct TypeNode {
    pub id: TypeId,
    pub kind: TypeKind,
    /// Related type-table entries: generic arguments, referenced or element
    /// types, function parameter and return types, bound lists.
    pub related_types: Vec<TypeId>,
}

/// The structural kind of an interned type expression.
#[derive(Debug, Clone)]
pub enum TypeKind {
    Named {
        /// Full path segments.
        path: Vec<String>,
        is_fully_qualified: bool,
    },
    Reference {
        lifetime: Option<String>,
        is_mutable: bool,
        // The referenced type is related_types[0].
    },
    Slice {
        // The element type is related_types[0].
    },
    Array {
        // The element type is related_types[0].
        size: Option<String>,
    },
    Tuple {
        // The element types are in related_types.
    },
    Function {
        // Parameter types are in related_types, the return type last when present.
        is_unsafe: bool,
        is_extern: bool,
        abi: Option<String>,
    },
    Never,
    Inferred,
    RawPointer {
        is_mutable: bool,
        // The pointee type is related_types[0].
    },
    TraitObject {
        // Trait bounds are in related_types.
        dyn_token: bool,
    },
    ImplTrait {
        // Trait bounds are in related_types.
    },
    Paren {
        // The inner type is related_types[0].
    },
    Macro {
        name: String,
        tokens: String,
    },
    Unknown {
        type_str: String,
    },
}

/// A normalized generic parameter of a declaration.
#[derive(Debug, Clone)]
pub struct GenericParamNode {
    pub id: NodeId,
    pub kind: GenericParamKind,
}

/// The kind-specific payload of a generic parameter.
#[derive(Debug, Clone)]
pub enum GenericParamKind {
    Type {
        name: String,
        bounds: Vec<TypeId>,
        default: Option<TypeId>,
    },
    Lifetime {
        name: String,
        bounds: Vec<String>,
    },
    Const {
        name: String,
        type_id: TypeId,
    },
}

/// The declared accessibility of an item.
#[derive(Debug, Clone, PartialEq, Eq)]
pub enum VisibilityKind {
    Public,
    Crate,
    /// Path components of a restricted visibility.
    Restricted(Vec<String>),
    /// Default (private) visibility.
    Inherited,
}

} // verus!
