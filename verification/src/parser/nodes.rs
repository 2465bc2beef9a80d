//! Declaration nodes of the code graph and their identifiers.

use vstd::prelude::*;
use vstd::string::StringExecFns;
use crate::parser::graph_ids::{GraphNodeId, NodeType};
use crate::parser::text::{decimal_string, spec_decimal};
use crate::parser::types::{GenericParamNode, TypeId, VisibilityKind};

verus! {

/// Unique identifier of a node in the graph: a namespace tag plus a numeric
/// value that is never reused within a run, whatever the tag.
#[derive(Debug, Clone, Copy, PartialEq, Eq, Hash, Structural)]
pub struct NodeId {
    pub type_prefix: NodeType,
    pub unique_id: usize,
}

impl NodeId {
    pub fn new(type_prefix: NodeType, unique_id: usize) -> (r: Self)
        ensures
            r.type_prefix == type_prefix,
            r.unique_id == unique_id,
    {
        Self { type_prefix, unique_id }
    }

    pub fn as_usize(&self) -> (r: usize)
        ensures
            r == self.unique_id,
    {
        self.unique_id
    }

    /// Rendering used wherever a node id is shown as text.
    pub fn to_string(&self) -> (r: String)
        ensures
            r@ == spec_tag_text(self.type_prefix) + "#"@ + spec_decimal(self.unique_id as nat),
    {
        let prefix = tag_text(self.type_prefix);
        let with_sep = prefix.concat("#");
        with_sep.concat(decimal_string(self.unique_id).as_str())
    }
}

impl From<usize> for NodeId {
    fn from(v: usize) -> (r: NodeId) {
        NodeId { type_prefix: NodeType::Node, unique_id: v }
    }
}

impl vstd::std_specs::convert::FromSpecImpl<usize> for NodeId {
    open spec fn obeys_from_spec() -> bool {
        true
    }

    open spec fn from_spec(v: usize) -> NodeId {
        NodeId { type_prefix: NodeType::Node, unique_id: v }
    }
}

impl From<NodeId> for GraphNodeId {
    fn from(id: NodeId) -> (r: GraphNodeId) {
        GraphNodeId { type_prefix: id.type_prefix, unique_id: id.unique_id }
    }
}

impl vstd::std_specs::convert::FromSpecImpl<NodeId> for GraphNodeId {
    open spec fn obeys_from_spec() -> bool {
        true
    }

    open spec fn from_spec(id: NodeId) -> GraphNodeId {
        GraphNodeId { type_prefix: id.type_prefix, unique_id: id.unique_id }
    }
}

/// The text of a namespace tag.
pub open spec fn spec_tag_text(t: NodeType) -> Seq<char> {
    match t {
        NodeType::Node => "node"@,
        NodeType::Trait => "trait"@,
        NodeType::Type => "type"@,
        NodeType::Module => "module"@,
        NodeType::Function => "function"@,
        NodeType::Impl => "impl"@,
    }
}

fn tag_text(t: NodeType) -> (r: String)
    ensures
        r@ == spec_tag_text(t),
{
    match t {
        NodeType::Node => String::from_str("node"),
        NodeType::Trait => String::from_str("trait"),
        NodeType::Type => String::from_str("type"),
        NodeType::Module => String::from_str("module"),
        NodeType::Function => String::from_str("function"),
        NodeType::Impl => String::from_str("impl"),
    }
}

/// Unique identifier for a trait-table entry.
#[derive(Debug, Clone, Copy, PartialEq, Eq, Hash, Structural)]
pub struct TraitId(pub usize);

impl TraitId {
    pub fn as_usize(&self) -> (r: usize)
        ensures
            r == self.0,
    {
        self.0
    }

    /// The identifier, re-tagged into the universal node-id space.
    pub fn as_node_id(&self) -> (r: NodeId)
        ensures
            r == (NodeId { type_prefix: NodeType::Trait, unique_id: self.0 }),
    {
        NodeId { type_prefix: NodeType::Trait, unique_id: self.0 }
    }
}

impl From<usize> for TraitId {
    fn from(v: usize) -> (r: TraitId) {
        TraitId(v)
    }
}

impl From<TraitId> for GraphNodeId {
    fn from(id: TraitId) -> (r: GraphNodeId) {
        GraphNodeId { type_prefix: NodeType::Trait, unique_id: id.0 }
    }
}

impl vstd::std_specs::convert::FromSpecImpl<TraitId> for GraphNodeId {
    open spec fn obeys_from_spec() -> bool {
        true
    }

    open spec fn from_spec(id: TraitId) -> GraphNodeId {
        GraphNodeId { type_prefix: NodeType::Trait, unique_id: id.0 }
    }
}

impl crate::parser::graph_ids::GraphIdentifier for TraitId {
    open spec fn spec_tag() -> NodeType {
        NodeType::Trait
    }

    open spec fn spec_index(&self) -> usize {
        self.0
    }

    fn as_graph_id(&self) -> (r: GraphNodeId) {
        GraphNodeId { type_prefix: NodeType::Trait, unique_id: self.0 }
    }

    fn from_graph_id(id: GraphNodeId) -> (r: Option<Self>) {
        if matches!(id.type_prefix, NodeType::Trait) {
            Some(TraitId(id.unique_id))
        } else {
            None
        }
    }
}

impl vstd::std_specs::convert::FromSpecImpl<usize> for TraitId {
    open spec fn obeys_from_spec() -> bool {
        true
    }

    open spec fn from_spec(v: usize) -> TraitId {
        TraitId(v)
    }
}

/// A non-documentation attribute, normalized to its path text, its argument
/// texts, and its raw text.
#[derive(Debug, Clone)]
pub struct ParsedAttribute {
    pub name: String,
    pub args: Vec<String>,
    pub value: Option<String>,
}

/// A function or method definition.
#[derive(Debug)]
pub struct FunctionNode {
    pub id: NodeId,
    pub name: String,
    pub visibility: VisibilityKind,
    pub parameters: Vec<ParameterNode>,
    pub return_type: Option<TypeId>,
    pub generic_params: Vec<GenericParamNode>,
    pub attributes: Vec<ParsedAttribute>,
    pub docstring: Option<String>,
    pub body: Option<String>,
}

/// A parameter of a function or method.
#[derive(Debug)]
pub struct ParameterNode {
    pub id: NodeId,
    pub name: Option<String>,
    pub type_id: TypeId,
    pub is_mutable: bool,
    pub is_self: bool,
}

/// A type definition: struct, enum, type alias, or union.
#[derive(Debug)]
pub enum TypeDefNode {
    Struct(StructNode),
    Enum(EnumNode),
    TypeAlias(TypeAliasNode),
    Union(UnionNode),
}

/// The id a type definition carries, whatever its variant.
pub open spec fn typedef_id(d: TypeDefNode) -> NodeId {
    match d {
        TypeDefNode::Struct(n) => n.id,
        TypeDefNode::Enum(n) => n.id,
        TypeDefNode::TypeAlias(n) => n.id,
        TypeDefNode::Union(n) => n.id,
    }
}

/// A struct definition.
#[derive(Debug)]
pub struct StructNode {
    pub id: NodeId,
    pub name: String,
    pub visibility: VisibilityKind,
    pub fields: Vec<FieldNode>,
    pub generic_params: Vec<GenericParamNode>,
    pub attributes: Vec<ParsedAttribute>,
    pub docstring: Option<String>,
}

/// An enum definition.
#[derive(Debug)]
pub struct EnumNode {
    pub id: NodeId,
    pub name: String,
    pub visibility: VisibilityKind,
    pub variants: Vec<VariantNode>,
    pub generic_params: Vec<GenericParamNode>,
    pub attributes: Vec<ParsedAttribute>,
    pub docstring: Option<String>,
}

/// A field of a struct, union, or enum variant. A positional field carries
/// no name.
#[derive(Debug)]
pub struct FieldNode {
    pub id: NodeId,
    pub name: Option<String>,
    pub type_id: TypeId,
    pub visibility: VisibilityKind,
    pub attributes: Vec<ParsedAttribute>,
}

/// A variant of an enum.
#[derive(Debug)]
pub struct VariantNode {
    pub id: NodeId,
    pub name: String,
    pub fields: Vec<FieldNode>,
    /// The raw, unevaluated discriminant text, when present.
    pub discriminant: Option<String>,
    pub attributes: Vec<ParsedAttribute>,
}

/// A type alias definition.
#[derive(Debug)]
pub struct TypeAliasNode {
    pub id: NodeId,
    pub name: String,
    pub visibility: VisibilityKind,
    pub type_id: TypeId,
    pub generic_params: Vec<GenericParamNode>,
    pub attributes: Vec<ParsedAttribute>,
    pub docstring: Option<String>,
}

/// A union definition.
#[derive(Debug)]
pub struct UnionNode {
    pub id: NodeId,
    pub name: String,
    pub visibility: VisibilityKind,
    pub fields: Vec<FieldNode>,
    pub generic_params: Vec<GenericParamNode>,
    pub attributes: Vec<ParsedAttribute>,
    pub docstring: Option<String>,
}

/// An implementation block. It carries no visibility of its own: visibility is
/// derived from the implemented trait and the self type.
#[derive(Debug)]
pub struct ImplNode {
    pub id: NodeId,
    pub self_type: TypeId,
    pub trait_type: Option<TypeId>,
    pub methods: Vec<FunctionNode>,
    pub generic_params: Vec<GenericParamNode>,
}

/// A trait definition. Methods are recorded Public regardless of the trait's
/// own visibility: they are visible wherever the trait itself is.
#[derive(Debug)]
pub struct TraitNode {
    pub id: TraitId,
    pub name: String,
    pub visibility: VisibilityKind,
    pub methods: Vec<FunctionNode>,
    pub generic_params: Vec<GenericParamNode>,
    pub super_traits: Vec<TypeId>,
    pub attributes: Vec<ParsedAttribute>,
    pub docstring: Option<String>,
}

/// A module: the recursion point of the traversal.
#[derive(Debug)]
pub struct ModuleNode {
    pub id: NodeId,
    pub name: String,
    pub visibility: VisibilityKind,
    pub attributes: Vec<ParsedAttribute>,
    pub docstring: Option<String>,
    pub submodules: Vec<NodeId>,
    pub items: Vec<NodeId>,
    pub imports: Vec<ImportNode>,
    pub exports: Vec<NodeId>,
}

/// A constant or static variable.
#[derive(Debug)]
pub struct ValueNode {
    pub id: NodeId,
    pub name: String,
    pub visibility: VisibilityKind,
    pub type_id: TypeId,
    pub kind: ValueKind,
    /// The raw value expression text, when present.
    pub value: Option<String>,
    pub attributes: Vec<ParsedAttribute>,
    pub docstring: Option<String>,
}

/// A macro definition.
#[derive(Debug)]
pub struct MacroNode {
    pub id: NodeId,
    pub name: String,
    pub visibility: VisibilityKind,
    pub kind: MacroKind,
    pub rules: Vec<MacroRuleNode>,
    pub attributes: Vec<ParsedAttribute>,
    pub docstring: Option<String>,
    pub body: Option<String>,
    pub expansion: Option<String>,
    pub parent_function: Option<NodeId>,
}

/// One pattern-to-expansion rule of a declarative macro.
#[derive(Debug)]
pub struct MacroRuleNode {
    pub id: NodeId,
    pub pattern: String,
    pub expansion: String,
}

/// Declarative versus procedural macro.
#[derive(Debug, PartialEq, Eq, Structural)]
pub enum MacroKind {
    DeclarativeMacro,
    ProcedureMacro { kind: ProcMacroKind },
}

/// The flavor of a procedural macro.
#[derive(Debug, PartialEq, Eq, Structural)]
pub enum ProcMacroKind {
    Derive,
    Attribute,
    Function,
}

/// Constant versus static variable.
#[derive(Debug, PartialEq, Eq, Structural)]
pub enum ValueKind {
    Constant,
    Static { is_mutable: bool },
}

/// An import record of a module.
#[derive(Debug)]
pub struct ImportNode {
    pub id: NodeId,
    pub path: Vec<String>,
    pub kind: ImportKind,
}

/// The source form of an import.
#[derive(Debug, PartialEq, Eq, Structural)]
pub enum ImportKind {
    UseStatement,
    ExternCrate,
}

} // verus!
