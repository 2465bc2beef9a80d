//! Tagged graph identifiers.
//!
//! Every identifier namespace of the graph (declaration nodes, type-table
//! entries, trait entries) is carried as a tagged pair of a namespace tag and
//! a numeric value, so that ids from different namespaces never compare equal
//! and every relation endpoint can name any entity unambiguously.

use vstd::prelude::*;

verus! {

/// The namespace tag of a graph identifier.
#[derive(Debug, Clone, Copy, PartialEq, Eq, Hash, Structural)]
pub enum NodeType {
    Node,
    Trait,
    Type,
    Module,
    Function,
    Impl,
}

/// A universal tagged identifier: a namespace tag plus a numeric value.
#[derive(Debug, Clone, Copy, PartialEq, Eq, Hash, Structural)]
pub struct GraphNodeId {
    pub type_prefix: NodeType,
    pub unique_id: usize,
}

impl GraphNodeId {
    pub fn new(unique_id: usize, type_prefix: NodeType) -> (r: Self)
        ensures
            r.unique_id == unique_id,
            r.type_prefix == type_prefix,
    {
        Self { unique_id, type_prefix }
    }
}

/// Conversions between a concrete identifier type and the universal tagged id.
///
/// Each implementing type owns one namespace tag; `as_graph_id` is injective
/// on the numeric value and `from_graph_id` accepts exactly the ids that carry
/// the implementer's tag.
pub trait GraphIdentifier: Sized {
    /// The namespace tag owned by the implementing type.
    spec fn spec_tag() -> NodeType;

    /// The numeric value of this identifier.
    spec fn spec_index(&self) -> usize;

    fn as_graph_id(&self) -> (r: GraphNodeId)
        ensures
            r.type_prefix == Self::spec_tag(),
            r.unique_id == self.spec_index(),
    ;

    fn from_graph_id(id: GraphNodeId) -> (r: Option<Self>)
        ensures
            match r {
                Some(x) => id.type_prefix == Self::spec_tag() && x.spec_index() == id.unique_id,
                None => id.type_prefix != Self::spec_tag(),
            },
    ;
}

} // verus!

verus! {

/// The little-endian bytes of a 64-bit value, least significant first.
pub open spec fn le8(n: u64) -> Seq<u8> {
    Seq::new(8, |i: int| (((n >> (8 * i) as u64) & 0xff) as u8))
}

/// Renders a 64-bit value as its eight little-endian bytes.
fn le_bytes(n: u64) -> (r: Vec<u8>)
    ensures
        r@ == le8(n),
{
    let mut r: Vec<u8> = Vec::new();
    assert((n >> 0u64) & 0xff < 256 && (n >> 8u64) & 0xff < 256 && (n >> 16u64) & 0xff < 256 && (n
        >> 24u64) & 0xff < 256 && (n >> 32u64) & 0xff < 256 && (n >> 40u64) & 0xff < 256 && (n
        >> 48u64) & 0xff < 256 && (n >> 56u64) & 0xff < 256) by (bit_vector);
    r.push(((n >> 0u64) & 0xff) as u8);
    r.push(((n >> 8u64) & 0xff) as u8);
    r.push(((n >> 16u64) & 0xff) as u8);
    r.push(((n >> 24u64) & 0xff) as u8);
    r.push(((n >> 32u64) & 0xff) as u8);
    r.push(((n >> 40u64) & 0xff) as u8);
    r.push(((n >> 48u64) & 0xff) as u8);
    r.push(((n >> 56u64) & 0xff) as u8);
    proof {
        assert(r@ =~= le8(n));
    }
    r
}

/// The bytes of the name-based (SHA-1) UUID computed from a namespace byte,
/// repeated through the sixteen namespace positions, and the given name
/// bytes. The result depends on the arguments alone.
pub uninterp spec fn uuid_v5_of(ns: u8, data: Seq<u8>) -> Seq<u8>;

/// Relies on uuid::Uuid::new_v5: the name-based UUID is a pure SHA-1 digest
/// of the namespace and name bytes, sixteen bytes long.
#[verifier::external_body]
fn uuid_v5_bytes(ns: u8, data: &Vec<u8>) -> (r: Vec<u8>)
    ensures
        r@ == uuid_v5_of(ns, data@),
        r@.len() == 16,
{
    let namespace = uuid::Uuid::from_bytes([ns; 16]);
    let id = uuid::Uuid::new_v5(&namespace, data.as_slice());
    id.as_bytes().to_vec()
}

/// The namespace byte reserved for each identifier space.
pub open spec fn spec_namespace_byte(t: NodeType) -> u8 {
    match t {
        NodeType::Node => 0x8a,
        NodeType::Trait => 0x8b,
        NodeType::Type => 0x8c,
        NodeType::Module => 0x8d,
        NodeType::Function => 0x8e,
        NodeType::Impl => 0x8f,
    }
}

impl GraphNodeId {
    /// The stable name-based UUID of this identifier: the version-5 UUID of
    /// the id's little-endian bytes under the namespace reserved for its tag,
    /// as sixteen bytes.
    pub fn to_uuid(&self) -> (r: Vec<u8>)
        ensures
            r@ == uuid_v5_of(spec_namespace_byte(self.type_prefix), le8(self.unique_id as u64)),
            r@.len() == 16,
    {
        let ns: u8 = match self.type_prefix {
            NodeType::Node => 0x8a,
            NodeType::Trait => 0x8b,
            NodeType::Type => 0x8c,
            NodeType::Module => 0x8d,
            NodeType::Function => 0x8e,
            NodeType::Impl => 0x8f,
        };
        let data = le_bytes(self.unique_id as u64);
        uuid_v5_bytes(ns, &data)
    }
}

} // verus!
