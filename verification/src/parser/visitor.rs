pub mod functions;
pub mod generics;
pub mod macros;
pub mod modules;
pub mod state;
pub mod structures;
pub mod traits_impls;
pub mod type_processing;
pub mod utils;

use vstd::prelude::*;
use vstd::string::StringExecFns;
use crate::parser::graph::CodeGraph;
use crate::parser::graph_ids::NodeType;
use crate::parser::input::{size_item, size_items, Item};
use crate::parser::nodes::{ModuleNode, NodeId};
use crate::parser::relations::{
    contains_increasing, graph_impls_resolve, graph_relations_valid, Relation, RelationKind,
};
use crate::parser::types::VisibilityKind;
use crate::parser::visitor::macros::is_proc_macro;
use crate::parser::visitor::modules::size_module_input;
use crate::parser::visitor::state::{builder_frame, graph_impls_linked, VisitorState};

verus! {

/// The per-collection totals of one analysis run.
pub struct GraphCounts {
    pub functions: nat,
    pub defined_types: nat,
    pub modules: nat,
    pub values: nat,
    pub macros: nat,
    pub traits: nat,
    pub private_traits: nat,
}

/// Pointwise sum of two count records.
pub open spec fn counts_add(a: GraphCounts, b: GraphCounts) -> GraphCounts {
    GraphCounts {
        functions: a.functions + b.functions,
        defined_types: a.defined_types + b.defined_types,
        modules: a.modules + b.modules,
        values: a.values + b.values,
        macros: a.macros + b.macros,
        traits: a.traits + b.traits,
        private_traits: a.private_traits + b.private_traits,
    }
}

/// The count record with every total zero.
pub open spec fn counts_zero() -> GraphCounts {
    GraphCounts {
        functions: 0,
        defined_types: 0,
        modules: 0,
        values: 0,
        macros: 0,
        traits: 0,
        private_traits: 0,
    }
}

/// The current per-collection totals of a graph.
pub open spec fn graph_counts(g: CodeGraph) -> GraphCounts {
    GraphCounts {
        functions: g.functions@.len(),
        defined_types: g.defined_types@.len(),
        modules: g.modules@.len(),
        values: g.values@.len(),
        macros: g.macros@.len(),
        traits: g.traits@.len(),
        private_traits: g.private_traits@.len(),
    }
}

/// How many entries one item contributes to each collection, nested module
/// content included. Implementation blocks are not counted here: their
/// inclusion policy is tied to the trait collections at large.
pub open spec fn counts_item(it: Item) -> GraphCounts
    decreases it,
{
    match it {
        Item::Fn(f) => GraphCounts {
            functions: 1,
            macros: if crate::parser::visitor::macros::spec_is_proc_macro(f.attrs@) {
                1nat
            } else {
                0nat
            },
            ..counts_zero()
        },
        Item::Struct(_) => GraphCounts { defined_types: 1, ..counts_zero() },
        Item::Enum(_) => GraphCounts { defined_types: 1, ..counts_zero() },
        Item::Union(_) => GraphCounts { defined_types: 1, ..counts_zero() },
        Item::TypeAlias(_) => GraphCounts { defined_types: 1, ..counts_zero() },
        Item::Trait(t) => if t.vis is Public {
            GraphCounts { traits: 1, ..counts_zero() }
        } else {
            GraphCounts { private_traits: 1, ..counts_zero() }
        },
        Item::Impl(_) => counts_zero(),
        Item::Mod(m) => counts_add(
            GraphCounts { modules: 1, ..counts_zero() },
            match m.content {
                Some(items) => counts_items(items@),
                None => counts_zero(),
            },
        ),
        Item::Use(_) => counts_zero(),
        Item::ExternCrate(_) => counts_zero(),
        Item::Const(_) => GraphCounts { values: 1, ..counts_zero() },
        Item::Static(_) => GraphCounts { values: 1, ..counts_zero() },
        Item::MacroDef(md) => GraphCounts {
            macros: if crate::parser::visitor::macros::spec_is_exported(md.attrs@) {
                1nat
            } else {
                0nat
            },
            ..counts_zero()
        },
        Item::MacroCall(_) => counts_zero(),
    }
}

/// How many entries an item sequence contributes to each collection.
pub open spec fn counts_items(s: Seq<Item>) -> GraphCounts
    decreases s,
{
    if s.len() == 0 {
        counts_zero()
    } else {
        counts_add(counts_item(s[0]), counts_items(s.drop_first()))
    }
}

/// The per-collection totals an analysis of the given items produces: one
/// synthetic root module plus each item's contribution.
pub open spec fn analysis_counts(items: Seq<Item>) -> GraphCounts {
    counts_add(GraphCounts { modules: 1, ..counts_zero() }, counts_items(items))
}

/// Determinism of the recorded collections: any two analysis results for the
/// same input hold the same number of functions, type definitions, modules,
/// values, macros, and public and private traits, because each total is
/// pinned to a function of the input alone. Together with the positional
/// type-table invariant and the interning-idempotence law, id assignment is
/// likewise a function of the input.
pub proof fn lemma_analysis_counts_deterministic(items: Seq<Item>, g1: CodeGraph, g2: CodeGraph)
    requires
        graph_counts(g1) == analysis_counts(items),
        graph_counts(g2) == analysis_counts(items),
    ensures
        g1.functions@.len() == g2.functions@.len(),
        g1.defined_types@.len() == g2.defined_types@.len(),
        g1.modules@.len() == g2.modules@.len(),
        g1.values@.len() == g2.values@.len(),
        g1.macros@.len() == g2.macros@.len(),
        g1.traits@.len() == g2.traits@.len(),
        g1.private_traits@.len() == g2.private_traits@.len(),
{
}

/// Whether an item unconditionally yields a recorded node: everything but
/// imports, invocation sites, macro definitions (recorded only when
/// exported), and implementation blocks (dropped for unresolved traits).
pub open spec fn item_definite(it: Item) -> bool {
    match it {
        Item::Fn(_) => true,
        Item::Struct(_) => true,
        Item::Enum(_) => true,
        Item::Union(_) => true,
        Item::TypeAlias(_) => true,
        Item::Trait(_) => true,
        Item::Impl(_) => false,
        Item::Mod(_) => true,
        Item::Use(_) => false,
        Item::ExternCrate(_) => false,
        Item::Const(_) => true,
        Item::Static(_) => true,
        Item::MacroDef(_) => false,
        Item::MacroCall(_) => false,
    }
}

/// How many items of a sequence unconditionally yield recorded nodes.
pub open spec fn count_definite(s: Seq<Item>) -> nat
    decreases s,
{
    if s.len() == 0 {
        0
    } else {
        (if item_definite(s[0]) {
            1nat
        } else {
            0nat
        }) + count_definite(s.drop_first())
    }
}

/// The id names a node recorded in the graph's collection for its namespace
/// tag: a function, module, trait, implementation block, or — under the
/// general declaration tag — a type definition, value, or macro.
pub open spec fn id_recorded(id: NodeId, g: CodeGraph) -> bool {
    match id.type_prefix {
        NodeType::Function => exists|k: int|
            0 <= k < g.functions@.len() && (#[trigger] g.functions@[k]).id == id,
        NodeType::Module => exists|k: int|
            0 <= k < g.modules@.len() && (#[trigger] g.modules@[k]).id == id,
        NodeType::Trait => (exists|k: int|
            0 <= k < g.traits@.len() && (#[trigger] g.traits@[k]).id.0 == id.unique_id) || (
        exists|k: int|
            0 <= k < g.private_traits@.len() && (#[trigger] g.private_traits@[k]).id.0
                == id.unique_id),
        NodeType::Impl => exists|k: int|
            0 <= k < g.impls@.len() && (#[trigger] g.impls@[k]).id == id,
        NodeType::Node => (exists|k: int|
            0 <= k < g.defined_types@.len() && crate::parser::nodes::typedef_id(
                #[trigger] g.defined_types@[k],
            ) == id) || (exists|k: int|
            0 <= k < g.values@.len() && (#[trigger] g.values@[k]).id == id) || (exists|k: int|
            0 <= k < g.macros@.len() && (#[trigger] g.macros@[k]).id == id),
        NodeType::Type => false,
    }
}

/// A recorded id stays recorded when a module is placed at the front
/// of the module collection and every other collection is unchanged.
pub proof fn lemma_id_recorded_insert_front(g1: CodeGraph, g2: CodeGraph, id: NodeId)
    requires
        id_recorded(id, g1),
        g2.functions == g1.functions,
        g2.defined_types == g1.defined_types,
        g2.traits == g1.traits,
        g2.private_traits == g1.private_traits,
        g2.impls == g1.impls,
        g2.values == g1.values,
        g2.macros == g1.macros,
        g2.modules@.len() == g1.modules@.len() + 1,
        forall|j: int| 0 <= j < g1.modules@.len() ==> g2.modules@[j + 1] == #[trigger] g1.modules@[j],
    ensures
        id_recorded(id, g2),
{
    match id.type_prefix {
        NodeType::Module => {
            let k = choose|k: int|
                0 <= k < g1.modules@.len() && (#[trigger] g1.modules@[k]).id == id;
            assert(g2.modules@[k + 1] == g1.modules@[k]);
        },
        _ => {},
    }
}

/// A recorded id stays recorded as the graph grows.
pub proof fn lemma_id_recorded_extends(g1: CodeGraph, g2: CodeGraph, id: NodeId)
    requires
        id_recorded(id, g1),
        crate::parser::graph::graph_extends(g1, g2),
    ensures
        id_recorded(id, g2),
{
    match id.type_prefix {
        NodeType::Function => {
            let k = choose|k: int|
                0 <= k < g1.functions@.len() && (#[trigger] g1.functions@[k]).id == id;
            assert(g2.functions@[k] == g1.functions@[k]);
        },
        NodeType::Module => {
            let k = choose|k: int|
                0 <= k < g1.modules@.len() && (#[trigger] g1.modules@[k]).id == id;
            assert(g2.modules@[k] == g1.modules@[k]);
        },
        NodeType::Trait => {
            if exists|k: int|
                0 <= k < g1.traits@.len() && (#[trigger] g1.traits@[k]).id.0 == id.unique_id {
                let k = choose|k: int|
                    0 <= k < g1.traits@.len() && (#[trigger] g1.traits@[k]).id.0 == id.unique_id;
                assert(g2.traits@[k] == g1.traits@[k]);
            } else {
                let k = choose|k: int|
                    0 <= k < g1.private_traits@.len() && (#[trigger] g1.private_traits@[k]).id.0
                        == id.unique_id;
                assert(g2.private_traits@[k] == g1.private_traits@[k]);
            }
        },
        NodeType::Impl => {
            let k = choose|k: int|
                0 <= k < g1.impls@.len() && (#[trigger] g1.impls@[k]).id == id;
            assert(g2.impls@[k] == g1.impls@[k]);
        },
        NodeType::Node => {
            if exists|k: int|
                0 <= k < g1.defined_types@.len() && crate::parser::nodes::typedef_id(
                    #[trigger] g1.defined_types@[k],
                ) == id {
                let k = choose|k: int|
                    0 <= k < g1.defined_types@.len() && crate::parser::nodes::typedef_id(
                        #[trigger] g1.defined_types@[k],
                    ) == id;
                assert(g2.defined_types@[k] == g1.defined_types@[k]);
            } else if exists|k: int|
                0 <= k < g1.values@.len() && (#[trigger] g1.values@[k]).id == id {
                let k = choose|k: int|
                    0 <= k < g1.values@.len() && (#[trigger] g1.values@[k]).id == id;
                assert(g2.values@[k] == g1.values@[k]);
            } else {
                let k = choose|k: int|
                    0 <= k < g1.macros@.len() && (#[trigger] g1.macros@[k]).id == id;
                assert(g2.macros@[k] == g1.macros@[k]);
            }
        },
        NodeType::Type => {},
    }
}

/// The id a dispatched item yields is the id of the node its builder just
/// recorded, at the end of the collection that owns it; kinds that yield no
/// node yield no id.
pub open spec fn yield_recorded(item: Item, r: Option<NodeId>, g: CodeGraph) -> bool {
    match item {
        Item::Fn(_) => match r {
            Some(id) => g.functions@.len() > 0 && g.functions@.last().id == id,
            None => false,
        },
        Item::Struct(_) => match r {
            Some(id) => g.defined_types@.len() > 0 && crate::parser::nodes::typedef_id(
                g.defined_types@.last(),
            ) == id,
            None => false,
        },
        Item::Enum(_) => match r {
            Some(id) => g.defined_types@.len() > 0 && crate::parser::nodes::typedef_id(
                g.defined_types@.last(),
            ) == id,
            None => false,
        },
        Item::Union(_) => match r {
            Some(id) => g.defined_types@.len() > 0 && crate::parser::nodes::typedef_id(
                g.defined_types@.last(),
            ) == id,
            None => false,
        },
        Item::TypeAlias(_) => match r {
            Some(id) => g.defined_types@.len() > 0 && crate::parser::nodes::typedef_id(
                g.defined_types@.last(),
            ) == id,
            None => false,
        },
        Item::Trait(t) => match r {
            Some(id) => if t.vis is Public {
                g.traits@.len() > 0 && g.traits@.last().id.0 == id.unique_id
            } else {
                g.private_traits@.len() > 0 && g.private_traits@.last().id.0 == id.unique_id
            },
            None => false,
        },
        Item::Impl(_) => match r {
            Some(id) => g.impls@.len() > 0 && g.impls@.last().id == id,
            None => true,
        },
        Item::Mod(_) => match r {
            Some(id) => g.modules@.len() > 0 && g.modules@.last().id == id,
            None => false,
        },
        Item::Use(_) => r is None,
        Item::ExternCrate(_) => r is None,
        Item::Const(_) => match r {
            Some(id) => g.values@.len() > 0 && g.values@.last().id == id,
            None => false,
        },
        Item::Static(_) => match r {
            Some(id) => g.values@.len() > 0 && g.values@.last().id == id,
            None => false,
        },
        Item::MacroDef(_) => match r {
            Some(id) => g.macros@.len() > 0 && g.macros@.last().id == id,
            None => true,
        },
        Item::MacroCall(_) => r is None,
    }
}

/// A yielded id names a recorded node.
pub proof fn lemma_yield_recorded_is_recorded(item: Item, id: NodeId, g: CodeGraph)
    requires
        yield_recorded(item, Some(id), g),
        id.type_prefix != NodeType::Type,
        (item matches Item::Mod(_) ==> id.type_prefix == NodeType::Module),
        (item matches Item::Fn(_) ==> id.type_prefix == NodeType::Function),
        (item matches Item::Trait(_) ==> id.type_prefix == NodeType::Trait),
        (item matches Item::Impl(_) ==> id.type_prefix == NodeType::Impl),
        ((item matches Item::Struct(_)) || (item matches Item::Enum(_)) || (item matches
            Item::Union(_)) || (item matches Item::TypeAlias(_)) || (item matches Item::Const(_))
            || (item matches Item::Static(_)) || (item matches Item::MacroDef(_))
            ==> id.type_prefix == NodeType::Node),
        !((item matches Item::Use(_)) || (item matches Item::ExternCrate(_)) || (item matches
            Item::MacroCall(_))),
    ensures
        id_recorded(id, g),
{
    match item {
        Item::Fn(_) => {
            assert(g.functions@[g.functions@.len() - 1].id == id);
        },
        Item::Struct(_) | Item::Enum(_) | Item::Union(_) | Item::TypeAlias(_) => {
            assert(crate::parser::nodes::typedef_id(
                g.defined_types@[g.defined_types@.len() - 1],
            ) == id);
        },
        Item::Trait(t) => {
            if t.vis is Public {
                assert(g.traits@[g.traits@.len() - 1].id.0 == id.unique_id);
            } else {
                assert(g.private_traits@[g.private_traits@.len() - 1].id.0 == id.unique_id);
            }
        },
        Item::Impl(_) => {
            assert(g.impls@[g.impls@.len() - 1].id == id);
        },
        Item::Mod(_) => {
            assert(g.modules@[g.modules@.len() - 1].id == id);
        },
        Item::Const(_) | Item::Static(_) => {
            assert(g.values@[g.values@.len() - 1].id == id);
        },
        Item::MacroDef(_) => {
            assert(g.macros@[g.macros@.len() - 1].id == id);
        },
        _ => {},
    }
}

/// What a finished graph guarantees: every relation is tag-valid, containment
/// always points from an earlier-allocated node to a later-allocated one,
/// every implementation block's ids resolve within the type table, every
/// implementation naming a trait is linked to a publicly recorded trait, and
/// the public trait collection holds public traits only.
pub open spec fn graph_consistent(g: CodeGraph) -> bool {
    &&& graph_relations_valid(g)
    &&& contains_increasing(g)
    &&& graph_impls_resolve(g)
    &&& graph_impls_linked(g)
    &&& forall|i: int|
        0 <= i < g.traits@.len() ==> (#[trigger] g.traits@[i]).visibility == VisibilityKind::Public
}

impl VisitorState {
    /// Dispatches one item to its builder. Returns the produced node id for
    /// containment purposes; imports, invocation sites, and unexported macro
    /// definitions yield none.
    pub fn process_item(&mut self, item: Item) -> (r: Option<NodeId>)
        requires
            old(self).wf(),
            old(self).next_node_id + size_item(item) <= usize::MAX,
            old(self).next_type_id + size_item(item) <= usize::MAX,
            old(self).next_trait_id + size_item(item) <= usize::MAX,
        ensures
            final(self).wf(),
            builder_frame(*old(self), *final(self)),
            final(self).next_node_id <= old(self).next_node_id + size_item(item),
            final(self).next_type_id <= old(self).next_type_id + size_item(item),
            final(self).next_trait_id <= old(self).next_trait_id + size_item(item),
            match r {
                Some(id) => old(self).next_node_id <= id.unique_id < final(self).next_node_id
                    && id.type_prefix != NodeType::Type,
                None => true,
            },
            item_definite(item) ==> r is Some,
            item matches Item::Mod(_) ==> r is Some && r->Some_0.type_prefix == NodeType::Module,
            (item matches Item::Impl(im) ==> (r is Some
                <==> crate::parser::visitor::traits_impls::impl_kept(im, *old(self)))),
            (item matches Item::MacroDef(md) ==> (r is Some
                <==> crate::parser::visitor::macros::spec_is_exported(md.attrs@))),
            ((item matches Item::Use(_)) || (item matches Item::ExternCrate(_)) || (item matches
                Item::MacroCall(_)) ==> r is None),
            yield_recorded(item, r, final(self).code_graph),
            (item matches Item::Fn(_) ==> r->Some_0.type_prefix == NodeType::Function),
            (item matches Item::Trait(_) ==> r->Some_0.type_prefix == NodeType::Trait),
            ((item matches Item::Impl(_)) && r is Some ==> r->Some_0.type_prefix == NodeType::Impl),
            (((item matches Item::Struct(_)) || (item matches Item::Enum(_)) || (item matches
                Item::Union(_)) || (item matches Item::TypeAlias(_)) || (item matches
                Item::Const(_)) || (item matches Item::Static(_)) || (item matches
                Item::MacroDef(_))) && r is Some ==> r->Some_0.type_prefix == NodeType::Node),
            graph_counts(final(self).code_graph) == counts_add(
                graph_counts(old(self).code_graph),
                counts_item(item),
            ),
        decreases size_item(item), 1int,
    {
        match item {
            Item::Fn(f) => {
                proof {
                    assert(size_item(item) == 1 + crate::parser::input::size_signature(
                        f.params@,
                        f.ret,
                        f.generics@,
                    ));
                }
                if is_proc_macro(&f.attrs) {
                    let macro_id = self.process_proc_macro(&f);
                    let ghost s0 = *self;
                    let fn_id = self.process_function(f);
                    proof {
                        crate::parser::visitor::state::lemma_builder_frame_trans(
                            *old(self),
                            s0,
                            *self,
                        );
                        assert(self.next_node_id <= old(self).next_node_id + size_item(item));
                        assert(self.next_type_id <= old(self).next_type_id + size_item(item));
                    }
                    Some(fn_id)
                } else {
                    let fn_id = self.process_function(f);
                    proof {
                        assert(self.next_node_id <= old(self).next_node_id + size_item(item));
                        assert(self.next_type_id <= old(self).next_type_id + size_item(item));
                    }
                    Some(fn_id)
                }
            },
            Item::Struct(s) => {
                proof {
                    assert(size_item(item) == 2 + crate::parser::input::size_fields(s.fields)
                        + crate::parser::input::size_generics(s.generics@));
                }
                Some(self.process_struct(s))
            },
            Item::Enum(e) => {
                proof {
                    assert(size_item(item) == 2 + crate::parser::input::size_variants(e.variants@)
                        + crate::parser::input::size_generics(e.generics@));
                }
                Some(self.process_enum(e))
            },
            Item::Union(u) => {
                proof {
                    assert(size_item(item) == 2 + crate::parser::input::size_field_list(u.fields@)
                        + crate::parser::input::size_generics(u.generics@));
                }
                Some(self.process_union(u))
            },
            Item::TypeAlias(a) => {
                proof {
                    assert(size_item(item) == 2 + crate::parser::input::size_type(a.ty)
                        + crate::parser::input::size_generics(a.generics@));
                }
                Some(self.process_type_alias(a))
            },
            Item::Trait(t) => {
                proof {
                    assert(size_item(item) == 4 + crate::parser::input::size_trait_methods(
                        t.methods@,
                    ) + crate::parser::input::size_bounds(t.supertraits@)
                        + crate::parser::input::size_generics(t.generics@));
                }
                let tid = self.process_trait(t);
                Some(NodeId { type_prefix: NodeType::Trait, unique_id: tid.as_usize() })
            },
            Item::Impl(im) => {
                proof {
                    assert(size_item(item) == 3 + crate::parser::input::size_type(im.self_ty) + (
                    match im.trait_path {
                        Some(p) => 1 + crate::parser::input::size_segments(p@),
                        None => 0nat,
                    }) + crate::parser::input::size_impl_methods(im.methods@)
                        + crate::parser::input::size_generics(im.generics@));
                }
                self.process_impl(im)
            },
            Item::Mod(m) => {
                proof {
                    assert(size_item(item) == size_module_input(m));
                }
                Some(self.process_module(m))
            },
            Item::Use(u) => {
                proof {
                    assert(size_item(item) == 3);
                }
                let id = self.process_use(u);
                None
            },
            Item::ExternCrate(e) => {
                proof {
                    assert(size_item(item) == 3);
                }
                let id = self.process_extern_crate(e);
                None
            },
            Item::Const(c) => {
                proof {
                    assert(size_item(item) == 2 + crate::parser::input::size_type(c.ty));
                }
                Some(self.process_const(c))
            },
            Item::Static(st) => {
                proof {
                    assert(size_item(item) == 2 + crate::parser::input::size_type(st.ty));
                }
                Some(self.process_static(st))
            },
            Item::MacroDef(md) => {
                proof {
                    assert(size_item(item) == 3 + md.tokens@.len());
                }
                self.process_declarative_macro(md)
            },
            Item::MacroCall(mc) => {
                proof {
                    assert(size_item(item) == 2);
                }
                let id = self.process_macro_invocation(mc);
                None
            },
        }
    }

    /// Walks one item sequence depth-first: dispatches each item in order,
    /// wires a containment relation from the enclosing module to every
    /// produced node, and collects the produced ids and the submodule ids.
    #[verifier::loop_isolation(false)]
    pub fn process_items(&mut self, module_id: NodeId, items: Vec<Item>) -> (r: (
        Vec<NodeId>,
        Vec<NodeId>,
    ))
        requires
            old(self).wf(),
            module_id.type_prefix == NodeType::Module,
            module_id.unique_id < old(self).next_node_id,
            old(self).next_node_id + size_items(items@) <= usize::MAX,
            old(self).next_type_id + size_items(items@) <= usize::MAX,
            old(self).next_trait_id + size_items(items@) <= usize::MAX,
        ensures
            final(self).wf(),
            builder_frame(*old(self), *final(self)),
            final(self).next_node_id <= old(self).next_node_id + size_items(items@),
            final(self).next_type_id <= old(self).next_type_id + size_items(items@),
            final(self).next_trait_id <= old(self).next_trait_id + size_items(items@),
            graph_counts(final(self).code_graph) == counts_add(
                graph_counts(old(self).code_graph),
                counts_items(items@),
            ),
            forall|k: int|
                0 <= k < r.0@.len() ==> exists|j: int|
                    0 <= j < final(self).code_graph.relations@.len() && final(self).code_graph.relations@[j] == (Relation {
                        source: module_id,
                        target: (#[trigger] r.0@[k]),
                        kind: RelationKind::Contains,
                    }),
            r.0@.len() >= count_definite(items@),
            forall|k: int| 0 <= k < r.0@.len() ==> id_recorded(#[trigger] r.0@[k], final(self).code_graph),
            forall|k: int|
                0 <= k < r.1@.len() ==> (#[trigger] r.1@[k]).type_prefix == NodeType::Module
                    && id_recorded(#[trigger] r.1@[k], final(self).code_graph),
        decreases size_items(items@), 2int,
    {
        let mut items = items;
        let ghost i0 = items@;
        let mut produced: Vec<NodeId> = Vec::new();
        let mut submodules: Vec<NodeId> = Vec::new();
        while items.len() > 0
            invariant
                self.wf(),
                builder_frame(*old(self), *self),
                module_id.unique_id < self.next_node_id,
                self.next_node_id + size_items(items@) <= old(self).next_node_id + size_items(i0),
                self.next_type_id + size_items(items@) <= old(self).next_type_id + size_items(i0),
                self.next_trait_id + size_items(items@) <= old(self).next_trait_id + size_items(
                    i0,
                ),
                size_items(items@) <= size_items(i0),
                counts_add(graph_counts(old(self).code_graph), counts_items(i0)) == counts_add(
                    graph_counts(self.code_graph),
                    counts_items(items@),
                ),
                produced@.len() + count_definite(items@) >= count_definite(i0),
                forall|k: int|
                    0 <= k < produced@.len() ==> id_recorded(
                        #[trigger] produced@[k],
                        self.code_graph,
                    ),
                forall|k: int|
                    0 <= k < submodules@.len() ==> (#[trigger] submodules@[k]).type_prefix
                        == NodeType::Module && id_recorded(
                        #[trigger] submodules@[k],
                        self.code_graph,
                    ),
                forall|k: int|
                    0 <= k < produced@.len() ==> exists|j: int|
                        0 <= j < self.code_graph.relations@.len()
                            && self.code_graph.relations@[j] == (Relation {
                            source: module_id,
                            target: (#[trigger] produced@[k]),
                            kind: RelationKind::Contains,
                        }),
            decreases items@.len(),
        {
            let ghost pre_i = items@;
            proof {
                assert(pre_i.remove(0) =~= pre_i.drop_first());
            }
            let ghost pre_loop = *self;
            let item = items.remove(0);
            proof {
                assert(size_items(pre_i) == size_item(item) + size_items(items@));
                assert(size_item(item) >= 1);
                assert(counts_items(pre_i) == counts_add(counts_item(item), counts_items(items@)));
                assert(count_definite(pre_i) == (if item_definite(item) {
                    1nat
                } else {
                    0nat
                }) + count_definite(items@));
            }
            let is_module = matches!(item, Item::Mod(_));
            let ghost rels_pre = self.code_graph.relations@;
            let id_opt = self.process_item(item);
            let ghost s_item = *self;
            proof {
                match id_opt {
                    Some(id) => {
                        lemma_yield_recorded_is_recorded(item, id, self.code_graph);
                    },
                    None => {},
                }
            }
            match id_opt {
                Some(id) => {
                    self.add_relation(
                        Relation { source: module_id, target: id, kind: RelationKind::Contains },
                    );
                    proof {
                        crate::parser::visitor::state::lemma_graph_extends_refl(
                            s_item.code_graph,
                        );
                        crate::parser::visitor::state::lemma_prefix_push(
                            s_item.code_graph.relations@,
                            Relation {
                                source: module_id,
                                target: id,
                                kind: RelationKind::Contains,
                            },
                        );
                        lemma_id_recorded_extends(s_item.code_graph, self.code_graph, id);
                    }
                    produced.push(id);
                    if is_module {
                        submodules.push(id);
                    }
                },
                None => {},
            }
            proof {
                crate::parser::visitor::state::lemma_builder_frame_trans(
                    *old(self),
                    pre_loop,
                    *self,
                );
                assert forall|k: int| 0 <= k < produced@.len() implies id_recorded(
                    #[trigger] produced@[k],
                    self.code_graph,
                ) by {
                    if k < produced@.len() - 1 || id_opt is None {
                        lemma_id_recorded_extends(
                            pre_loop.code_graph,
                            self.code_graph,
                            produced@[k],
                        );
                    }
                }
                assert forall|k: int| 0 <= k < submodules@.len() implies id_recorded(
                    #[trigger] submodules@[k],
                    self.code_graph,
                ) by {
                    if k < submodules@.len() - 1 || !(id_opt is Some && is_module) {
                        lemma_id_recorded_extends(
                            pre_loop.code_graph,
                            self.code_graph,
                            submodules@[k],
                        );
                    }
                }
                assert forall|k: int| 0 <= k < produced@.len() implies exists|j: int|
                    0 <= j < self.code_graph.relations@.len() && self.code_graph.relations@[j]
                        == (Relation {
                        source: module_id,
                        target: (#[trigger] produced@[k]),
                        kind: RelationKind::Contains,
                    }) by {
                    if k < produced@.len() - 1 || id_opt is None {
                        let j0 = choose|j: int|
                            0 <= j < rels_pre.len() && rels_pre[j] == (Relation {
                                source: module_id,
                                target: produced@[k],
                                kind: RelationKind::Contains,
                            });
                        assert(rels_pre.is_prefix_of(self.code_graph.relations@));
                        assert(self.code_graph.relations@[j0] == rels_pre[j0]);
                    } else {
                        let last = self.code_graph.relations@.len() - 1;
                        assert(self.code_graph.relations@[last] == (Relation {
                            source: module_id,
                            target: produced@[k],
                            kind: RelationKind::Contains,
                        }));
                    }
                }
            }
        }
        (produced, submodules)
    }
}

/// Analyzes a sequence of typed declaration items into a code graph: creates
/// the synthetic root module, walks every item depth-first, and wires one
/// containment relation from the root to each top-level node. The root
/// module stands first in the module collection.
pub fn analyze_items(items: Vec<Item>) -> (r: CodeGraph)
    requires
        size_items(items@) + 2 <= usize::MAX,
    ensures
        graph_consistent(r),
        graph_counts(r) == analysis_counts(items@),
        r.modules@.len() >= 1,
        r.modules@[0].name@ == "root"@,
        r.modules@[0].id == (NodeId { type_prefix: NodeType::Module, unique_id: 0 }),
        r.modules@[0].visibility == VisibilityKind::Inherited,
        r.modules@[0].attributes@.len() == 0,
        r.modules@[0].docstring is None,
        r.modules@[0].items@.len() >= count_definite(items@),
        forall|k: int|
            0 <= k < r.modules@[0].items@.len() ==> exists|j: int|
                0 <= j < r.relations@.len() && r.relations@[j] == (Relation {
                    source: (NodeId { type_prefix: NodeType::Module, unique_id: 0 }),
                    target: (#[trigger] r.modules@[0].items@[k]),
                    kind: RelationKind::Contains,
                }),
        forall|k: int|
            0 <= k < r.modules@[0].items@.len() ==> id_recorded(
                #[trigger] r.modules@[0].items@[k],
                r,
            ),
        forall|k: int|
            0 <= k < r.modules@[0].submodules@.len() ==> (
            #[trigger] r.modules@[0].submodules@[k]).type_prefix == NodeType::Module
                && id_recorded(#[trigger] r.modules@[0].submodules@[k], r),
        r.type_graph@.len() <= usize::MAX,
        forall|i: int|
            0 <= i < r.type_graph@.len() ==> (#[trigger] r.type_graph@[i]).id.0 == i,
{
    let mut state = VisitorState::new();
    let root_id = state.alloc_id(NodeType::Module);
    let pair = state.process_items(root_id, items);
    let root = ModuleNode {
        id: root_id,
        name: String::from_str("root"),
        visibility: VisibilityKind::Inherited,
        attributes: Vec::new(),
        docstring: None,
        submodules: pair.1,
        items: pair.0,
        imports: Vec::new(),
        exports: Vec::new(),
    };
    let ghost pre_insert = state;
    // The synthetic root is recorded first in the module collection.
    state.code_graph.modules.insert(0, root);
    proof {
        assert(state.code_graph.modules@[0] == root);
        assert(state.code_graph.modules@.len() == pre_insert.code_graph.modules@.len() + 1);
        assert forall|k: int| 0 <= k < root.items@.len() implies id_recorded(
            #[trigger] root.items@[k],
            state.code_graph,
        ) by {
            lemma_id_recorded_insert_front(
                pre_insert.code_graph,
                state.code_graph,
                root.items@[k],
            );
        }
        assert forall|k: int| 0 <= k < root.submodules@.len() implies id_recorded(
            #[trigger] root.submodules@[k],
            state.code_graph,
        ) by {
            lemma_id_recorded_insert_front(
                pre_insert.code_graph,
                state.code_graph,
                root.submodules@[k],
            );
        }
        assert(state.code_graph.relations == pre_insert.code_graph.relations);
        assert(state.code_graph.impls == pre_insert.code_graph.impls);
        assert(state.code_graph.traits == pre_insert.code_graph.traits);
        assert(state.code_graph.type_graph == pre_insert.code_graph.type_graph);
        assert(graph_relations_valid(state.code_graph)) by {
            assert forall|i: int|
                0 <= i < state.code_graph.relations@.len() implies crate::parser::relations::rel_valid(
                #[trigger] state.code_graph.relations@[i],
            ) by {
                assert(crate::parser::relations::rel_valid(
                    pre_insert.code_graph.relations@[i],
                ));
            }
        }
        assert(contains_increasing(state.code_graph));
        assert(graph_impls_resolve(state.code_graph)) by {
            assert(state.code_graph.type_graph@.len() == state.next_type_id);
            assert forall|i: int| 0 <= i < state.code_graph.impls@.len() implies {
                &&& (#[trigger] state.code_graph.impls@[i]).self_type.0
                    < state.code_graph.type_graph@.len()
                &&& match state.code_graph.impls@[i].trait_type {
                    Some(t) => t.0 < state.code_graph.type_graph@.len(),
                    None => true,
                }
                &&& crate::parser::relations::gparams_resolve(
                    state.code_graph.impls@[i].generic_params@,
                    state.code_graph.type_graph@.len() as nat,
                )
            } by {
                assert(state.code_graph.impls@[i] == pre_insert.code_graph.impls@[i]);
            }
        }
        assert(graph_impls_linked(state.code_graph)) by {
            assert forall|i: int|
                0 <= i < state.code_graph.impls@.len() implies match (
            #[trigger] state.code_graph.impls@[i]).trait_type {
                Some(t) => crate::parser::visitor::state::trait_linked(state.code_graph, t),
                None => true,
            } by {
                match state.code_graph.impls@[i].trait_type {
                    Some(t) => {
                        crate::parser::visitor::state::lemma_prefix_refl(
                            pre_insert.code_graph.relations@,
                        );
                        crate::parser::visitor::state::lemma_prefix_refl(
                            pre_insert.code_graph.traits@,
                        );
                        crate::parser::visitor::state::lemma_trait_linked_extends(
                            pre_insert.code_graph,
                            state.code_graph,
                            t,
                        );
                    },
                    None => {},
                }
            }
        }
    }
    state.code_graph
}

} // verus!
