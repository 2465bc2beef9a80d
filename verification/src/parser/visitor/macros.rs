//! The macro builders: declarative definitions (recorded only when exported,
//! their bodies split into rules by a naive delimiter scan), procedural macro
//! functions, and best-effort invocation linkage.

use vstd::prelude::*;
use vstd::string::{StrSliceExecFns, StringExecFns};
use crate::parser::graph_ids::NodeType;
use crate::parser::input::{AttributeInput, FnInput, MacroCallInput, MacroDefInput};
use crate::parser::nodes::{MacroKind, MacroNode, MacroRuleNode, NodeId, ProcMacroKind};
use crate::parser::relations::{Relation, RelationKind};
use crate::parser::types::VisibilityKind;
use crate::parser::visitor::state::{builder_frame, VisitorState};
use crate::parser::visitor::utils::{
    extract_attributes, extract_docstring, opt_view, spec_docstring, spec_trim, string_is,
    trimmed_range, visibility_of,
};

verus! {

/// Whether some attribute of the list carries the given name.
pub open spec fn spec_has_attr(attrs: Seq<AttributeInput>, name: Seq<char>) -> bool {
    exists|i: int| 0 <= i < attrs.len() && (#[trigger] attrs[i]).name@ == name
}

/// Whether the attribute list marks a procedural macro function.
pub open spec fn spec_is_proc_macro(attrs: Seq<AttributeInput>) -> bool {
    spec_has_attr(attrs, "proc_macro"@) || spec_has_attr(attrs, "proc_macro_derive"@)
        || spec_has_attr(attrs, "proc_macro_attribute"@)
}

/// Whether the attribute list marks an exported declarative macro.
pub open spec fn spec_is_exported(attrs: Seq<AttributeInput>) -> bool {
    spec_has_attr(attrs, "macro_export"@)
}

/// Scans an attribute list for a name.
pub fn has_attr(attrs: &Vec<AttributeInput>, name: &str) -> (r: bool)
    ensures
        r == spec_has_attr(attrs@, name@),
{
    let mut i: usize = 0;
    while i < attrs.len()
        invariant
            i <= attrs@.len(),
            forall|k: int| 0 <= k < i ==> (#[trigger] attrs@[k]).name@ != name@,
        decreases attrs@.len() - i,
    {
        if string_is(&attrs[i].name, name) {
            return true;
        }
        i += 1;
    }
    false
}

/// Whether the attribute list marks a procedural macro function.
pub fn is_proc_macro(attrs: &Vec<AttributeInput>) -> (r: bool)
    ensures
        r == spec_is_proc_macro(attrs@),
{
    has_attr(attrs, "proc_macro") || has_attr(attrs, "proc_macro_derive") || has_attr(
        attrs,
        "proc_macro_attribute",
    )
}

/// Index of the first semicolon at or after `i`, or the text's length.
pub open spec fn find_semi(s: Seq<char>, i: int) -> int
    decreases s.len() - i
    when 0 <= i <= s.len()
{
    if i == s.len() {
        i
    } else if s[i] == ';' {
        i
    } else {
        find_semi(s, i + 1)
    }
}

/// The first semicolon position is pinned by what lies before it.
proof fn lemma_find_semi_is(s: Seq<char>, i0: int, i: int)
    requires
        0 <= i0 <= i <= s.len(),
        forall|j: int| i0 <= j < i ==> s[j] != ';',
        i == s.len() || s[i] == ';',
    ensures
        find_semi(s, i0) == i,
    decreases i - i0,
{
    if i0 < i {
        lemma_find_semi_is(s, i0 + 1, i);
    }
}

/// The first semicolon lies at or after the scan start, within the text.
proof fn lemma_find_semi_bounds(s: Seq<char>, i: int)
    requires
        0 <= i <= s.len(),
    ensures
        i <= find_semi(s, i) <= s.len(),
    decreases s.len() - i,
{
    if i < s.len() && s[i] != ';' {
        lemma_find_semi_bounds(s, i + 1);
    }
}

/// Index of the first arrow at or after `j` in a piece, or the piece's
/// length when the piece holds none.
pub open spec fn arrow_in(seg: Seq<char>, j: int) -> int
    decreases seg.len() - j
    when 0 <= j <= seg.len()
{
    if j + 1 >= seg.len() {
        seg.len() as int
    } else if seg[j] == '=' && seg[j + 1] == '>' {
        j
    } else {
        arrow_in(seg, j + 1)
    }
}

/// The rules one semicolon-separated piece contributes: one rule of its
/// trimmed sides around the first arrow, or none without an arrow.
pub open spec fn seg_rules(seg: Seq<char>) -> Seq<(Seq<char>, Seq<char>)> {
    let j = arrow_in(seg, 0);
    if j < seg.len() {
        seq![(spec_trim(seg.take(j)), spec_trim(seg.skip(j + 2)))]
    } else {
        Seq::<(Seq<char>, Seq<char>)>::empty()
    }
}

#[via_fn]
proof fn rules_from_decreases(s: Seq<char>, i: int) {
    if i <= s.len() {
        lemma_find_semi_bounds(s, i);
    }
}

/// The rules of every piece from position `i` on, in order.
pub open spec fn rules_from(s: Seq<char>, i: int) -> Seq<(Seq<char>, Seq<char>)>
    decreases s.len() + 1 - i
    when 0 <= i <= s.len() + 1
    via rules_from_decreases
{
    if i > s.len() {
        Seq::<(Seq<char>, Seq<char>)>::empty()
    } else {
        seg_rules(s.subrange(i, find_semi(s, i))) + rules_from(s, find_semi(s, i) + 1)
    }
}

/// The pattern-to-expansion pairs of a declarative macro body: the body cut
/// at semicolons, each piece holding an arrow contributing its trimmed sides.
pub open spec fn spec_macro_rules(tokens: Seq<char>) -> Seq<(Seq<char>, Seq<char>)> {
    rules_from(tokens, 0)
}

/// The text pairs a produced rule list carries.
pub open spec fn rule_pairs(rs: Seq<MacroRuleNode>) -> Seq<(Seq<char>, Seq<char>)> {
    Seq::new(rs.len(), |k: int| (rs[k].pattern@, rs[k].expansion@))
}

/// Finds the first arrow in the character range `[from, to)`, returning `to`
/// when there is none.
#[verifier::loop_isolation(false)]
fn find_arrow(s: &str, from: usize, to: usize) -> (r: usize)
    requires
        from <= to <= s@.len(),
        to < usize::MAX,
    ensures
        from <= r <= to,
        r as int - from == arrow_in(s@.subrange(from as int, to as int), 0),
        r < to ==> r + 1 < to && s@[r as int] == '=' && s@[r as int + 1] == '>',
{
    let ghost seg = s@.subrange(from as int, to as int);
    let mut j = from;
    while j + 1 < to
        invariant
            from <= j,
            j <= to,
            arrow_in(seg, 0) == arrow_in(seg, j as int - from),
        decreases to - j,
    {
        proof {
            assert(seg[j as int - from] == s@[j as int]);
            assert(seg[j as int - from + 1] == s@[j as int + 1]);
        }
        if s.get_char(j) == '=' && s.get_char(j + 1) == '>' {
            proof {
                assert(arrow_in(seg, j as int - from) == j as int - from);
            }
            return j;
        }
        j += 1;
    }
    proof {
        assert(arrow_in(seg, j as int - from) == seg.len());
    }
    to
}

impl VisitorState {
    /// Splits a declarative macro body into pattern-to-expansion rules by a
    /// naive delimiter scan: the body is cut at semicolons, and every piece
    /// holding an arrow yields one rule of its trimmed sides.
    #[verifier::loop_isolation(false)]
    pub fn parse_macro_rules(&mut self, tokens: &str) -> (r: Vec<MacroRuleNode>)
        requires
            old(self).wf(),
            old(self).next_node_id + tokens@.len() + 2 <= usize::MAX,
        ensures
            final(self).wf(),
            builder_frame(*old(self), *final(self)),
            final(self).code_graph == old(self).code_graph,
            final(self).type_map == old(self).type_map,
            final(self).next_type_id == old(self).next_type_id,
            final(self).next_trait_id == old(self).next_trait_id,
            final(self).next_node_id <= old(self).next_node_id + tokens@.len() + 2,
            rule_pairs(r@) == spec_macro_rules(tokens@),
    {
        let n = tokens.unicode_len();
        let mut rules: Vec<MacroRuleNode> = Vec::new();
        let mut seg_start: usize = 0;
        let mut i: usize = 0;
        proof {
            crate::parser::visitor::state::lemma_graph_extends_refl(old(self).code_graph);
            assert(rule_pairs(rules@) =~= Seq::<(Seq<char>, Seq<char>)>::empty());
        }
        while i <= n
            invariant
                n == tokens@.len(),
                seg_start <= i <= n + 1,
                i == n + 1 ==> seg_start == n + 1,
                forall|j: int| seg_start <= j < i && j < n ==> tokens@[j] != ';',
                rule_pairs(rules@) + rules_from(tokens@, seg_start as int) == spec_macro_rules(
                    tokens@,
                ),
                self.wf(),
                self.code_graph == old(self).code_graph,
                self.type_map == old(self).type_map,
                self.next_type_id == old(self).next_type_id,
                self.next_trait_id == old(self).next_trait_id,
                old(self).next_node_id <= self.next_node_id,
                self.next_node_id <= old(self).next_node_id + i + 1,
            decreases n + 1 - i,
        {
            let at_end = i == n;
            let closes = if at_end {
                true
            } else {
                tokens.get_char(i) == ';'
            };
            if closes {
                proof {
                    lemma_find_semi_is(tokens@, seg_start as int, i as int);
                }
                let ghost seg = tokens@.subrange(seg_start as int, i as int);
                // The piece [seg_start, i): its first arrow yields one rule.
                let arrow = find_arrow(tokens, seg_start, i);
                if arrow < i {
                    let pattern = trimmed_range(tokens, seg_start, arrow);
                    let expansion = trimmed_range(tokens, arrow + 2, i);
                    let id = self.alloc_id(NodeType::Node);
                    let ghost old_rules = rules@;
                    proof {
                        assert(seg.take(arrow as int - seg_start) =~= tokens@.subrange(
                            seg_start as int,
                            arrow as int,
                        ));
                        assert(seg.skip(arrow as int - seg_start + 2) =~= tokens@.subrange(
                            arrow as int + 2,
                            i as int,
                        ));
                        assert(seg_rules(seg) =~= seq![
                            (
                                spec_trim(tokens@.subrange(seg_start as int, arrow as int)),
                                spec_trim(tokens@.subrange(arrow as int + 2, i as int)),
                            ),
                        ]);
                    }
                    rules.push(MacroRuleNode { id, pattern, expansion });
                    proof {
                        assert(rule_pairs(rules@) =~= rule_pairs(old_rules).push((
                            spec_trim(tokens@.subrange(seg_start as int, arrow as int)),
                            spec_trim(tokens@.subrange(arrow as int + 2, i as int)),
                        )));
                        assert(rule_pairs(old_rules).push(seg_rules(seg)[0]) =~= rule_pairs(
                            old_rules,
                        ) + seg_rules(seg));
                    }
                } else {
                    proof {
                        assert(seg_rules(seg) =~= Seq::<(Seq<char>, Seq<char>)>::empty());
                        assert(rule_pairs(rules@) + seg_rules(seg) =~= rule_pairs(rules@));
                    }
                }
                seg_start = i + 1;
            }
            i += 1;
        }
        proof {
            crate::parser::visitor::state::lemma_graph_extends_refl(self.code_graph);
            assert(seg_start == n + 1);
            assert(rules_from(tokens@, seg_start as int) =~= Seq::<(Seq<char>, Seq<char>)>::empty());
            assert(rule_pairs(rules@) + rules_from(tokens@, seg_start as int) =~= rule_pairs(
                rules@,
            ));
        }
        rules
    }

    /// Processes a declarative macro definition. Only a definition explicitly
    /// marked exported is recorded; it is then public by definition. Returns
    /// the new node's id when one was recorded.
    pub fn process_declarative_macro(&mut self, m: MacroDefInput) -> (r: Option<NodeId>)
        requires
            old(self).wf(),
            old(self).next_node_id + m.tokens@.len() + 3 <= usize::MAX,
        ensures
            final(self).wf(),
            builder_frame(*old(self), *final(self)),
            final(self).code_graph.functions == old(self).code_graph.functions,
            final(self).code_graph.defined_types == old(self).code_graph.defined_types,
            final(self).code_graph.type_graph == old(self).code_graph.type_graph,
            final(self).code_graph.impls == old(self).code_graph.impls,
            final(self).code_graph.traits == old(self).code_graph.traits,
            final(self).code_graph.private_traits == old(self).code_graph.private_traits,
            final(self).code_graph.relations == old(self).code_graph.relations,
            final(self).code_graph.modules == old(self).code_graph.modules,
            final(self).code_graph.values == old(self).code_graph.values,
            final(self).next_type_id == old(self).next_type_id,
            final(self).next_trait_id == old(self).next_trait_id,
            final(self).next_node_id <= old(self).next_node_id + m.tokens@.len() + 3,
            !spec_is_exported(m.attrs@) ==> r is None && final(self).code_graph.macros == old(self).code_graph.macros && final(self).next_node_id == old(self).next_node_id,
            spec_is_exported(m.attrs@) ==> r is Some && old(self).next_node_id < final(self).next_node_id && final(self).code_graph.macros@.len()
                == old(self).code_graph.macros@.len() + 1 && {
                let node = final(self).code_graph.macros@.last();
                &&& node.id == r->Some_0
                &&& node.id == (NodeId { type_prefix: NodeType::Node, unique_id: old(self).next_node_id })
                &&& node.visibility == VisibilityKind::Public
                &&& node.kind == MacroKind::DeclarativeMacro
                &&& match m.name {
                    Some(nm) => node.name == nm,
                    None => node.name@ == "unnamed_macro"@,
                }
                &&& opt_view(node.docstring) == spec_docstring(m.attrs@)
                &&& match node.body {
                    Some(b) => b@ == m.tokens@,
                    None => false,
                }
                &&& rule_pairs(node.rules@) == spec_macro_rules(m.tokens@)
            },
    {
        let MacroDefInput { name, attrs, tokens } = m;
        if !has_attr(&attrs, "macro_export") {
            return None;
        }
        let macro_id = self.alloc_id(NodeType::Node);
        let macro_name = match name {
            Some(nm) => nm,
            None => String::from_str("unnamed_macro"),
        };
        let body = Some(tokens.clone());
        let docstring = extract_docstring(&attrs);
        let attributes = extract_attributes(attrs);
        let ghost s_id = *self;
        let rules = self.parse_macro_rules(tokens.as_str());
        let node = MacroNode {
            id: macro_id,
            name: macro_name,
            visibility: VisibilityKind::Public,
            kind: MacroKind::DeclarativeMacro,
            rules,
            attributes,
            docstring,
            body,
            expansion: None,
            parent_function: None,
        };
        self.add_macro(node);
        proof {
            crate::parser::visitor::state::lemma_builder_frame_trans(*old(self), s_id, *self);
        }
        Some(macro_id)
    }

    /// Records a procedural macro function: a derive, attribute, or
    /// function-like code generator, with no declarative rule list. The
    /// function item itself is still processed separately.
    pub fn process_proc_macro(&mut self, f: &FnInput) -> (r: NodeId)
        requires
            old(self).wf(),
            old(self).next_node_id < usize::MAX,
        ensures
            final(self).wf(),
            builder_frame(*old(self), *final(self)),
            final(self).code_graph.functions == old(self).code_graph.functions,
            final(self).code_graph.defined_types == old(self).code_graph.defined_types,
            final(self).code_graph.type_graph == old(self).code_graph.type_graph,
            final(self).code_graph.impls == old(self).code_graph.impls,
            final(self).code_graph.traits == old(self).code_graph.traits,
            final(self).code_graph.private_traits == old(self).code_graph.private_traits,
            final(self).code_graph.relations == old(self).code_graph.relations,
            final(self).code_graph.modules == old(self).code_graph.modules,
            final(self).code_graph.values == old(self).code_graph.values,
            final(self).next_type_id == old(self).next_type_id,
            final(self).next_trait_id == old(self).next_trait_id,
            final(self).next_node_id == old(self).next_node_id + 1,
            final(self).code_graph.macros@.len() == old(self).code_graph.macros@.len() + 1,
            final(self).code_graph.macros@.last().name@ == f.name@,
            final(self).code_graph.macros@.last().id == r,
            final(self).code_graph.macros@.last().rules@.len() == 0,
            final(self).code_graph.macros@.last().visibility == VisibilityKind::Public
                || !(f.vis is Public),
            match final(self).code_graph.macros@.last().kind {
                MacroKind::ProcedureMacro { kind } => {
                    if spec_has_attr(f.attrs@, "proc_macro_derive"@) {
                        kind == ProcMacroKind::Derive
                    } else if spec_has_attr(f.attrs@, "proc_macro_attribute"@) {
                        kind == ProcMacroKind::Attribute
                    } else {
                        kind == ProcMacroKind::Function
                    }
                },
                _ => false,
            },
    {
        let macro_id = self.alloc_id(NodeType::Node);
        let proc_macro_kind = if has_attr(&f.attrs, "proc_macro_derive") {
            ProcMacroKind::Derive
        } else if has_attr(&f.attrs, "proc_macro_attribute") {
            ProcMacroKind::Attribute
        } else {
            ProcMacroKind::Function
        };
        let docstring = extract_docstring(&f.attrs);
        let attributes = extract_attributes(f.attrs.clone());
        let node = MacroNode {
            id: macro_id,
            name: f.name.clone(),
            visibility: visibility_of(&f.vis),
            kind: MacroKind::ProcedureMacro { kind: proc_macro_kind },
            rules: Vec::new(),
            attributes,
            docstring,
            body: crate::parser::visitor::utils::clone_opt_string(&f.body),
            expansion: None,
            parent_function: None,
        };
        self.add_macro(node);
        macro_id
    }

    /// Index of the recorded macro with the given name; no recorded macro
    /// carries the name when the result is absent.
    pub fn find_macro_by_name(&self, name: &String) -> (r: Option<usize>)
        ensures
            match r {
                Some(k) => k < self.code_graph.macros@.len()
                    && self.code_graph.macros@[k as int].name@ == name@,
                None => forall|k: int|
                    0 <= k < self.code_graph.macros@.len() ==> (
                    #[trigger] self.code_graph.macros@[k]).name@ != name@,
            },
    {
        let mut k: usize = 0;
        while k < self.code_graph.macros.len()
            invariant
                k <= self.code_graph.macros@.len(),
                forall|j: int|
                    0 <= j < k ==> (#[trigger] self.code_graph.macros@[j]).name@ != name@,
            decreases self.code_graph.macros@.len() - k,
        {
            if self.code_graph.macros[k].name == *name {
                return Some(k);
            }
            k += 1;
        }
        None
    }

    /// Records a macro invocation site and, when a recorded macro matches the
    /// invoked path's last segment by name, a use relation to its definition.
    pub fn process_macro_invocation(&mut self, mc: MacroCallInput) -> (r: NodeId)
        requires
            old(self).wf(),
            old(self).next_node_id < usize::MAX,
        ensures
            final(self).wf(),
            builder_frame(*old(self), *final(self)),
            final(self).code_graph.functions == old(self).code_graph.functions,
            final(self).code_graph.defined_types == old(self).code_graph.defined_types,
            final(self).code_graph.type_graph == old(self).code_graph.type_graph,
            final(self).code_graph.impls == old(self).code_graph.impls,
            final(self).code_graph.traits == old(self).code_graph.traits,
            final(self).code_graph.private_traits == old(self).code_graph.private_traits,
            final(self).code_graph.modules == old(self).code_graph.modules,
            final(self).code_graph.values == old(self).code_graph.values,
            final(self).code_graph.macros == old(self).code_graph.macros,
            final(self).next_type_id == old(self).next_type_id,
            final(self).next_trait_id == old(self).next_trait_id,
            final(self).next_node_id == old(self).next_node_id + 1,
            r == (NodeId { type_prefix: NodeType::Node, unique_id: old(self).next_node_id }),
            (mc.path@.len() > 0 && (exists|k: int|
                0 <= k < old(self).code_graph.macros@.len() && (#[trigger] old(self).code_graph.macros@[k]).name@ == mc.path@.last()@)) ==> final(self).code_graph.relations@.len() == old(self).code_graph.relations@.len() + 1 && (
            exists|k: int|
                0 <= k < old(self).code_graph.macros@.len() && (#[trigger] old(self).code_graph.macros@[k]).name@ == mc.path@.last()@ && final(self).code_graph.relations@.last() == (Relation {
                    source: r,
                    target: old(self).code_graph.macros@[k].id,
                    kind: RelationKind::MacroUse,
                })),
            !(mc.path@.len() > 0 && (exists|k: int|
                0 <= k < old(self).code_graph.macros@.len() && (#[trigger] old(self).code_graph.macros@[k]).name@ == mc.path@.last()@)) ==> final(self).code_graph.relations == old(self).code_graph.relations,
    {
        let invocation_id = self.alloc_id(NodeType::Node);
        let ghost s_id = *self;
        if mc.path.len() > 0 {
            let last = &mc.path[mc.path.len() - 1];
            match self.find_macro_by_name(last) {
                Some(k) => {
                    let target = self.code_graph.macros[k].id;
                    self.add_relation(
                        Relation { source: invocation_id, target, kind: RelationKind::MacroUse },
                    );
                    proof {
                        crate::parser::visitor::state::lemma_builder_frame_trans(
                            *old(self),
                            s_id,
                            *self,
                        );
                    }
                },
                None => {},
            }
        }
        invocation_id
    }
}

} // verus!
