//! The type interner: canonical text of type expressions, the deduplicating
//! `get_or_create_type`, and the decomposition of a type expression into a
//! table entry.

use vstd::prelude::*;
use vstd::string::StringExecFns;
use crate::parser::graph::graph_extends;
use crate::parser::input::{
    size_bound, size_bounds, size_segment, size_segments, size_type, size_types, PathArgs,
    PathSegment, TypeBound, TypeExpr,
};
use crate::parser::types::{TypeId, TypeKind, TypeNode};
use crate::parser::visitor::state::{
    cache_preserves, lemma_lookup_push, lemma_lookup_some_index, spec_cache_lookup, VisitorState,
};

verus! {

/// Canonical text of a type expression: the interning key.
pub open spec fn key_of(t: TypeExpr) -> Seq<char>
    decreases t,
{
    match t {
        TypeExpr::Path { qualified, segments } => (if qualified {
            "<Q>"@
        } else {
            Seq::<char>::empty()
        }) + key_of_segments(segments@),
        TypeExpr::Reference { lifetime, mutable, target } => "&"@ + (match lifetime {
            Some(l) => "'"@ + l@ + " "@,
            None => Seq::<char>::empty(),
        }) + (if mutable {
            "mut "@
        } else {
            Seq::<char>::empty()
        }) + key_of(*target),
        TypeExpr::Slice { elem } => "["@ + key_of(*elem) + "]"@,
        TypeExpr::Array { elem, size } => "["@ + key_of(*elem) + "; "@ + (match size {
            Some(s) => s@,
            None => Seq::<char>::empty(),
        }) + "]"@,
        TypeExpr::Tuple { elems } => "("@ + key_of_types(elems@) + ")"@,
        TypeExpr::BareFn { is_unsafe, is_extern, abi, params, ret } => (if is_unsafe {
            "unsafe "@
        } else {
            Seq::<char>::empty()
        }) + (if is_extern {
            "extern "@ + (match abi {
                Some(a) => a@ + " "@,
                None => Seq::<char>::empty(),
            })
        } else {
            Seq::<char>::empty()
        }) + "fn("@ + key_of_types(params@) + ")"@ + (match ret {
            Some(r) => " -> "@ + key_of(*r),
            None => Seq::<char>::empty(),
        }),
        TypeExpr::Never => "!"@,
        TypeExpr::Inferred => "_"@,
        TypeExpr::RawPointer { mutable, pointee } => "*"@ + (if mutable {
            "mut "@
        } else {
            "const "@
        }) + key_of(*pointee),
        TypeExpr::TraitObject { dyn_token, bounds } => (if dyn_token {
            "dyn "@
        } else {
            Seq::<char>::empty()
        }) + key_of_bounds(bounds@),
        TypeExpr::ImplTrait { bounds } => "impl "@ + key_of_bounds(bounds@),
        TypeExpr::Paren { inner } => "("@ + key_of(*inner) + ")"@,
        TypeExpr::MacroCall { name, tokens } => name@ + "!("@ + tokens@ + ")"@,
        TypeExpr::Verbatim { text } => text@,
    }
}

/// Canonical text of a type list; every element carries a trailing comma.
pub open spec fn key_of_types(s: Seq<TypeExpr>) -> Seq<char>
    decreases s,
{
    if s.len() == 0 {
        Seq::<char>::empty()
    } else {
        key_of(s[0]) + ","@ + key_of_types(s.drop_first())
    }
}

/// Canonical text of a path; every segment carries a trailing separator.
pub open spec fn key_of_segments(s: Seq<PathSegment>) -> Seq<char>
    decreases s,
{
    if s.len() == 0 {
        Seq::<char>::empty()
    } else {
        key_of_segment(s[0]) + "::"@ + key_of_segments(s.drop_first())
    }
}

/// Canonical text of one path segment.
pub open spec fn key_of_segment(s: PathSegment) -> Seq<char>
    decreases s,
{
    s.ident@ + match s.args {
        PathArgs::Empty => Seq::<char>::empty(),
        PathArgs::Angle(args) => "<"@ + key_of_types(args@) + ">"@,
        PathArgs::Parenthesized { inputs, output } => "("@ + key_of_types(inputs@) + ")"@
            + (match output {
            Some(o) => " -> "@ + key_of(*o),
            None => Seq::<char>::empty(),
        }),
    }
}

/// Canonical text of a bound list; every bound carries a trailing plus.
pub open spec fn key_of_bounds(s: Seq<TypeBound>) -> Seq<char>
    decreases s,
{
    if s.len() == 0 {
        Seq::<char>::empty()
    } else {
        key_of_bound(s[0]) + "+"@ + key_of_bounds(s.drop_first())
    }
}

/// Canonical text of one bound.
pub open spec fn key_of_bound(b: TypeBound) -> Seq<char>
    decreases b,
{
    match b {
        TypeBound::Trait(segments) => key_of_segments(segments@),
        TypeBound::Lifetime(l) => "'"@ + l@,
        TypeBound::Other(t) => t@,
    }
}

proof fn lemma_key_types_push(s: Seq<TypeExpr>, x: TypeExpr)
    ensures
        key_of_types(s.push(x)) == key_of_types(s) + (key_of(x) + ","@),
    decreases s.len(),
{
    let p = s.push(x);
    if s.len() == 0 {
        assert(p[0] == x);
        assert(p.drop_first() =~= Seq::<TypeExpr>::empty());
        assert(key_of_types(p.drop_first()) == Seq::<char>::empty());
        assert(key_of_types(p) == key_of(x) + ","@ + key_of_types(p.drop_first()));
        assert(key_of_types(p) =~= key_of_types(s) + (key_of(x) + ","@));
    } else {
        assert(p[0] == s[0]);
        assert(p.drop_first() =~= s.drop_first().push(x));
        lemma_key_types_push(s.drop_first(), x);
        assert(key_of_types(p) == key_of(s[0]) + ","@ + key_of_types(p.drop_first()));
        assert(key_of_types(p) =~= key_of_types(s) + (key_of(x) + ","@));
    }
}

proof fn lemma_key_segments_push(s: Seq<PathSegment>, x: PathSegment)
    ensures
        key_of_segments(s.push(x)) == key_of_segments(s) + (key_of_segment(x) + "::"@),
    decreases s.len(),
{
    let p = s.push(x);
    if s.len() == 0 {
        assert(p[0] == x);
        assert(p.drop_first() =~= Seq::<PathSegment>::empty());
        assert(key_of_segments(p.drop_first()) == Seq::<char>::empty());
        assert(key_of_segments(p) == key_of_segment(x) + "::"@ + key_of_segments(p.drop_first()));
        assert(key_of_segments(p) =~= key_of_segments(s) + (key_of_segment(x) + "::"@));
    } else {
        assert(p[0] == s[0]);
        assert(p.drop_first() =~= s.drop_first().push(x));
        lemma_key_segments_push(s.drop_first(), x);
        assert(key_of_segments(p) == key_of_segment(s[0]) + "::"@ + key_of_segments(p.drop_first()));
        assert(key_of_segments(p) =~= key_of_segments(s) + (key_of_segment(x) + "::"@));
    }
}

proof fn lemma_key_bounds_push(s: Seq<TypeBound>, x: TypeBound)
    ensures
        key_of_bounds(s.push(x)) == key_of_bounds(s) + (key_of_bound(x) + "+"@),
    decreases s.len(),
{
    let p = s.push(x);
    if s.len() == 0 {
        assert(p[0] == x);
        assert(p.drop_first() =~= Seq::<TypeBound>::empty());
        assert(key_of_bounds(p.drop_first()) == Seq::<char>::empty());
        assert(key_of_bounds(p) == key_of_bound(x) + "+"@ + key_of_bounds(p.drop_first()));
        assert(key_of_bounds(p) =~= key_of_bounds(s) + (key_of_bound(x) + "+"@));
    } else {
        assert(p[0] == s[0]);
        assert(p.drop_first() =~= s.drop_first().push(x));
        lemma_key_bounds_push(s.drop_first(), x);
        assert(key_of_bounds(p) == key_of_bound(s[0]) + "+"@ + key_of_bounds(p.drop_first()));
        assert(key_of_bounds(p) =~= key_of_bounds(s) + (key_of_bound(x) + "+"@));
    }
}

/// Every element's canonical text is strictly shorter than its list's: the
/// trailing separator adds at least one character per element.
proof fn lemma_key_types_elem(s: Seq<TypeExpr>, i: int)
    requires
        0 <= i < s.len(),
    ensures
        key_of(s[i]).len() + 1 <= key_of_types(s).len(),
    decreases i,
{
    reveal_strlit(",");
    if i == 0 {
        assert(key_of_types(s) == key_of(s[0]) + ","@ + key_of_types(s.drop_first()));
    } else {
        lemma_key_types_elem(s.drop_first(), i - 1);
        assert(s.drop_first()[i - 1] == s[i]);
        assert(key_of_types(s) == key_of(s[0]) + ","@ + key_of_types(s.drop_first()));
    }
}

/// Every segment's canonical text is strictly shorter than its path's.
proof fn lemma_key_segments_elem(s: Seq<PathSegment>, i: int)
    requires
        0 <= i < s.len(),
    ensures
        key_of_segment(s[i]).len() + 2 <= key_of_segments(s).len(),
    decreases i,
{
    reveal_strlit("::");
    if i == 0 {
        assert(key_of_segments(s) == key_of_segment(s[0]) + "::"@ + key_of_segments(
            s.drop_first(),
        ));
    } else {
        lemma_key_segments_elem(s.drop_first(), i - 1);
        assert(s.drop_first()[i - 1] == s[i]);
        assert(key_of_segments(s) == key_of_segment(s[0]) + "::"@ + key_of_segments(
            s.drop_first(),
        ));
    }
}

/// Every key newly cached between the two states is at most `bound` long.
pub open spec fn new_keys_bounded(
    pre: Seq<(String, TypeId)>,
    post: Seq<(String, TypeId)>,
    bound: nat,
) -> bool {
    forall|k: Seq<char>|
        spec_cache_lookup(pre, k) is None && #[trigger] spec_cache_lookup(post, k) is Some
            ==> k.len() <= bound
}

/// Every key newly cached between the two states is shorter than `bound`.
pub open spec fn new_keys_below(
    pre: Seq<(String, TypeId)>,
    post: Seq<(String, TypeId)>,
    bound: nat,
) -> bool {
    forall|k: Seq<char>|
        spec_cache_lookup(pre, k) is None && #[trigger] spec_cache_lookup(post, k) is Some
            ==> k.len() < bound
}

/// Renders the canonical text of a type expression.
pub fn render_key(t: &TypeExpr) -> (r: String)
    ensures
        r@ == key_of(*t),
    decreases *t,
{
    match t {
        TypeExpr::Path { qualified, segments } => {
            let mut acc = String::new();
            if *qualified {
                acc.append("<Q>");
            }
            let rest = render_segments(segments);
            acc.append(rest.as_str());
            proof {
                assert(acc@ =~= key_of(*t));
            }
            acc
        },
        TypeExpr::Reference { lifetime, mutable, target } => {
            let mut acc = String::new();
            acc.append("&");
            match lifetime {
                Some(l) => {
                    acc.append("'");
                    acc.append(l.as_str());
                    acc.append(" ");
                },
                None => {},
            }
            if *mutable {
                acc.append("mut ");
            }
            let inner = render_key(target);
            acc.append(inner.as_str());
            proof {
                assert(acc@ =~= key_of(*t));
            }
            acc
        },
        TypeExpr::Slice { elem } => {
            let mut acc = String::new();
            acc.append("[");
            let inner = render_key(elem);
            acc.append(inner.as_str());
            acc.append("]");
            proof {
                assert(acc@ =~= key_of(*t));
            }
            acc
        },
        TypeExpr::Array { elem, size } => {
            let mut acc = String::new();
            acc.append("[");
            let inner = render_key(elem);
            acc.append(inner.as_str());
            acc.append("; ");
            match size {
                Some(s) => {
                    acc.append(s.as_str());
                },
                None => {},
            }
            acc.append("]");
            proof {
                assert(acc@ =~= key_of(*t));
            }
            acc
        },
        TypeExpr::Tuple { elems } => {
            let mut acc = String::new();
            acc.append("(");
            let inner = render_types(elems);
            acc.append(inner.as_str());
            acc.append(")");
            proof {
                assert(acc@ =~= key_of(*t));
            }
            acc
        },
        TypeExpr::BareFn { is_unsafe, is_extern, abi, params, ret } => {
            let mut acc = String::new();
            if *is_unsafe {
                acc.append("unsafe ");
            }
            if *is_extern {
                acc.append("extern ");
                match abi {
                    Some(a) => {
                        acc.append(a.as_str());
                        acc.append(" ");
                    },
                    None => {},
                }
            }
            acc.append("fn(");
            let inner = render_types(params);
            acc.append(inner.as_str());
            acc.append(")");
            match ret {
                Some(r) => {
                    acc.append(" -> ");
                    let out = render_key(r);
                    acc.append(out.as_str());
                },
                None => {},
            }
            proof {
                assert(acc@ =~= key_of(*t));
            }
            acc
        },
        TypeExpr::Never => {
            let mut acc = String::new();
            acc.append("!");
            proof {
                assert(acc@ =~= key_of(*t));
            }
            acc
        },
        TypeExpr::Inferred => {
            let mut acc = String::new();
            acc.append("_");
            proof {
                assert(acc@ =~= key_of(*t));
            }
            acc
        },
        TypeExpr::RawPointer { mutable, pointee } => {
            let mut acc = String::new();
            acc.append("*");
            if *mutable {
                acc.append("mut ");
            } else {
                acc.append("const ");
            }
            let inner = render_key(pointee);
            acc.append(inner.as_str());
            proof {
                assert(acc@ =~= key_of(*t));
            }
            acc
        },
        TypeExpr::TraitObject { dyn_token, bounds } => {
            let mut acc = String::new();
            if *dyn_token {
                acc.append("dyn ");
            }
            let inner = render_bounds(bounds);
            acc.append(inner.as_str());
            proof {
                assert(acc@ =~= key_of(*t));
            }
            acc
        },
        TypeExpr::ImplTrait { bounds } => {
            let mut acc = String::new();
            acc.append("impl ");
            let inner = render_bounds(bounds);
            acc.append(inner.as_str());
            proof {
                assert(acc@ =~= key_of(*t));
            }
            acc
        },
        TypeExpr::Paren { inner } => {
            let mut acc = String::new();
            acc.append("(");
            let s = render_key(inner);
            acc.append(s.as_str());
            acc.append(")");
            proof {
                assert(acc@ =~= key_of(*t));
            }
            acc
        },
        TypeExpr::MacroCall { name, tokens } => {
            let mut acc = String::new();
            acc.append(name.as_str());
            acc.append("!(");
            acc.append(tokens.as_str());
            acc.append(")");
            proof {
                assert(acc@ =~= key_of(*t));
            }
            acc
        },
        TypeExpr::Verbatim { text } => {
            let mut acc = String::new();
            acc.append(text.as_str());
            proof {
                assert(acc@ =~= key_of(*t));
            }
            acc
        },
    }
}

/// Renders the canonical text of a type list.
pub fn render_types(v: &Vec<TypeExpr>) -> (r: String)
    ensures
        r@ == key_of_types(v@),
    decreases *v,
{
    let mut acc = String::new();
    let mut i: usize = 0;
    proof {
        assert(v@.take(0) =~= Seq::<TypeExpr>::empty());
    }
    while i < v.len()
        invariant
            i <= v@.len(),
            acc@ == key_of_types(v@.take(i as int)),
        decreases v@.len() - i,
    {
        let s = render_key(&v[i]);
        acc.append(s.as_str());
        acc.append(",");
        proof {
            lemma_key_types_push(v@.take(i as int), v@[i as int]);
            assert(v@.take(i as int + 1) =~= v@.take(i as int).push(v@[i as int]));
            assert(acc@ =~= key_of_types(v@.take(i as int + 1)));
        }
        i += 1;
    }
    proof {
        assert(v@.take(v@.len() as int) =~= v@);
    }
    acc
}

/// Renders the canonical text of a path.
pub fn render_segments(v: &Vec<PathSegment>) -> (r: String)
    ensures
        r@ == key_of_segments(v@),
    decreases *v,
{
    let mut acc = String::new();
    let mut i: usize = 0;
    proof {
        assert(v@.take(0) =~= Seq::<PathSegment>::empty());
    }
    while i < v.len()
        invariant
            i <= v@.len(),
            acc@ == key_of_segments(v@.take(i as int)),
        decreases v@.len() - i,
    {
        let seg = &v[i];
        acc.append(seg.ident.as_str());
        match &seg.args {
            PathArgs::Empty => {},
            PathArgs::Angle(args) => {
                acc.append("<");
                let s = render_types(args);
                acc.append(s.as_str());
                acc.append(">");
            },
            PathArgs::Parenthesized { inputs, output } => {
                acc.append("(");
                let s = render_types(inputs);
                acc.append(s.as_str());
                acc.append(")");
                match output {
                    Some(o) => {
                        acc.append(" -> ");
                        let out = render_key(o);
                        acc.append(out.as_str());
                    },
                    None => {},
                }
            },
        }
        acc.append("::");
        proof {
            lemma_key_segments_push(v@.take(i as int), v@[i as int]);
            assert(v@.take(i as int + 1) =~= v@.take(i as int).push(v@[i as int]));
            assert(acc@ =~= key_of_segments(v@.take(i as int + 1)));
        }
        i += 1;
    }
    proof {
        assert(v@.take(v@.len() as int) =~= v@);
    }
    acc
}

/// Renders the canonical text of a bound list.
pub fn render_bounds(v: &Vec<TypeBound>) -> (r: String)
    ensures
        r@ == key_of_bounds(v@),
    decreases *v,
{
    let mut acc = String::new();
    let mut i: usize = 0;
    proof {
        assert(v@.take(0) =~= Seq::<TypeBound>::empty());
    }
    while i < v.len()
        invariant
            i <= v@.len(),
            acc@ == key_of_bounds(v@.take(i as int)),
        decreases v@.len() - i,
    {
        match &v[i] {
            TypeBound::Trait(segments) => {
                let s = render_segments(segments);
                acc.append(s.as_str());
            },
            TypeBound::Lifetime(l) => {
                acc.append("'");
                acc.append(l.as_str());
            },
            TypeBound::Other(text) => {
                acc.append(text.as_str());
            },
        }
        acc.append("+");
        proof {
            lemma_key_bounds_push(v@.take(i as int), v@[i as int]);
            assert(v@.take(i as int + 1) =~= v@.take(i as int).push(v@[i as int]));
            assert(acc@ =~= key_of_bounds(v@.take(i as int + 1)));
        }
        i += 1;
    }
    proof {
        assert(v@.take(v@.len() as int) =~= v@);
    }
    acc
}

/// What type interning never touches: declaration and trait counters, every
/// graph collection but the type table, and every cache entry already made.
/// A state whose cache rows all decompose keeps that property while the
/// cache itself is unchanged and the type table only grows.
pub proof fn lemma_cache_decomposes_preserved(a: VisitorState, b: VisitorState)
    requires
        a.cache_decomposes(),
        b.type_map@ == a.type_map@,
        a.code_graph.type_graph@.is_prefix_of(b.code_graph.type_graph@),
    ensures
        b.cache_decomposes(),
{
    assert forall|i: int| 0 <= i < b.type_map@.len() implies #[trigger] b.entry_decomposes(
        i,
    ) by {
        assert(a.entry_decomposes(i));
        let t0 = choose|t0: TypeExpr|
            key_of(t0) == (a.type_map@[i]).0@ && a.type_map@[i].1.0
                < a.code_graph.type_graph@.len() && decomposition_matches(
                t0,
                a.code_graph.type_graph@[a.type_map@[i].1.0 as int].kind,
                a.code_graph.type_graph@[a.type_map@[i].1.0 as int].related_types@,
                a,
            );
        let id = a.type_map@[i].1.0 as int;
        assert(b.code_graph.type_graph@[id] == a.code_graph.type_graph@[id]);
        lemma_decomposition_preserved(
            t0,
            a.code_graph.type_graph@[id].kind,
            a.code_graph.type_graph@[id].related_types@,
            a,
            b,
        );
        assert(key_of(t0) == b.type_map@[i].0@ && b.type_map@[i].1.0
            < b.code_graph.type_graph@.len() && decomposition_matches(
            t0,
            b.code_graph.type_graph@[b.type_map@[i].1.0 as int].kind,
            b.code_graph.type_graph@[b.type_map@[i].1.0 as int].related_types@,
            b,
        ));
    }
}

pub open spec fn intern_frame(pre: VisitorState, post: VisitorState) -> bool {
    &&& post.next_node_id == pre.next_node_id
    &&& post.next_trait_id == pre.next_trait_id
    &&& post.code_graph.functions == pre.code_graph.functions
    &&& post.code_graph.defined_types == pre.code_graph.defined_types
    &&& post.code_graph.impls == pre.code_graph.impls
    &&& post.code_graph.traits == pre.code_graph.traits
    &&& post.code_graph.private_traits == pre.code_graph.private_traits
    &&& post.code_graph.relations == pre.code_graph.relations
    &&& post.code_graph.modules == pre.code_graph.modules
    &&& post.code_graph.values == pre.code_graph.values
    &&& post.code_graph.macros == pre.code_graph.macros
    &&& pre.code_graph.type_graph@.is_prefix_of(post.code_graph.type_graph@)
    &&& pre.next_type_id <= post.next_type_id
    &&& cache_preserves(pre.type_map@, post.type_map@)
    &&& forall|k: Seq<char>|
        spec_cache_lookup(pre.type_map@, k) is None && #[trigger] spec_cache_lookup(
            post.type_map@,
            k,
        ) is Some ==> spec_cache_lookup(post.type_map@, k)->Some_0.0 >= pre.next_type_id
}

/// What one interning call guarantees: a well-formed state in which the key
/// resolves to the returned id, reached without touching anything but the
/// type table and the cache.
pub open spec fn intern_post(
    pre: VisitorState,
    post: VisitorState,
    key: Seq<char>,
    r: TypeId,
) -> bool {
    &&& post.wf()
    &&& intern_frame(pre, post)
    &&& spec_cache_lookup(post.type_map@, key) == Some(r)
    &&& r.0 < post.next_type_id
}

/// The nested type expressions one path segment carries, in walk order.
pub open spec fn seg_args(s: PathSegment) -> Seq<TypeExpr> {
    match s.args {
        PathArgs::Empty => Seq::<TypeExpr>::empty(),
        PathArgs::Angle(args) => args@,
        PathArgs::Parenthesized { inputs, output } => inputs@ + (match output {
            Some(o) => seq![*o],
            None => Seq::<TypeExpr>::empty(),
        }),
    }
}

/// The nested type expressions a path carries, in walk order.
pub open spec fn path_args(segs: Seq<PathSegment>) -> Seq<TypeExpr>
    decreases segs,
{
    if segs.len() == 0 {
        Seq::<TypeExpr>::empty()
    } else {
        seg_args(segs[0]) + path_args(segs.drop_first())
    }
}

/// The identifier texts of a path's segments, in order.
pub open spec fn path_idents(segs: Seq<PathSegment>) -> Seq<String>
    decreases segs,
{
    if segs.len() == 0 {
        Seq::<String>::empty()
    } else {
        seq![segs[0].ident] + path_idents(segs.drop_first())
    }
}

proof fn lemma_path_idents_push(s: Seq<PathSegment>, x: PathSegment)
    ensures
        path_idents(s.push(x)) == path_idents(s) + seq![x.ident],
    decreases s.len(),
{
    let p = s.push(x);
    if s.len() == 0 {
        assert(p[0] == x);
        assert(p.drop_first() =~= Seq::<PathSegment>::empty());
        assert(path_idents(p) == seq![x.ident] + path_idents(p.drop_first()));
        assert(path_idents(p.drop_first()) == Seq::<String>::empty());
        assert(seq![x.ident] + Seq::<String>::empty() =~= Seq::<String>::empty() + seq![x.ident]);
        assert(path_idents(p) =~= path_idents(s) + seq![x.ident]);
    } else {
        assert(p[0] == s[0]);
        assert(p.drop_first() =~= s.drop_first().push(x));
        lemma_path_idents_push(s.drop_first(), x);
        assert(path_idents(p) == seq![p[0].ident] + path_idents(p.drop_first()));
        assert(path_idents(s) == seq![s[0].ident] + path_idents(s.drop_first()));
        assert(path_idents(p) =~= path_idents(s) + seq![x.ident]);
    }
}

proof fn lemma_path_args_push(s: Seq<PathSegment>, x: PathSegment)
    ensures
        path_args(s.push(x)) == path_args(s) + seg_args(x),
    decreases s.len(),
{
    let p = s.push(x);
    if s.len() == 0 {
        assert(p[0] == x);
        assert(p.drop_first() =~= Seq::<PathSegment>::empty());
        assert(path_args(p) == seg_args(x) + path_args(p.drop_first()));
        assert(path_args(p.drop_first()) == Seq::<TypeExpr>::empty());
        assert(seg_args(x) + Seq::<TypeExpr>::empty() =~= Seq::<TypeExpr>::empty() + seg_args(x));
        assert(path_args(p) =~= path_args(s) + seg_args(x));
    } else {
        assert(p[0] == s[0]);
        assert(p.drop_first() =~= s.drop_first().push(x));
        lemma_path_args_push(s.drop_first(), x);
        assert(path_args(p) == seg_args(p[0]) + path_args(p.drop_first()));
        assert(path_args(s) == seg_args(s[0]) + path_args(s.drop_first()));
        assert(p.drop_first() == s.drop_first().push(x));
        assert(path_args(p.drop_first()) == path_args(s.drop_first()) + seg_args(x));
        assert(path_args(p) == seg_args(s[0]) + (path_args(s.drop_first()) + seg_args(x)));
        assert((seg_args(s[0]) + path_args(s.drop_first())) + seg_args(x) =~= seg_args(s[0]) + (
        path_args(s.drop_first()) + seg_args(x)));
        assert(path_args(p) == path_args(s) + seg_args(x));
    }
}

/// Each id is what the interning cache holds for the matching expression's
/// canonical text, position by position.
pub open spec fn ids_are_interned(
    ids: Seq<TypeId>,
    tys: Seq<TypeExpr>,
    m: Seq<(String, TypeId)>,
) -> bool {
    &&& ids.len() == tys.len()
    &&& forall|i: int|
        0 <= i < ids.len() ==> spec_cache_lookup(m, key_of(tys[i])) == Some(#[trigger] ids[i])
}

/// One fresh table entry stands for one bound: a named entry carrying a trait
/// bound's segment names, a lifetime marker for a lifetime bound, an
/// unrecognized entry carrying the raw text otherwise; none carries related
/// ids.
pub open spec fn bound_entry_matches(b: TypeBound, node: TypeNode) -> bool {
    &&& node.related_types@.len() == 0
    &&& match b {
        TypeBound::Trait(segments) => match node.kind {
            TypeKind::Named { path, is_fully_qualified } => path@ == path_idents(segments@)
                && !is_fully_qualified,
            _ => false,
        },
        TypeBound::Lifetime(_) => match node.kind {
            TypeKind::Named { path, is_fully_qualified } => path@.len() == 1 && path@[0]@
                == "lifetime"@ && !is_fully_qualified,
            _ => false,
        },
        TypeBound::Other(text) => match node.kind {
            TypeKind::Unknown { type_str } => type_str == text,
            _ => false,
        },
    }
}

/// Each id names a table entry standing for the matching bound, position by
/// position.
pub open spec fn bound_entries_match(
    ids: Seq<TypeId>,
    bounds: Seq<TypeBound>,
    post: VisitorState,
) -> bool {
    &&& ids.len() == bounds.len()
    &&& forall|i: int|
        0 <= i < ids.len() ==> (#[trigger] ids[i]).0 < post.code_graph.type_graph@.len()
            && bound_entry_matches(bounds[i], post.code_graph.type_graph@[ids[i].0 as int])
}

/// What decomposing a type expression yields: a kind mirroring the
/// expression's shape, names, and flags, with the related ids the interned
/// ids of its nested expressions in walk order — except that trait-object and
/// opaque bound lists are fresh, never-deduplicated entries of their own.
pub open spec fn decomposition_matches(
    ty: TypeExpr,
    kind: TypeKind,
    related: Seq<TypeId>,
    post: VisitorState,
) -> bool {
    match ty {
        TypeExpr::Path { qualified, segments } => match kind {
            TypeKind::Named { path, is_fully_qualified } => {
                &&& path@ == path_idents(segments@)
                &&& is_fully_qualified == qualified
                &&& ids_are_interned(related, path_args(segments@), post.type_map@)
            },
            _ => false,
        },
        TypeExpr::Reference { lifetime, mutable, target } => match kind {
            TypeKind::Reference { lifetime: rl, is_mutable } => rl == lifetime && is_mutable
                == mutable && ids_are_interned(related, seq![*target], post.type_map@),
            _ => false,
        },
        TypeExpr::Slice { elem } => match kind {
            TypeKind::Slice {  } => ids_are_interned(related, seq![*elem], post.type_map@),
            _ => false,
        },
        TypeExpr::Array { elem, size } => match kind {
            TypeKind::Array { size: rs } => rs == size && ids_are_interned(
                related,
                seq![*elem],
                post.type_map@,
            ),
            _ => false,
        },
        TypeExpr::Tuple { elems } => match kind {
            TypeKind::Tuple {  } => ids_are_interned(related, elems@, post.type_map@),
            _ => false,
        },
        TypeExpr::BareFn { is_unsafe, is_extern, abi, params, ret } => match kind {
            TypeKind::Function { is_unsafe: ru, is_extern: re, abi: ra } => {
                &&& ru == is_unsafe
                &&& re == is_extern
                &&& ra == abi
                &&& ids_are_interned(
                    related,
                    params@ + (match ret {
                        Some(r) => seq![*r],
                        None => Seq::<TypeExpr>::empty(),
                    }),
                    post.type_map@,
                )
            },
            _ => false,
        },
        TypeExpr::Never => kind == TypeKind::Never && related.len() == 0,
        TypeExpr::Inferred => kind == TypeKind::Inferred && related.len() == 0,
        TypeExpr::RawPointer { mutable, pointee } => match kind {
            TypeKind::RawPointer { is_mutable } => is_mutable == mutable && ids_are_interned(
                related,
                seq![*pointee],
                post.type_map@,
            ),
            _ => false,
        },
        TypeExpr::TraitObject { dyn_token, bounds } => match kind {
            TypeKind::TraitObject { dyn_token: rd } => rd == dyn_token && bound_entries_match(
                related,
                bounds@,
                post,
            ),
            _ => false,
        },
        TypeExpr::ImplTrait { bounds } => match kind {
            TypeKind::ImplTrait {  } => bound_entries_match(related, bounds@, post),
            _ => false,
        },
        TypeExpr::Paren { inner } => match kind {
            TypeKind::Paren {  } => ids_are_interned(related, seq![*inner], post.type_map@),
            _ => false,
        },
        TypeExpr::MacroCall { name, tokens } => match kind {
            TypeKind::Macro { name: rn, tokens: rt } => rn == name && rt == tokens
                && related.len() == 0,
            _ => false,
        },
        TypeExpr::Verbatim { text } => match kind {
            TypeKind::Unknown { type_str } => type_str == text && related.len() == 0,
            _ => false,
        },
    }
}

/// A decomposition pin survives cache growth and table appends: cached
/// lookups never change and existing entries are never touched.
pub proof fn lemma_decomposition_preserved(
    ty: TypeExpr,
    kind: TypeKind,
    related: Seq<TypeId>,
    a: VisitorState,
    b: VisitorState,
)
    requires
        decomposition_matches(ty, kind, related, a),
        cache_preserves(a.type_map@, b.type_map@),
        a.code_graph.type_graph@.is_prefix_of(b.code_graph.type_graph@),
    ensures
        decomposition_matches(ty, kind, related, b),
{
    match ty {
        TypeExpr::Path { qualified, segments } => {
            assert forall|i: int|
                0 <= i < related.len() implies spec_cache_lookup(
                b.type_map@,
                key_of(path_args(segments@)[i]),
            ) == Some(#[trigger] related[i]) by {
                assert(spec_cache_lookup(a.type_map@, key_of(path_args(segments@)[i])) == Some(
                    related[i],
                ));
            }
        },
        TypeExpr::Reference { target, .. } => {
            assert(spec_cache_lookup(a.type_map@, key_of(seq![*target][0])) == Some(related[0]));
        },
        TypeExpr::Slice { elem } => {
            assert(spec_cache_lookup(a.type_map@, key_of(seq![*elem][0])) == Some(related[0]));
        },
        TypeExpr::Array { elem, .. } => {
            assert(spec_cache_lookup(a.type_map@, key_of(seq![*elem][0])) == Some(related[0]));
        },
        TypeExpr::Tuple { elems } => {
            assert forall|i: int|
                0 <= i < related.len() implies spec_cache_lookup(
                b.type_map@,
                key_of(elems@[i]),
            ) == Some(#[trigger] related[i]) by {
                assert(spec_cache_lookup(a.type_map@, key_of(elems@[i])) == Some(related[i]));
            }
        },
        TypeExpr::BareFn { params, ret, .. } => {
            let tys = params@ + (match ret {
                Some(r) => seq![*r],
                None => Seq::<TypeExpr>::empty(),
            });
            assert forall|i: int|
                0 <= i < related.len() implies spec_cache_lookup(b.type_map@, key_of(tys[i]))
                == Some(#[trigger] related[i]) by {
                assert(spec_cache_lookup(a.type_map@, key_of(tys[i])) == Some(related[i]));
            }
        },
        TypeExpr::Never => {},
        TypeExpr::Inferred => {},
        TypeExpr::RawPointer { pointee, .. } => {
            assert(spec_cache_lookup(a.type_map@, key_of(seq![*pointee][0])) == Some(related[0]));
        },
        TypeExpr::TraitObject { bounds, .. } => {
            assert forall|i: int|
                0 <= i < related.len() implies (#[trigger] related[i]).0
                < b.code_graph.type_graph@.len() && bound_entry_matches(
                bounds@[i],
                b.code_graph.type_graph@[related[i].0 as int],
            ) by {
                assert(b.code_graph.type_graph@[related[i].0 as int]
                    == a.code_graph.type_graph@[related[i].0 as int]);
            }
        },
        TypeExpr::ImplTrait { bounds } => {
            assert forall|i: int|
                0 <= i < related.len() implies (#[trigger] related[i]).0
                < b.code_graph.type_graph@.len() && bound_entry_matches(
                bounds@[i],
                b.code_graph.type_graph@[related[i].0 as int],
            ) by {
                assert(b.code_graph.type_graph@[related[i].0 as int]
                    == a.code_graph.type_graph@[related[i].0 as int]);
            }
        },
        TypeExpr::Paren { inner } => {
            assert(spec_cache_lookup(a.type_map@, key_of(seq![*inner][0])) == Some(related[0]));
        },
        TypeExpr::MacroCall { .. } => {},
        TypeExpr::Verbatim { .. } => {},
    }
}

impl VisitorState {
    /// Canonicalizes a type expression and returns its interned id: the
    /// cached id when the canonical text was seen before, a fresh table entry
    /// otherwise.
    pub fn get_or_create_type(&mut self, ty: TypeExpr) -> (r: TypeId)
        requires
            old(self).wf(),
            old(self).next_type_id + size_type(ty) <= usize::MAX,
        ensures
            intern_post(*old(self), *final(self), key_of(ty), r),
            final(self).next_type_id <= old(self).next_type_id + size_type(ty),
            spec_cache_lookup(old(self).type_map@, key_of(ty)) matches Some(t0) ==> *final(self)
                == *old(self) && r == t0,
            spec_cache_lookup(old(self).type_map@, key_of(ty)) is None ==> r.0 >= old(self).next_type_id,
            new_keys_bounded(old(self).type_map@, final(self).type_map@, key_of(ty).len()),
            spec_cache_lookup(old(self).type_map@, key_of(ty)) is None ==> r.0 < final(self).code_graph.type_graph@.len() && ({
                let node = final(self).code_graph.type_graph@[r.0 as int];
                &&& node.id == r
                &&& decomposition_matches(ty, node.kind, node.related_types@, *final(self))
            }),
        decreases size_type(ty), 2int,
    {
        let key = render_key(&ty);
        let cached = self.cache_get(&key);
        match cached {
            Some(id) => {
                proof {
                    lemma_lookup_some_index(self.type_map@, key@);
                    crate::parser::visitor::state::lemma_prefix_refl(
                        self.code_graph.type_graph@,
                    );
                }
                return id;
            },
            None => {},
        }
        let kind_related = self.process_type(ty);
        let ghost s1 = *self;
        proof {
            // A nested interning never caches the enclosing key: every key it
            // adds is strictly shorter than this one.
            assert(spec_cache_lookup(self.type_map@, key@) is None) by {
                if spec_cache_lookup(self.type_map@, key@) is Some {
                    assert(key@.len() < key_of(ty).len());
                }
            }
        }
        let id = self.push_type_node(kind_related.0, kind_related.1);
        let ghost s2 = *self;
        proof {
            assert(id.0 == s1.next_type_id);
            assert forall|i: int| 0 <= i < s2.type_map@.len() implies (
            #[trigger] s2.type_map@[i]).1 != id by {
                assert(s2.type_map@[i].1.0 < s1.next_type_id);
            }
        }
        proof {
            assert(s1.code_graph.type_graph@.is_prefix_of(self.code_graph.type_graph@)) by {
                assert(s1.code_graph.type_graph@ =~= self.code_graph.type_graph@.subrange(
                    0,
                    s1.code_graph.type_graph@.len() as int,
                ));
            }
            lemma_decomposition_preserved(ty, kind_related.0, kind_related.1@, s1, *self);
            assert(self.code_graph.type_graph@[id.0 as int].kind == kind_related.0);
            assert(self.code_graph.type_graph@[id.0 as int].related_types@ == kind_related.1@);
            assert(key_of(ty) == key@);
        }
        self.cache_insert(key, id);
        proof {
            assert(old(self).code_graph.type_graph@.is_prefix_of(
                self.code_graph.type_graph@,
            )) by {
                assert(old(self).code_graph.type_graph@ =~= self.code_graph.type_graph@.subrange(
                    0,
                    old(self).code_graph.type_graph@.len() as int,
                ));
            }
            assert forall|k: Seq<char>| #[trigger]
                spec_cache_lookup(old(self).type_map@, k) is Some implies spec_cache_lookup(
                self.type_map@,
                k,
            ) == spec_cache_lookup(old(self).type_map@, k) by {
                assert(spec_cache_lookup(s1.type_map@, k) == spec_cache_lookup(
                    old(self).type_map@,
                    k,
                ));
                assert(spec_cache_lookup(s2.type_map@, k) is Some);
            }
            assert forall|k: Seq<char>|
                spec_cache_lookup(old(self).type_map@, k) is None && #[trigger] spec_cache_lookup(
                    self.type_map@,
                    k,
                ) is Some implies spec_cache_lookup(self.type_map@, k)->Some_0.0 >= old(self).next_type_id by {
                lemma_lookup_push(s2.type_map@, key, id, k);
                if spec_cache_lookup(s2.type_map@, k) is Some {
                    assert(spec_cache_lookup(s1.type_map@, k) is Some);
                    assert(spec_cache_lookup(s1.type_map@, k)->Some_0.0 >= old(self).next_type_id);
                } else {
                    assert(spec_cache_lookup(self.type_map@, k) == Some(id));
                }
            }
            assert forall|k: Seq<char>|
                spec_cache_lookup(old(self).type_map@, k) is None && #[trigger] spec_cache_lookup(
                    self.type_map@,
                    k,
                ) is Some implies k.len() <= key_of(ty).len() by {
                lemma_lookup_push(s2.type_map@, key, id, k);
                if spec_cache_lookup(s2.type_map@, k) is Some {
                    assert(spec_cache_lookup(s1.type_map@, k) is Some);
                    assert(k.len() < key_of(ty).len());
                } else {
                    assert(k == key@);
                }
            }
            assert(self.code_graph.type_graph@[id.0 as int].id == id);
            assert(self.code_graph.type_graph@[id.0 as int].kind == kind_related.0);
            lemma_decomposition_preserved(
                ty,
                self.code_graph.type_graph@[id.0 as int].kind,
                self.code_graph.type_graph@[id.0 as int].related_types@,
                s1,
                *self,
            );
        }
        id
    }

    /// Interns every type expression of a list, in order. Every key this puts
    /// into the cache stays below the given text-length bound.
    #[verifier::loop_isolation(false)]
    pub fn intern_types(&mut self, v: Vec<TypeExpr>, bound: Ghost<nat>) -> (r: Vec<TypeId>)
        requires
            old(self).wf(),
            old(self).next_type_id + size_types(v@) <= usize::MAX,
            forall|i: int| 0 <= i < v@.len() ==> key_of(#[trigger] v@[i]).len() < bound@,
        ensures
            final(self).wf(),
            intern_frame(*old(self), *final(self)),
            final(self).next_type_id <= old(self).next_type_id + size_types(v@),
            forall|i: int|
                0 <= i < r@.len() ==> (#[trigger] r@[i]).0 < final(self).next_type_id,
            ids_are_interned(r@, v@, final(self).type_map@),
            new_keys_below(old(self).type_map@, final(self).type_map@, bound@),
        decreases size_types(v@), 3int,
    {
        let mut v = v;
        let ghost v0 = v@;
        let mut ids: Vec<TypeId> = Vec::new();
        while v.len() > 0
            invariant
                self.wf(),
                intern_frame(*old(self), *self),
                self.next_type_id + size_types(v@) <= old(self).next_type_id + size_types(v0),
                size_types(v@) <= size_types(v0),
                ids@.len() + v@.len() == v0.len(),
                v@ =~= v0.skip(ids@.len() as int),
                forall|i: int|
                    0 <= i < ids@.len() ==> (#[trigger] ids@[i]).0 < self.next_type_id,
                ids_are_interned(ids@, v0.take(ids@.len() as int), self.type_map@),
                new_keys_below(old(self).type_map@, self.type_map@, bound@),
            decreases v@.len(),
        {
            let ghost pre_v = v@;
            let ghost done = ids@.len() as int;
            proof {
                assert(pre_v.remove(0) =~= pre_v.drop_first());
                assert(v0.skip(done).drop_first() =~= v0.skip(done + 1));
            }
            let ghost pre_loop = *self;
            let first = v.remove(0);
            proof {
                assert(size_types(pre_v) == size_type(first) + size_types(v@));
                assert(first == v0[done]);
            }
            let id = self.get_or_create_type(first);
            proof {
                lemma_intern_frame_trans(*old(self), pre_loop, *self);
                assert forall|k: Seq<char>|
                    spec_cache_lookup(old(self).type_map@, k) is None
                        && #[trigger] spec_cache_lookup(self.type_map@, k) is Some implies k.len()
                    < bound@ by {
                    if spec_cache_lookup(pre_loop.type_map@, k) is Some {
                        assert(k.len() < bound@);
                    } else {
                        assert(k.len() <= key_of(first).len());
                        assert(key_of(v0[done]).len() < bound@);
                    }
                }
                assert(v0.take(done + 1) =~= v0.take(done).push(v0[done]));
                assert forall|i: int| 0 <= i < ids@.len() implies spec_cache_lookup(
                    self.type_map@,
                    key_of(v0.take(done)[i]),
                ) == Some(#[trigger] ids@[i]) by {
                    assert(spec_cache_lookup(pre_loop.type_map@, key_of(v0.take(done)[i]))
                        == Some(ids@[i]));
                }
            }
            ids.push(id);
            proof {
                assert forall|i: int| 0 <= i < ids@.len() implies spec_cache_lookup(
                    self.type_map@,
                    key_of(v0.take(done + 1)[i]),
                ) == Some(#[trigger] ids@[i]) by {
                    if i < done {
                        assert(v0.take(done + 1)[i] == v0.take(done)[i]);
                    } else {
                        assert(v0.take(done + 1)[i] == v0[done]);
                    }
                }
            }
        }
        proof {
            assert(v0.take(ids@.len() as int) =~= v0);
        }
        ids
    }

    /// Decomposes a type expression into its kind and its related interned
    /// type ids, interning nested types along the way. Trait-object and
    /// opaque bound lists are allocated as fresh named entries per bound,
    /// never cache-checked.
    #[verifier::loop_isolation(false)]
    pub fn process_type(&mut self, ty: TypeExpr) -> (r: (TypeKind, Vec<TypeId>))
        requires
            old(self).wf(),
            old(self).next_type_id + size_type(ty) <= usize::MAX,
        ensures
            final(self).wf(),
            intern_frame(*old(self), *final(self)),
            final(self).next_type_id + 1 <= old(self).next_type_id + size_type(ty),
            forall|i: int|
                0 <= i < r.1@.len() ==> (#[trigger] r.1@[i]).0 < final(self).next_type_id,
            decomposition_matches(ty, r.0, r.1@, *final(self)),
            new_keys_below(old(self).type_map@, final(self).type_map@, key_of(ty).len()),
            (ty matches TypeExpr::TraitObject { bounds, .. } ==> final(self).type_map == old(self).type_map && r.1@.len() == bounds@.len() && (forall|i: int|
                0 <= i < r.1@.len() ==> (#[trigger] r.1@[i]).0 == old(self).next_type_id + i)),
            (ty matches TypeExpr::ImplTrait { bounds } ==> final(self).type_map == old(self).type_map && r.1@.len() == bounds@.len() && (forall|i: int|
                0 <= i < r.1@.len() ==> (#[trigger] r.1@[i]).0 == old(self).next_type_id + i)),
        decreases size_type(ty), 1int,
    {
        match ty {
            TypeExpr::Path { qualified, segments } => {
                let mut segments = segments;
                let ghost s0 = segments@;
                let mut path: Vec<String> = Vec::new();
                let mut related: Vec<TypeId> = Vec::new();
                proof {
                    assert(path@ =~= path_idents(s0.take(0)));
                    assert(related@ =~= Seq::<TypeId>::empty());
                    assert(path_args(s0.take(0)) =~= Seq::<TypeExpr>::empty());
                }
                while segments.len() > 0
                    invariant
                        self.wf(),
                        intern_frame(*old(self), *self),
                        self.next_type_id + size_segments(segments@) <= old(self).next_type_id
                            + size_segments(s0),
                        size_segments(segments@) <= size_segments(s0),
                        path@.len() + segments@.len() == s0.len(),
                        segments@ =~= s0.skip(path@.len() as int),
                        path@ == path_idents(s0.take(path@.len() as int)),
                        ids_are_interned(
                            related@,
                            path_args(s0.take(path@.len() as int)),
                            self.type_map@,
                        ),
                        new_keys_below(old(self).type_map@, self.type_map@, key_of(ty).len()),
                        forall|i: int|
                            0 <= i < related@.len() ==> (#[trigger] related@[i]).0
                                < self.next_type_id,
                    decreases segments@.len(),
                {
                    let ghost pre_segs = segments@;
                    let ghost done = path@.len() as int;
                    proof {
                        assert(pre_segs.remove(0) =~= pre_segs.drop_first());
                        assert(s0.skip(done).drop_first() =~= s0.skip(done + 1));
                    }
                    let ghost pre_loop = *self;
                    let seg = segments.remove(0);
                    proof {
                        assert(size_segments(pre_segs) == size_segment(seg) + size_segments(
                            segments@,
                        ));
                        assert(seg == s0[done]);
                    }
                    let ghost gseg = seg;
                    let ghost tys_done = path_args(s0.take(done));
                    proof {
                        lemma_key_segments_elem(s0, done);
                        assert(key_of(ty) == (if qualified {
                            "<Q>"@
                        } else {
                            Seq::<char>::empty()
                        }) + key_of_segments(s0));
                        assert(key_of_segment(s0[done]).len() + 2 <= key_of(ty).len());
                    }
                    let PathSegment { ident, args } = seg;
                    path.push(ident);
                    proof {
                        lemma_path_idents_push(s0.take(done), s0[done]);
                        lemma_path_args_push(s0.take(done), s0[done]);
                        assert(s0.take(done + 1) =~= s0.take(done).push(s0[done]));
                        assert(path@ =~= path_idents(s0.take(done)) + seq![s0[done].ident]);
                    }
                    match args {
                        PathArgs::Empty => {
                            proof {
                                assert(seg_args(gseg) =~= Seq::<TypeExpr>::empty());
                                assert(path_args(s0.take(done + 1)) =~= tys_done);
                                assert(new_keys_below(
                                    pre_loop.type_map@,
                                    self.type_map@,
                                    key_of(ty).len(),
                                ));
                            }
                        },
                        PathArgs::Angle(args) => {
                            let ghost gargs = args@;
                            proof {
                                assert(size_segment(gseg) == 1 + size_types(args@));
                                assert(seg_args(gseg) == args@);
                                reveal_strlit("<");
                                reveal_strlit(">");
                                assert(key_of_segment(gseg) == gseg.ident@ + ("<"@ + key_of_types(
                                    gargs,
                                ) + ">"@));
                                assert forall|i: int| 0 <= i < gargs.len() implies key_of(
                                    #[trigger] gargs[i],
                                ).len() < key_of(ty).len() by {
                                    lemma_key_types_elem(gargs, i);
                                }
                            }
                            let mut new_ids = self.intern_types(args, Ghost(key_of(ty).len()));
                            let ghost old_related = related@;
                            related.append(&mut new_ids);
                            proof {
                                assert(new_keys_below(
                                    pre_loop.type_map@,
                                    self.type_map@,
                                    key_of(ty).len(),
                                ));
                                assert(path_args(s0.take(done + 1)) =~= tys_done + gargs);
                                assert forall|i: int|
                                    0 <= i < related@.len() implies spec_cache_lookup(
                                    self.type_map@,
                                    key_of(path_args(s0.take(done + 1))[i]),
                                ) == Some(#[trigger] related@[i]) by {
                                    if i < old_related.len() {
                                        assert(path_args(s0.take(done + 1))[i] == tys_done[i]);
                                        assert(spec_cache_lookup(
                                            pre_loop.type_map@,
                                            key_of(tys_done[i]),
                                        ) == Some(old_related[i]));
                                    } else {
                                        assert(path_args(s0.take(done + 1))[i] == gargs[i
                                            - old_related.len()]);
                                    }
                                }
                            }
                        },
                        PathArgs::Parenthesized { inputs, output } => {
                            let ghost gout = output;
                            let ghost ginputs = inputs@;
                            proof {
                                assert(size_segment(gseg) == 1 + size_types(inputs@) + (
                                match gout {
                                    Some(o) => size_type(*o),
                                    None => 0nat,
                                }));
                                assert(seg_args(gseg) == ginputs + (match gout {
                                    Some(o) => seq![*o],
                                    None => Seq::<TypeExpr>::empty(),
                                }));
                                reveal_strlit("(");
                                reveal_strlit(")");
                                reveal_strlit(" -> ");
                                assert(key_of_segment(gseg) == gseg.ident@ + ("("@ + key_of_types(
                                    ginputs,
                                ) + ")"@ + (match gout {
                                    Some(o) => " -> "@ + key_of(*o),
                                    None => Seq::<char>::empty(),
                                })));
                                assert forall|i: int| 0 <= i < ginputs.len() implies key_of(
                                    #[trigger] ginputs[i],
                                ).len() < key_of(ty).len() by {
                                    lemma_key_types_elem(ginputs, i);
                                }
                            }
                            let ghost mid0 = *self;
                            let mut new_ids = self.intern_types(inputs, Ghost(key_of(ty).len()));
                            let ghost mid1 = *self;
                            let ghost old_related = related@;
                            related.append(&mut new_ids);
                            match output {
                                Some(o) => {
                                    let ghost go = *o;
                                    proof {
                                        assert(key_of(go).len() < key_of(ty).len());
                                    }
                                    let oid = self.get_or_create_type(*o);
                                    proof {
                                        lemma_intern_frame_trans(mid0, mid0, *self);
                                        assert forall|k: Seq<char>|
                                            spec_cache_lookup(pre_loop.type_map@, k) is None
                                                && #[trigger] spec_cache_lookup(
                                                self.type_map@,
                                                k,
                                            ) is Some implies k.len() < key_of(ty).len() by {
                                            if spec_cache_lookup(mid1.type_map@, k) is Some {
                                            } else {
                                                assert(k.len() <= key_of(go).len());
                                            }
                                        }
                                    }
                                    related.push(oid);
                                    proof {
                                        assert(path_args(s0.take(done + 1)) =~= tys_done
                                            + ginputs + seq![go]);
                                        assert forall|i: int|
                                            0 <= i < related@.len() implies spec_cache_lookup(
                                            self.type_map@,
                                            key_of(path_args(s0.take(done + 1))[i]),
                                        ) == Some(#[trigger] related@[i]) by {
                                            if i < old_related.len() {
                                                assert(path_args(s0.take(done + 1))[i]
                                                    == tys_done[i]);
                                                assert(spec_cache_lookup(
                                                    pre_loop.type_map@,
                                                    key_of(tys_done[i]),
                                                ) == Some(old_related[i]));
                                            } else if i < related@.len() - 1 {
                                                assert(path_args(s0.take(done + 1))[i]
                                                    == ginputs[i - old_related.len()]);
                                                assert(spec_cache_lookup(
                                                    mid0.type_map@,
                                                    key_of(ginputs[i - old_related.len()]),
                                                ) is Some || true);
                                                assert(spec_cache_lookup(
                                                    self.type_map@,
                                                    key_of(ginputs[i - old_related.len()]),
                                                ) == Some(related@[i]));
                                            } else {
                                                assert(path_args(s0.take(done + 1))[i] == go);
                                            }
                                        }
                                    }
                                },
                                None => {
                                    proof {
                                        assert(new_keys_below(
                                            pre_loop.type_map@,
                                            self.type_map@,
                                            key_of(ty).len(),
                                        ));
                                        assert(path_args(s0.take(done + 1)) =~= tys_done
                                            + ginputs);
                                        assert forall|i: int|
                                            0 <= i < related@.len() implies spec_cache_lookup(
                                            self.type_map@,
                                            key_of(path_args(s0.take(done + 1))[i]),
                                        ) == Some(#[trigger] related@[i]) by {
                                            if i < old_related.len() {
                                                assert(path_args(s0.take(done + 1))[i]
                                                    == tys_done[i]);
                                                assert(spec_cache_lookup(
                                                    pre_loop.type_map@,
                                                    key_of(tys_done[i]),
                                                ) == Some(old_related[i]));
                                            } else {
                                                assert(path_args(s0.take(done + 1))[i]
                                                    == ginputs[i - old_related.len()]);
                                            }
                                        }
                                    }
                                },
                            }
                            proof {
                                lemma_intern_frame_trans(*old(self), pre_loop, *self);
                            }
                        },
                    }
                    proof {
                        lemma_intern_frame_trans(*old(self), pre_loop, *self);
                        assert forall|k: Seq<char>|
                            spec_cache_lookup(old(self).type_map@, k) is None
                                && #[trigger] spec_cache_lookup(self.type_map@, k) is Some implies k.len()
                            < key_of(ty).len() by {
                            if spec_cache_lookup(pre_loop.type_map@, k) is None {
                                assert(new_keys_below(
                                    pre_loop.type_map@,
                                    self.type_map@,
                                    key_of(ty).len(),
                                ));
                            }
                        }
                    }
                }
                proof {
                    assert(s0.take(path@.len() as int) =~= s0);
                }
                (TypeKind::Named { path, is_fully_qualified: qualified }, related)
            },
            TypeExpr::Reference { lifetime, mutable, target } => {
                let ghost gt = *target;
                proof {
                    reveal_strlit("&");
                    assert(key_of(gt).len() < key_of(ty).len());
                }
                let id = self.get_or_create_type(*target);
                let mut related: Vec<TypeId> = Vec::new();
                related.push(id);
                proof {
                    assert(related@ =~= seq![id]);
                    assert(seq![gt][0] == gt);
                }
                (TypeKind::Reference { lifetime, is_mutable: mutable }, related)
            },
            TypeExpr::Slice { elem } => {
                let ghost gt = *elem;
                proof {
                    reveal_strlit("[");
                    assert(key_of(gt).len() < key_of(ty).len());
                }
                let id = self.get_or_create_type(*elem);
                let mut related: Vec<TypeId> = Vec::new();
                related.push(id);
                proof {
                    assert(related@ =~= seq![id]);
                    assert(seq![gt][0] == gt);
                }
                (TypeKind::Slice {}, related)
            },
            TypeExpr::Array { elem, size } => {
                let ghost gt = *elem;
                proof {
                    reveal_strlit("[");
                    assert(key_of(gt).len() < key_of(ty).len());
                }
                let id = self.get_or_create_type(*elem);
                let mut related: Vec<TypeId> = Vec::new();
                related.push(id);
                proof {
                    assert(related@ =~= seq![id]);
                    assert(seq![gt][0] == gt);
                }
                (TypeKind::Array { size }, related)
            },
            TypeExpr::Tuple { elems } => {
                let ghost gelems = elems@;
                proof {
                    reveal_strlit("(");
                    assert forall|i: int| 0 <= i < gelems.len() implies key_of(
                        #[trigger] gelems[i],
                    ).len() < key_of(ty).len() by {
                        lemma_key_types_elem(gelems, i);
                    }
                }
                let related = self.intern_types(elems, Ghost(key_of(ty).len()));
                (TypeKind::Tuple {}, related)
            },
            TypeExpr::BareFn { is_unsafe, is_extern, abi, params, ret } => {
                let ghost gparams = params@;
                let ghost pre = *self;
                proof {
                    reveal_strlit("fn(");
                    reveal_strlit(" -> ");
                    assert forall|i: int| 0 <= i < gparams.len() implies key_of(
                        #[trigger] gparams[i],
                    ).len() < key_of(ty).len() by {
                        lemma_key_types_elem(gparams, i);
                    }
                }
                let mut related = self.intern_types(params, Ghost(key_of(ty).len()));
                match ret {
                    Some(r) => {
                        let ghost go = *r;
                        let ghost mid = *self;
                        let ghost old_related = related@;
                        proof {
                            assert(key_of(go).len() < key_of(ty).len());
                        }
                        let rid = self.get_or_create_type(*r);
                        proof {
                            lemma_intern_frame_trans(*old(self), pre, *self);
                            assert forall|k: Seq<char>|
                                spec_cache_lookup(old(self).type_map@, k) is None
                                    && #[trigger] spec_cache_lookup(
                                    self.type_map@,
                                    k,
                                ) is Some implies k.len() < key_of(ty).len() by {
                                if spec_cache_lookup(mid.type_map@, k) is Some {
                                } else {
                                    assert(k.len() <= key_of(go).len());
                                }
                            }
                        }
                        related.push(rid);
                        proof {
                            assert forall|i: int|
                                0 <= i < related@.len() implies spec_cache_lookup(
                                self.type_map@,
                                key_of((gparams + seq![go])[i]),
                            ) == Some(#[trigger] related@[i]) by {
                                if i < old_related.len() {
                                    assert((gparams + seq![go])[i] == gparams[i]);
                                    assert(spec_cache_lookup(mid.type_map@, key_of(gparams[i]))
                                        == Some(old_related[i]));
                                } else {
                                    assert((gparams + seq![go])[i] == go);
                                }
                            }
                        }
                    },
                    None => {
                        proof {
                            assert(gparams + Seq::<TypeExpr>::empty() =~= gparams);
                        }
                    },
                }
                (TypeKind::Function { is_unsafe, is_extern, abi }, related)
            },
            TypeExpr::Never => (TypeKind::Never, Vec::new()),
            TypeExpr::Inferred => (TypeKind::Inferred, Vec::new()),
            TypeExpr::RawPointer { mutable, pointee } => {
                let ghost gt = *pointee;
                proof {
                    reveal_strlit("*");
                    reveal_strlit("mut ");
                    reveal_strlit("const ");
                    assert(key_of(gt).len() < key_of(ty).len());
                }
                let id = self.get_or_create_type(*pointee);
                let mut related: Vec<TypeId> = Vec::new();
                related.push(id);
                proof {
                    assert(related@ =~= seq![id]);
                    assert(seq![gt][0] == gt);
                }
                (TypeKind::RawPointer { is_mutable: mutable }, related)
            },
            TypeExpr::TraitObject { dyn_token, bounds } => {
                let related = self.fresh_bound_types(bounds);
                (TypeKind::TraitObject { dyn_token }, related)
            },
            TypeExpr::ImplTrait { bounds } => {
                let related = self.fresh_bound_types(bounds);
                (TypeKind::ImplTrait {}, related)
            },
            TypeExpr::Paren { inner } => {
                let ghost gt = *inner;
                proof {
                    reveal_strlit("(");
                    assert(key_of(gt).len() < key_of(ty).len());
                }
                let id = self.get_or_create_type(*inner);
                let mut related: Vec<TypeId> = Vec::new();
                related.push(id);
                proof {
                    assert(related@ =~= seq![id]);
                    assert(seq![gt][0] == gt);
                }
                (TypeKind::Paren {}, related)
            },
            TypeExpr::MacroCall { name, tokens } => (TypeKind::Macro { name, tokens }, Vec::new()),
            TypeExpr::Verbatim { text } => (TypeKind::Unknown { type_str: text }, Vec::new()),
        }
    }

    /// Allocates one fresh, never-deduplicated named entry per bound of a
    /// trait object or an opaque type: the documented interning asymmetry.
    /// The cache is bypassed entirely.
    #[verifier::loop_isolation(false)]
    #[verifier::rlimit(4)]
    pub fn fresh_bound_types(&mut self, bounds: Vec<TypeBound>) -> (r: Vec<TypeId>)
        requires
            old(self).wf(),
            old(self).next_type_id + size_bounds(bounds@) <= usize::MAX,
        ensures
            final(self).wf(),
            intern_frame(*old(self), *final(self)),
            final(self).type_map == old(self).type_map,
            final(self).next_type_id <= old(self).next_type_id + size_bounds(bounds@),
            final(self).next_type_id == old(self).next_type_id + bounds@.len(),
            r@.len() == bounds@.len(),
            forall|i: int|
                0 <= i < r@.len() ==> (#[trigger] r@[i]).0 == old(self).next_type_id + i,
            bound_entries_match(r@, bounds@, *final(self)),
        decreases size_bounds(bounds@), 0int,
    {
        let mut bounds = bounds;
        let ghost b0 = bounds@;
        let mut related: Vec<TypeId> = Vec::new();
        while bounds.len() > 0
            invariant
                self.wf(),
                intern_frame(*old(self), *self),
                self.type_map == old(self).type_map,
                self.next_type_id + size_bounds(bounds@) <= old(self).next_type_id + size_bounds(
                    b0,
                ),
                related@.len() + bounds@.len() == b0.len(),
                bounds@ =~= b0.skip(related@.len() as int),
                self.next_type_id == old(self).next_type_id + related@.len(),
                forall|i: int|
                    0 <= i < related@.len() ==> (#[trigger] related@[i]).0 == old(self).next_type_id + i,
                bound_entries_match(related@, b0.take(related@.len() as int), *self),
            decreases bounds@.len(),
        {
            let ghost pre_b = bounds@;
            let ghost done = related@.len() as int;
            proof {
                assert(pre_b.remove(0) =~= pre_b.drop_first());
                assert(b0.skip(done).drop_first() =~= b0.skip(done + 1));
            }
            let ghost pre_loop = *self;
            let b = bounds.remove(0);
            let ghost gb = b;
            proof {
                assert(size_bounds(pre_b) == size_bound(b) + size_bounds(bounds@));
                assert(gb == b0[done]);
            }
            match b {
                TypeBound::Trait(segments) => {
                    let mut segments = segments;
                    let ghost segs0 = segments@;
                    let mut idents: Vec<String> = Vec::new();
                    proof {
                        assert(idents@ =~= path_idents(segs0.take(0)));
                    }
                    while segments.len() > 0
                        invariant
                            idents@.len() + segments@.len() == segs0.len(),
                            segments@ =~= segs0.skip(idents@.len() as int),
                            idents@ == path_idents(segs0.take(idents@.len() as int)),
                        decreases segments@.len(),
                    {
                        let ghost pre_s = segments@;
                        let ghost sdone = idents@.len() as int;
                        proof {
                            assert(pre_s.remove(0) =~= pre_s.drop_first());
                            assert(segs0.skip(sdone).drop_first() =~= segs0.skip(sdone + 1));
                        }
                        let seg = segments.remove(0);
                        proof {
                            assert(seg == segs0[sdone]);
                            lemma_path_idents_push(segs0.take(sdone), segs0[sdone]);
                            assert(segs0.take(sdone + 1) =~= segs0.take(sdone).push(
                                segs0[sdone],
                            ));
                        }
                        idents.push(seg.ident);
                        proof {
                            assert(idents@ =~= path_idents(segs0.take(sdone)) + seq![
                                segs0[sdone].ident,
                            ]);
                        }
                    }
                    proof {
                        assert(segs0.take(idents@.len() as int) =~= segs0);
                    }
                    let id = self.push_type_node(
                        TypeKind::Named { path: idents, is_fully_qualified: false },
                        Vec::new(),
                    );
                    related.push(id);
                },
                TypeBound::Lifetime(_) => {
                    let id = self.push_type_node(
                        TypeKind::Named { path: lifetime_marker_path(), is_fully_qualified: false },
                        Vec::new(),
                    );
                    related.push(id);
                },
                TypeBound::Other(text) => {
                    let id = self.push_type_node(TypeKind::Unknown { type_str: text }, Vec::new());
                    related.push(id);
                },
            }
            proof {
                assert(old(self).code_graph.type_graph@.is_prefix_of(
                    self.code_graph.type_graph@,
                )) by {
                    assert(old(self).code_graph.type_graph@
                        =~= self.code_graph.type_graph@.subrange(
                        0,
                        old(self).code_graph.type_graph@.len() as int,
                    ));
                }
                assert(b0.take(done + 1) =~= b0.take(done).push(b0[done]));
                assert forall|i: int| 0 <= i < related@.len() implies (
                #[trigger] related@[i]).0 < self.code_graph.type_graph@.len()
                    && bound_entry_matches(
                    b0.take(done + 1)[i],
                    self.code_graph.type_graph@[related@[i].0 as int],
                ) by {
                    if i < done {
                        assert(b0.take(done + 1)[i] == b0.take(done)[i]);
                        assert(self.code_graph.type_graph@[related@[i].0 as int]
                            == pre_loop.code_graph.type_graph@[related@[i].0 as int]);
                    } else {
                        assert(b0.take(done + 1)[i] == b0[done]);
                        assert(self.code_graph.type_graph@.last()
                            == self.code_graph.type_graph@[related@[i].0 as int]);
                    }
                }
            }
        }
        proof {
            assert(b0.take(related@.len() as int) =~= b0);
        }
        related
    }

    /// Resolves one generic-parameter or supertrait bound: a trait bound is
    /// interned as a named path type, a lifetime bound becomes a fresh
    /// lifetime marker entry, and any other shape a fresh unrecognized entry.
    pub fn process_type_bound(&mut self, bound: TypeBound) -> (r: TypeId)
        requires
            old(self).wf(),
            old(self).next_type_id + size_bound(bound) <= usize::MAX,
        ensures
            final(self).wf(),
            intern_frame(*old(self), *final(self)),
            final(self).next_type_id <= old(self).next_type_id + size_bound(bound),
            r.0 < final(self).next_type_id,
            crate::parser::visitor::generics::bound_resolved(bound, r, *final(self)),
        decreases size_bound(bound), 4int,
    {
        match bound {
            TypeBound::Trait(segments) => {
                proof {
                    assert(size_type(TypeExpr::Path { qualified: false, segments: segments }) == 1
                        + size_segments(segments@));
                    assert(key_of(TypeExpr::Path { qualified: false, segments: segments })
                        =~= key_of_segments(segments@));
                }
                self.get_or_create_type(TypeExpr::Path { qualified: false, segments })
            },
            TypeBound::Lifetime(_) => {
                let id = self.push_type_node(
                    TypeKind::Named { path: lifetime_marker_path(), is_fully_qualified: false },
                    Vec::new(),
                );
                proof {
                    assert(old(self).code_graph.type_graph@.is_prefix_of(
                        self.code_graph.type_graph@,
                    )) by {
                        assert(old(self).code_graph.type_graph@
                            =~= self.code_graph.type_graph@.subrange(
                            0,
                            old(self).code_graph.type_graph@.len() as int,
                        ));
                    }
                }
                id
            },
            TypeBound::Other(text) => {
                let id = self.push_type_node(TypeKind::Unknown { type_str: text }, Vec::new());
                proof {
                    assert(old(self).code_graph.type_graph@.is_prefix_of(
                        self.code_graph.type_graph@,
                    )) by {
                        assert(old(self).code_graph.type_graph@
                            =~= self.code_graph.type_graph@.subrange(
                            0,
                            old(self).code_graph.type_graph@.len() as int,
                        ));
                    }
                }
                id
            },
        }
    }
}

/// The path of the marker entry recorded for a lifetime bound.
fn lifetime_marker_path() -> (r: Vec<String>)
    ensures
        r@.len() == 1,
        r@[0]@ == "lifetime"@,
{
    let mut v: Vec<String> = Vec::new();
    v.push(String::from_str("lifetime"));
    v
}

/// The interning frame composes across consecutive calls.
pub proof fn lemma_intern_frame_trans(a: VisitorState, b: VisitorState, c: VisitorState)
    requires
        intern_frame(a, b),
        intern_frame(b, c),
    ensures
        intern_frame(a, c),
{
    assert(a.code_graph.type_graph@.is_prefix_of(c.code_graph.type_graph@)) by {
        assert(a.code_graph.type_graph@ =~= c.code_graph.type_graph@.subrange(
            0,
            a.code_graph.type_graph@.len() as int,
        ));
    }
    assert forall|k: Seq<char>| #[trigger]
        spec_cache_lookup(a.type_map@, k) is Some implies spec_cache_lookup(c.type_map@, k)
        == spec_cache_lookup(a.type_map@, k) by {
        assert(spec_cache_lookup(b.type_map@, k) == spec_cache_lookup(a.type_map@, k));
    }
    assert forall|k: Seq<char>|
        spec_cache_lookup(a.type_map@, k) is None && #[trigger] spec_cache_lookup(
            c.type_map@,
            k,
        ) is Some implies spec_cache_lookup(c.type_map@, k)->Some_0.0 >= a.next_type_id by {
        if spec_cache_lookup(b.type_map@, k) is Some {
            assert(spec_cache_lookup(b.type_map@, k)->Some_0.0 >= a.next_type_id);
            assert(spec_cache_lookup(c.type_map@, k) == spec_cache_lookup(b.type_map@, k));
        } else {
            assert(spec_cache_lookup(c.type_map@, k)->Some_0.0 >= b.next_type_id);
        }
    }
}

} // verus!

verus! {

/// Interning idempotence. Across two consecutive interning calls, type
/// expressions with identical canonical text receive the same id, and
/// expressions with distinct canonical text receive distinct ids.
pub proof fn lemma_interning_idempotent(
    s0: VisitorState,
    s1: VisitorState,
    s2: VisitorState,
    k1: Seq<char>,
    k2: Seq<char>,
    r1: TypeId,
    r2: TypeId,
)
    requires
        intern_post(s0, s1, k1, r1),
        intern_post(s1, s2, k2, r2),
    ensures
        k1 == k2 ==> r1 == r2,
        k1 != k2 ==> r1 != r2,
{
    assert(spec_cache_lookup(s2.type_map@, k1) == Some(r1));
    assert(spec_cache_lookup(s2.type_map@, k2) == Some(r2));
    if k1 == k2 {
    } else {
        lemma_lookup_some_index(s2.type_map@, k1);
        lemma_lookup_some_index(s2.type_map@, k2);
        let i1 = choose|i: int|
            0 <= i < s2.type_map@.len() && (#[trigger] s2.type_map@[i]).0@ == k1
                && s2.type_map@[i].1 == r1;
        let i2 = choose|i: int|
            0 <= i < s2.type_map@.len() && (#[trigger] s2.type_map@[i]).0@ == k2
                && s2.type_map@[i].1 == r2;
        assert(i1 != i2);
        if i1 < i2 {
            assert(s2.type_map@[i1].1 != s2.type_map@[i2].1);
        } else {
            assert(s2.type_map@[i2].1 != s2.type_map@[i1].1);
        }
    }
}

} // verus!
