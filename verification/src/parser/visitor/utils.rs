//! Attribute extraction, documentation-text assembly, and visibility
//! conversion, shared by every node builder.

use vstd::prelude::*;
use vstd::string::{StrSliceExecFns, StringExecFns};
use crate::parser::input::{AttributeInput, VisibilityToken};
use crate::parser::nodes::ParsedAttribute;
use crate::parser::types::VisibilityKind;

verus! {

/// Whether a character counts as trimmable whitespace.
pub open spec fn spec_is_space(c: char) -> bool {
    c == ' ' || c == '\t' || c == '\n' || c == '\r'
}

pub(crate) fn is_space(c: char) -> (r: bool)
    ensures
        r == spec_is_space(c),
{
    c == ' ' || c == '\t' || c == '\n' || c == '\r'
}

/// The text with leading whitespace removed.
pub open spec fn spec_trim_front(s: Seq<char>) -> Seq<char>
    decreases s.len(),
{
    if s.len() > 0 && spec_is_space(s[0]) {
        spec_trim_front(s.drop_first())
    } else {
        s
    }
}

/// The text with trailing whitespace removed.
pub open spec fn spec_trim_back(s: Seq<char>) -> Seq<char>
    decreases s.len(),
{
    if s.len() > 0 && spec_is_space(s.last()) {
        spec_trim_back(s.drop_last())
    } else {
        s
    }
}

/// The text with surrounding whitespace removed.
pub open spec fn spec_trim(s: Seq<char>) -> Seq<char> {
    spec_trim_back(spec_trim_front(s))
}

/// Extracts the given character range, trimmed of surrounding whitespace.
#[verifier::loop_isolation(false)]
pub(crate) fn trimmed_range(s: &str, lo: usize, hi: usize) -> (r: String)
    requires
        lo <= hi <= s@.len(),
    ensures
        r@ == spec_trim(s@.subrange(lo as int, hi as int)),
{
    let mut a = lo;
    let mut b = hi;
    proof {
        assert(s@.subrange(lo as int, hi as int) == s@.subrange(a as int, hi as int));
    }
    while a < b
        invariant
            lo <= a <= b <= hi <= s@.len(),
            b == hi,
            spec_trim_front(s@.subrange(lo as int, hi as int)) == spec_trim_front(
                s@.subrange(a as int, hi as int),
            ),
        decreases b - a,
    {
        if is_space(s.get_char(a)) {
            proof {
                assert(s@.subrange(a as int, hi as int)[0] == s@[a as int]);
                assert(s@.subrange(a as int, hi as int).drop_first() =~= s@.subrange(
                    a as int + 1,
                    hi as int,
                ));
            }
            a += 1;
        } else {
            break;
        }
    }
    proof {
        if a < b {
            assert(s@.subrange(a as int, hi as int)[0] == s@[a as int]);
            assert(!spec_is_space(s@.subrange(a as int, hi as int)[0]));
        } else {
            assert(s@.subrange(a as int, hi as int) =~= Seq::<char>::empty());
        }
        assert(spec_trim_front(s@.subrange(lo as int, hi as int)) == s@.subrange(
            a as int,
            hi as int,
        ));
    }
    while b > a
        invariant
            lo <= a <= b <= hi <= s@.len(),
            spec_trim_back(s@.subrange(a as int, hi as int)) == spec_trim_back(
                s@.subrange(a as int, b as int),
            ),
        decreases b - a,
    {
        if is_space(s.get_char(b - 1)) {
            proof {
                assert(s@.subrange(a as int, b as int).last() == s@[b - 1]);
                assert(s@.subrange(a as int, b as int).drop_last() =~= s@.subrange(
                    a as int,
                    b as int - 1,
                ));
            }
            b -= 1;
        } else {
            break;
        }
    }
    proof {
        if b > a {
            assert(s@.subrange(a as int, b as int).last() == s@[b - 1]);
            assert(!spec_is_space(s@.subrange(a as int, b as int).last()));
        } else {
            assert(s@.subrange(a as int, b as int) =~= Seq::<char>::empty());
        }
        assert(spec_trim_back(s@.subrange(a as int, b as int)) == s@.subrange(
            a as int,
            b as int,
        ));
    }
    s.substring_char(a, b).to_owned()
}

/// The view of an optional string.
pub open spec fn opt_view(o: Option<String>) -> Option<Seq<char>> {
    match o {
        Some(s) => Some(s@),
        None => None,
    }
}

/// The normalized record of one non-documentation attribute.
pub open spec fn spec_attr_of(a: AttributeInput) -> ParsedAttribute {
    ParsedAttribute { name: a.name, args: a.args, value: a.value }
}

/// The non-documentation attributes of a list, normalized, in order.
pub open spec fn spec_extract_attrs(s: Seq<AttributeInput>) -> Seq<ParsedAttribute>
    decreases s,
{
    if s.len() == 0 {
        Seq::<ParsedAttribute>::empty()
    } else if s[0].doc is Some {
        spec_extract_attrs(s.drop_first())
    } else {
        seq![spec_attr_of(s[0])] + spec_extract_attrs(s.drop_first())
    }
}

/// The documentation lines of an attribute list, in order, each trimmed of
/// surrounding whitespace.
pub open spec fn spec_doc_lines(s: Seq<AttributeInput>) -> Seq<Seq<char>>
    decreases s,
{
    if s.len() == 0 {
        Seq::<Seq<char>>::empty()
    } else {
        (match s[0].doc {
            Some(d) => seq![spec_trim(d@)],
            None => Seq::<Seq<char>>::empty(),
        }) + spec_doc_lines(s.drop_first())
    }
}

/// Lines joined by single newlines.
pub open spec fn spec_join_lines(lines: Seq<Seq<char>>) -> Seq<char>
    decreases lines,
{
    if lines.len() == 0 {
        Seq::<char>::empty()
    } else if lines.len() == 1 {
        lines[0]
    } else {
        lines[0] + "\n"@ + spec_join_lines(lines.drop_first())
    }
}

/// The documentation text of an attribute list: its documentation lines
/// joined by newlines, absent when there are none.
pub open spec fn spec_docstring(s: Seq<AttributeInput>) -> Option<Seq<char>> {
    if spec_doc_lines(s).len() == 0 {
        None
    } else {
        Some(spec_join_lines(spec_doc_lines(s)))
    }
}

proof fn lemma_doc_lines_push(s: Seq<AttributeInput>, a: AttributeInput)
    ensures
        spec_doc_lines(s.push(a)) == spec_doc_lines(s) + (match a.doc {
            Some(d) => seq![spec_trim(d@)],
            None => Seq::<Seq<char>>::empty(),
        }),
    decreases s.len(),
{
    let p = s.push(a);
    if s.len() == 0 {
        assert(p[0] == a);
        assert(p.drop_first() =~= Seq::<AttributeInput>::empty());
        assert(spec_doc_lines(p.drop_first()) == Seq::<Seq<char>>::empty());
        assert(spec_doc_lines(p) =~= spec_doc_lines(s) + (match a.doc {
            Some(d) => seq![spec_trim(d@)],
            None => Seq::<Seq<char>>::empty(),
        }));
    } else {
        assert(p[0] == s[0]);
        assert(p.drop_first() =~= s.drop_first().push(a));
        lemma_doc_lines_push(s.drop_first(), a);
        assert(spec_doc_lines(p) =~= spec_doc_lines(s) + (match a.doc {
            Some(d) => seq![spec_trim(d@)],
            None => Seq::<Seq<char>>::empty(),
        }));
    }
}

proof fn lemma_join_lines_push(lines: Seq<Seq<char>>, x: Seq<char>)
    requires
        lines.len() > 0,
    ensures
        spec_join_lines(lines.push(x)) == spec_join_lines(lines) + "\n"@ + x,
    decreases lines.len(),
{
    let p = lines.push(x);
    assert(p[0] == lines[0]);
    assert(p.drop_first() =~= lines.drop_first().push(x));
    if lines.len() == 1 {
        assert(p.drop_first()[0] == x);
        assert(p.drop_first().len() == 1);
        assert(spec_join_lines(p.drop_first()) == x);
        assert(spec_join_lines(p) =~= spec_join_lines(lines) + "\n"@ + x);
    } else {
        lemma_join_lines_push(lines.drop_first(), x);
        assert(spec_join_lines(p) =~= spec_join_lines(lines) + "\n"@ + x);
    }
}

proof fn lemma_extract_attrs_push(s: Seq<AttributeInput>, a: AttributeInput)
    ensures
        spec_extract_attrs(s.push(a)) == spec_extract_attrs(s) + (if a.doc is Some {
            Seq::<ParsedAttribute>::empty()
        } else {
            seq![spec_attr_of(a)]
        }),
    decreases s.len(),
{
    let p = s.push(a);
    if s.len() == 0 {
        assert(p[0] == a);
        assert(p.drop_first() =~= Seq::<AttributeInput>::empty());
        assert(spec_extract_attrs(p.drop_first()) == Seq::<ParsedAttribute>::empty());
        assert(spec_extract_attrs(p) =~= spec_extract_attrs(s) + (if a.doc is Some {
            Seq::<ParsedAttribute>::empty()
        } else {
            seq![spec_attr_of(a)]
        }));
    } else {
        assert(p[0] == s[0]);
        assert(p.drop_first() =~= s.drop_first().push(a));
        lemma_extract_attrs_push(s.drop_first(), a);
        assert(spec_extract_attrs(p) =~= spec_extract_attrs(s) + (if a.doc is Some {
            Seq::<ParsedAttribute>::empty()
        } else {
            seq![spec_attr_of(a)]
        }));
    }
}

/// Concatenates the documentation lines of an attribute list into one
/// optional text, one line per documentation attribute, each trimmed of
/// surrounding whitespace, separated by newlines.
#[verifier::loop_isolation(false)]
pub fn extract_docstring(attrs: &Vec<AttributeInput>) -> (r: Option<String>)
    ensures
        opt_view(r) == spec_docstring(attrs@),
{
    let mut acc: Option<String> = None;
    let mut i: usize = 0;
    proof {
        assert(attrs@.take(0) =~= Seq::<AttributeInput>::empty());
    }
    while i < attrs.len()
        invariant
            i <= attrs@.len(),
            opt_view(acc) == spec_docstring(attrs@.take(i as int)),
            acc is Some <==> spec_doc_lines(attrs@.take(i as int)).len() > 0,
        decreases attrs@.len() - i,
    {
        proof {
            lemma_doc_lines_push(attrs@.take(i as int), attrs@[i as int]);
            assert(attrs@.take(i as int + 1) =~= attrs@.take(i as int).push(attrs@[i as int]));
        }
        match &attrs[i].doc {
            Some(d) => {
                proof {
                    assert(spec_doc_lines(attrs@.take(i as int + 1)) =~= spec_doc_lines(
                        attrs@.take(i as int),
                    ).push(spec_trim(d@)));
                }
                let line = trimmed_range(d.as_str(), 0, d.as_str().unicode_len());
                proof {
                    assert(d@.subrange(0, d@.len() as int) =~= d@);
                }
                match acc {
                    None => {
                        proof {
                            assert(spec_doc_lines(attrs@.take(i as int + 1)).len() == 1);
                            assert(spec_join_lines(spec_doc_lines(attrs@.take(i as int + 1)))
                                == spec_trim(d@));
                        }
                        acc = Some(line);
                    },
                    Some(mut s) => {
                        proof {
                            lemma_join_lines_push(
                                spec_doc_lines(attrs@.take(i as int)),
                                spec_trim(d@),
                            );
                        }
                        s.append("\n");
                        s.append(line.as_str());
                        acc = Some(s);
                    },
                }
            },
            None => {
                proof {
                    assert(spec_doc_lines(attrs@.take(i as int + 1)) =~= spec_doc_lines(
                        attrs@.take(i as int),
                    ));
                }
            },
        }
        i += 1;
    }
    proof {
        assert(attrs@.take(attrs@.len() as int) =~= attrs@);
    }
    acc
}

/// Normalizes the non-documentation attributes of a list, dropping the
/// documentation ones.
#[verifier::loop_isolation(false)]
pub fn extract_attributes(attrs: Vec<AttributeInput>) -> (r: Vec<ParsedAttribute>)
    ensures
        r@ == spec_extract_attrs(attrs@),
{
    let mut attrs = attrs;
    let ghost a0 = attrs@;
    let n0: usize = attrs.len();
    proof {
        assert(a0.len() == n0);
    }
    let mut out: Vec<ParsedAttribute> = Vec::new();
    let mut i: usize = 0;
    proof {
        assert(a0.take(0) =~= Seq::<AttributeInput>::empty());
    }
    while attrs.len() > 0
        invariant
            i <= a0.len() <= usize::MAX,
            i + attrs@.len() == a0.len(),
            attrs@ =~= a0.skip(i as int),
            out@ == spec_extract_attrs(a0.take(i as int)),
        decreases attrs@.len(),
    {
        proof {
            lemma_extract_attrs_push(a0.take(i as int), a0[i as int]);
            assert(a0.take(i as int + 1) =~= a0.take(i as int).push(a0[i as int]));
            assert(attrs@.remove(0) =~= attrs@.drop_first());
            assert(a0.skip(i as int).drop_first() =~= a0.skip(i as int + 1));
        }
        let a = attrs.remove(0);
        if a.doc.is_none() {
            out.push(ParsedAttribute { name: a.name, args: a.args, value: a.value });
            proof {
                assert(out@ =~= spec_extract_attrs(a0.take(i as int + 1)));
            }
        }
        i += 1;
    }
    proof {
        assert(a0.take(a0.len() as int) =~= a0);
    }
    out
}

/// The graph representation of a declared visibility token.
pub open spec fn spec_convert_visibility(vis: VisibilityToken) -> VisibilityKind {
    match vis {
        VisibilityToken::Public => VisibilityKind::Public,
        VisibilityToken::Restricted(path) => VisibilityKind::Restricted(path),
        VisibilityToken::Inherited => VisibilityKind::Inherited,
    }
}

/// Converts a declared visibility token to its graph representation.
pub fn convert_visibility(vis: VisibilityToken) -> (r: VisibilityKind)
    ensures
        r == spec_convert_visibility(vis),
{
    match vis {
        VisibilityToken::Public => VisibilityKind::Public,
        VisibilityToken::Restricted(path) => VisibilityKind::Restricted(path),
        VisibilityToken::Inherited => VisibilityKind::Inherited,
    }
}

/// Compares a string against a literal by text.
pub fn string_is(s: &String, lit: &str) -> (r: bool)
    ensures
        r == (s@ == lit@),
{
    let t = String::from_str(lit);
    *s == t
}

/// Clones an optional string, preserving the value.
pub fn clone_opt_string(o: &Option<String>) -> (r: Option<String>)
    ensures
        r == *o,
{
    match o {
        Some(s) => Some(s.clone()),
        None => None,
    }
}

/// Clones a string list, preserving the text of every element.
pub fn clone_string_vec(v: &Vec<String>) -> (r: Vec<String>)
    ensures
        r@ == v@,
{
    let r = v.clone();
    proof {
        assert forall|i: int| 0 <= i < v@.len() implies r@[i] == v@[i] by {
            assert(vstd::pervasive::cloned::<String>(v[i], r[i]));
        }
        assert(r@ =~= v@);
    }
    r
}

/// A view-level pin of a produced visibility against its input token.
pub open spec fn vis_matches(k: VisibilityKind, t: VisibilityToken) -> bool {
    match t {
        VisibilityToken::Public => k == VisibilityKind::Public,
        VisibilityToken::Restricted(q) => match k {
            VisibilityKind::Restricted(p) => p@ == q@,
            _ => false,
        },
        VisibilityToken::Inherited => k == VisibilityKind::Inherited,
    }
}

/// Converts a borrowed visibility token to its graph representation.
pub fn visibility_of(v: &VisibilityToken) -> (r: VisibilityKind)
    ensures
        vis_matches(r, *v),
{
    match v {
        VisibilityToken::Public => VisibilityKind::Public,
        VisibilityToken::Restricted(path) => VisibilityKind::Restricted(clone_string_vec(path)),
        VisibilityToken::Inherited => VisibilityKind::Inherited,
    }
}

/// Whether the token declares public visibility.
pub fn is_public(vis: &VisibilityToken) -> (r: bool)
    ensures
        r == (vis is Public),
{
    matches!(vis, VisibilityToken::Public)
}

} // verus!
