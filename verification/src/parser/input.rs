//! The typed declaration nodes an analysis run consumes.
//!
//! The analyzer never parses raw source text itself: a front-end collaborator
//! hands it a sequence of items, each exposing a kind, an identifier, a
//! declared visibility token, an attribute list, optional documentation text,
//! and a kind-specific payload. Everything here is plain data.
//!
//! Each input shape carries a size measure, a generous upper bound on the
//! number of identifiers the builders may allocate for it; the builders use
//! it to show that identifier counters never overflow.

use vstd::prelude::*;

verus! {

/// The declared visibility token of an item, as the front end saw it.
#[derive(Debug, Clone)]
pub enum VisibilityToken {
    Public,
    Restricted(Vec<String>),
    Inherited,
}

/// One attribute of an item. For a documentation attribute, `doc` carries the
/// decoded text; for every other attribute it is absent.
#[derive(Debug, Clone)]
pub struct AttributeInput {
    pub name: String,
    pub args: Vec<String>,
    pub value: Option<String>,
    pub doc: Option<String>,
}

/// One segment of a type path, with its generic arguments.
#[derive(Debug)]
pub struct PathSegment {
    pub ident: String,
    pub args: PathArgs,
}

/// The generic arguments of one path segment.
#[derive(Debug)]
pub enum PathArgs {
    Empty,
    /// Angle-bracketed type arguments, in source order.
    Angle(Vec<TypeExpr>),
    /// Parenthesized function-style arguments and optional output.
    Parenthesized { inputs: Vec<TypeExpr>, output: Option<Box<TypeExpr>> },
}

/// One bound of a generic parameter, a supertrait list, a trait object, or an
/// opaque type.
#[derive(Debug)]
pub enum TypeBound {
    Trait(Vec<PathSegment>),
    Lifetime(String),
    /// An unrecognized bound shape, kept as raw text.
    Other(String),
}

/// A type expression, as structured data.
#[derive(Debug)]
pub enum TypeExpr {
    Path { qualified: bool, segments: Vec<PathSegment> },
    Reference { lifetime: Option<String>, mutable: bool, target: Box<TypeExpr> },
    Slice { elem: Box<TypeExpr> },
    Array { elem: Box<TypeExpr>, size: Option<String> },
    Tuple { elems: Vec<TypeExpr> },
    BareFn {
        is_unsafe: bool,
        is_extern: bool,
        abi: Option<String>,
        params: Vec<TypeExpr>,
        ret: Option<Box<TypeExpr>>,
    },
    Never,
    Inferred,
    RawPointer { mutable: bool, pointee: Box<TypeExpr> },
    TraitObject { dyn_token: bool, bounds: Vec<TypeBound> },
    ImplTrait { bounds: Vec<TypeBound> },
    Paren { inner: Box<TypeExpr> },
    MacroCall { name: String, tokens: String },
    /// An unrecognized type shape, kept as raw text.
    Verbatim { text: String },
}

/// One parameter of a function signature.
#[derive(Debug)]
pub enum ParamInput {
    Typed { name: Option<String>, mutable: bool, ty: TypeExpr },
    /// A self-like receiver with its declared type.
    Receiver { mutable: bool, ty: TypeExpr },
}

/// One generic parameter of a declaration.
#[derive(Debug)]
pub enum GenericParamInput {
    Type { name: String, bounds: Vec<TypeBound>, default: Option<TypeExpr> },
    Lifetime { name: String, bounds: Vec<String> },
    Const { name: String, ty: TypeExpr },
}

/// A free function item.
#[derive(Debug)]
pub struct FnInput {
    pub name: String,
    pub vis: VisibilityToken,
    pub params: Vec<ParamInput>,
    pub ret: Option<TypeExpr>,
    pub generics: Vec<GenericParamInput>,
    pub attrs: Vec<AttributeInput>,
    pub body: Option<String>,
}

/// One field of a struct, union, or enum variant.
#[derive(Debug)]
pub struct FieldInput {
    pub name: Option<String>,
    pub vis: VisibilityToken,
    pub ty: TypeExpr,
    pub attrs: Vec<AttributeInput>,
}

/// The field list of a struct or variant, by source shape.
#[derive(Debug)]
pub enum FieldsInput {
    Named(Vec<FieldInput>),
    Unnamed(Vec<FieldInput>),
    Unit,
}

/// A struct item.
#[derive(Debug)]
pub struct StructInput {
    pub name: String,
    pub vis: VisibilityToken,
    pub fields: FieldsInput,
    pub generics: Vec<GenericParamInput>,
    pub attrs: Vec<AttributeInput>,
}

/// One variant of an enum item.
#[derive(Debug)]
pub struct VariantInput {
    pub name: String,
    pub fields: FieldsInput,
    /// The raw discriminant text, when present.
    pub discriminant: Option<String>,
    pub attrs: Vec<AttributeInput>,
}

/// An enum item.
#[derive(Debug)]
pub struct EnumInput {
    pub name: String,
    pub vis: VisibilityToken,
    pub variants: Vec<VariantInput>,
    pub generics: Vec<GenericParamInput>,
    pub attrs: Vec<AttributeInput>,
}

/// A union item; its fields are always named.
#[derive(Debug)]
pub struct UnionInput {
    pub name: String,
    pub vis: VisibilityToken,
    pub fields: Vec<FieldInput>,
    pub generics: Vec<GenericParamInput>,
    pub attrs: Vec<AttributeInput>,
}

/// A type alias item.
#[derive(Debug)]
pub struct TypeAliasInput {
    pub name: String,
    pub vis: VisibilityToken,
    pub ty: TypeExpr,
    pub generics: Vec<GenericParamInput>,
    pub attrs: Vec<AttributeInput>,
}

/// One method declaration of a trait.
#[derive(Debug)]
pub struct TraitMethodInput {
    pub name: String,
    pub params: Vec<ParamInput>,
    pub ret: Option<TypeExpr>,
    pub generics: Vec<GenericParamInput>,
    pub attrs: Vec<AttributeInput>,
    /// The default implementation's text, when one is declared.
    pub default_body: Option<String>,
}

/// A trait item.
#[derive(Debug)]
pub struct TraitInput {
    pub name: String,
    pub vis: VisibilityToken,
    pub methods: Vec<TraitMethodInput>,
    pub supertraits: Vec<TypeBound>,
    pub generics: Vec<GenericParamInput>,
    pub attrs: Vec<AttributeInput>,
}

/// One method of an implementation block.
#[derive(Debug)]
pub struct ImplMethodInput {
    pub name: String,
    pub vis: VisibilityToken,
    pub params: Vec<ParamInput>,
    pub ret: Option<TypeExpr>,
    pub generics: Vec<GenericParamInput>,
    pub attrs: Vec<AttributeInput>,
    pub body: Option<String>,
}

/// An implementation block.
#[derive(Debug)]
pub struct ImplInput {
    pub self_ty: TypeExpr,
    /// The implemented trait's path, when the block implements a trait.
    pub trait_path: Option<Vec<PathSegment>>,
    pub methods: Vec<ImplMethodInput>,
    pub generics: Vec<GenericParamInput>,
}

/// A module item. `content` is present for inline modules.
#[derive(Debug)]
pub struct ModuleInput {
    pub name: String,
    pub vis: VisibilityToken,
    pub attrs: Vec<AttributeInput>,
    pub content: Option<Vec<Item>>,
}

/// The tree of one `use` declaration.
#[derive(Debug)]
pub enum UseTreeInput {
    Path { ident: String, sub: Box<UseTreeInput> },
    Name(String),
    Rename { ident: String, rename: String },
    Glob,
    Group(Vec<UseTreeInput>),
}

/// A `use` declaration.
#[derive(Debug)]
pub struct UseInput {
    pub tree: UseTreeInput,
}

/// An `extern crate` declaration.
#[derive(Debug, Clone)]
pub struct ExternCrateInput {
    pub name: String,
}

/// A constant item.
#[derive(Debug)]
pub struct ConstInput {
    pub name: String,
    pub vis: VisibilityToken,
    pub ty: TypeExpr,
    pub value: Option<String>,
    pub attrs: Vec<AttributeInput>,
}

/// A static item.
#[derive(Debug)]
pub struct StaticInput {
    pub name: String,
    pub vis: VisibilityToken,
    pub mutable: bool,
    pub ty: TypeExpr,
    pub value: Option<String>,
    pub attrs: Vec<AttributeInput>,
}

/// A declarative macro definition; `tokens` is its raw body text.
#[derive(Debug, Clone)]
pub struct MacroDefInput {
    pub name: Option<String>,
    pub attrs: Vec<AttributeInput>,
    pub tokens: String,
}

/// A macro invocation site, by the invoked path's segments.
#[derive(Debug, Clone)]
pub struct MacroCallInput {
    pub path: Vec<String>,
}

/// One typed declaration node handed in by the front end.
#[derive(Debug)]
pub enum Item {
    Fn(FnInput),
    Struct(StructInput),
    Enum(EnumInput),
    Union(UnionInput),
    TypeAlias(TypeAliasInput),
    Trait(TraitInput),
    Impl(ImplInput),
    Mod(ModuleInput),
    Use(UseInput),
    ExternCrate(ExternCrateInput),
    Const(ConstInput),
    Static(StaticInput),
    MacroDef(MacroDefInput),
    MacroCall(MacroCallInput),
}

/// Size measure of a type expression.
pub open spec fn size_type(t: TypeExpr) -> nat
    decreases t,
{
    match t {
        TypeExpr::Path { segments, .. } => 1 + size_segments(segments@),
        TypeExpr::Reference { target, .. } => 1 + size_type(*target),
        TypeExpr::Slice { elem } => 1 + size_type(*elem),
        TypeExpr::Array { elem, .. } => 1 + size_type(*elem),
        TypeExpr::Tuple { elems } => 1 + size_types(elems@),
        TypeExpr::BareFn { params, ret, .. } => 1 + size_types(params@) + (match ret {
            Some(r) => size_type(*r),
            None => 0,
        }),
        TypeExpr::Never => 1,
        TypeExpr::Inferred => 1,
        TypeExpr::RawPointer { pointee, .. } => 1 + size_type(*pointee),
        TypeExpr::TraitObject { bounds, .. } => 1 + size_bounds(bounds@),
        TypeExpr::ImplTrait { bounds } => 1 + size_bounds(bounds@),
        TypeExpr::Paren { inner } => 1 + size_type(*inner),
        TypeExpr::MacroCall { .. } => 1,
        TypeExpr::Verbatim { .. } => 1,
    }
}

/// Size measure of a sequence of type expressions.
pub open spec fn size_types(s: Seq<TypeExpr>) -> nat
    decreases s,
{
    if s.len() == 0 {
        0
    } else {
        size_type(s[0]) + size_types(s.drop_first())
    }
}

/// Size measure of a sequence of path segments.
pub open spec fn size_segments(s: Seq<PathSegment>) -> nat
    decreases s,
{
    if s.len() == 0 {
        0
    } else {
        size_segment(s[0]) + size_segments(s.drop_first())
    }
}

/// Size measure of one path segment.
pub open spec fn size_segment(s: PathSegment) -> nat
    decreases s,
{
    1 + match s.args {
        PathArgs::Empty => 0,
        PathArgs::Angle(args) => size_types(args@),
        PathArgs::Parenthesized { inputs, output } => size_types(inputs@) + (match output {
            Some(o) => size_type(*o),
            None => 0,
        }),
    }
}

/// Size measure of one bound.
pub open spec fn size_bound(b: TypeBound) -> nat
    decreases b,
{
    match b {
        TypeBound::Trait(segments) => 2 + size_segments(segments@),
        TypeBound::Lifetime(_) => 2,
        TypeBound::Other(_) => 2,
    }
}

/// Size measure of a sequence of bounds.
pub open spec fn size_bounds(s: Seq<TypeBound>) -> nat
    decreases s,
{
    if s.len() == 0 {
        0
    } else {
        size_bound(s[0]) + size_bounds(s.drop_first())
    }
}

/// Size measure of one parameter.
pub open spec fn size_param(p: ParamInput) -> nat {
    match p {
        ParamInput::Typed { ty, .. } => 2 + size_type(ty),
        ParamInput::Receiver { ty, .. } => 2 + size_type(ty),
    }
}

/// Size measure of a parameter list.
pub open spec fn size_params(s: Seq<ParamInput>) -> nat
    decreases s,
{
    if s.len() == 0 {
        0
    } else {
        size_param(s[0]) + size_params(s.drop_first())
    }
}

/// Size measure of one generic parameter.
pub open spec fn size_generic(p: GenericParamInput) -> nat {
    match p {
        GenericParamInput::Type { bounds, default, .. } => 1 + size_bounds(bounds@) + (match default {
            Some(d) => size_type(d),
            None => 0,
        }),
        GenericParamInput::Lifetime { .. } => 1,
        GenericParamInput::Const { ty, .. } => 1 + size_type(ty),
    }
}

/// Size measure of a generic parameter list.
pub open spec fn size_generics(s: Seq<GenericParamInput>) -> nat
    decreases s,
{
    if s.len() == 0 {
        0
    } else {
        size_generic(s[0]) + size_generics(s.drop_first())
    }
}

/// Size measure of a field list.
pub open spec fn size_field_list(s: Seq<FieldInput>) -> nat
    decreases s,
{
    if s.len() == 0 {
        0
    } else {
        1 + size_type(s[0].ty) + size_field_list(s.drop_first())
    }
}

/// Size measure of a fields shape.
pub open spec fn size_fields(f: FieldsInput) -> nat {
    match f {
        FieldsInput::Named(fs) => size_field_list(fs@),
        FieldsInput::Unnamed(fs) => size_field_list(fs@),
        FieldsInput::Unit => 0,
    }
}

/// Size measure of a variant list.
pub open spec fn size_variants(s: Seq<VariantInput>) -> nat
    decreases s,
{
    if s.len() == 0 {
        0
    } else {
        1 + size_fields(s[0].fields) + size_variants(s.drop_first())
    }
}

/// Size measure of a signature: parameters, return type, generics.
pub open spec fn size_signature(
    params: Seq<ParamInput>,
    ret: Option<TypeExpr>,
    generics: Seq<GenericParamInput>,
) -> nat {
    2 + size_params(params) + (match ret {
        Some(t) => size_type(t),
        None => 0,
    }) + size_generics(generics)
}

/// Size measure of a trait method list.
pub open spec fn size_trait_methods(s: Seq<TraitMethodInput>) -> nat
    decreases s,
{
    if s.len() == 0 {
        0
    } else {
        size_signature(s[0].params@, s[0].ret, s[0].generics@) + size_trait_methods(s.drop_first())
    }
}

/// Size measure of an implementation method list.
pub open spec fn size_impl_methods(s: Seq<ImplMethodInput>) -> nat
    decreases s,
{
    if s.len() == 0 {
        0
    } else {
        size_signature(s[0].params@, s[0].ret, s[0].generics@) + size_impl_methods(s.drop_first())
    }
}

/// Size measure of one item.
pub open spec fn size_item(it: Item) -> nat
    decreases it,
{
    1 + match it {
        Item::Fn(f) => size_signature(f.params@, f.ret, f.generics@),
        Item::Struct(s) => 1 + size_fields(s.fields) + size_generics(s.generics@),
        Item::Enum(e) => 1 + size_variants(e.variants@) + size_generics(e.generics@),
        Item::Union(u) => 1 + size_field_list(u.fields@) + size_generics(u.generics@),
        Item::TypeAlias(a) => 1 + size_type(a.ty) + size_generics(a.generics@),
        Item::Trait(t) => 3 + size_trait_methods(t.methods@) + size_bounds(t.supertraits@)
            + size_generics(t.generics@),
        Item::Impl(i) => 2 + size_type(i.self_ty) + (match i.trait_path {
            Some(p) => 1 + size_segments(p@),
            None => 0,
        }) + size_impl_methods(i.methods@) + size_generics(i.generics@),
        Item::Mod(m) => 1 + (match m.content {
            Some(items) => size_items(items@),
            None => 0,
        }),
        Item::Use(_) => 2,
        Item::ExternCrate(_) => 2,
        Item::Const(c) => 1 + size_type(c.ty),
        Item::Static(s) => 1 + size_type(s.ty),
        Item::MacroDef(m) => 2 + m.tokens@.len(),
        Item::MacroCall(_) => 1,
    }
}

/// Size measure of an item sequence.
pub open spec fn size_items(s: Seq<Item>) -> nat
    decreases s,
{
    if s.len() == 0 {
        0
    } else {
        size_item(s[0]) + size_items(s.drop_first())
    }
}

} // verus!
