//! The syntax of types, as far as its layout depends on it.

use crate::span::Span;
use vstd::prelude::*;

verus! {

/// Names a node of the syntax tree to those who format what is not a type. Whoever builds the
/// tree gives any two nodes different ids.
pub type NodeId = u32;

/// An identifier or a lifetime, as it is written in the source.
#[derive(Debug)]
pub struct Ident {
    pub text: String,
    pub span: Span,
}

#[derive(Debug)]
pub struct Lifetime {
    pub id: NodeId,
    pub ident: Ident,
}

/// An expression in a type, such as the length of an array.
#[derive(Debug)]
pub struct AnonConst {
    pub id: NodeId,
    pub span: Span,
}

/// The `T` in `<T as a::b::Trait>::Assoc`. The first `position` segments of the path stand
/// within the angle brackets.
#[derive(Debug)]
pub struct QSelf {
    pub ty: Box<Ty>,
    pub position: usize,
}

#[derive(Debug)]
pub struct Path {
    pub span: Span,
    pub segments: Vec<PathSegment>,
}

/// A segment of a path. A path that starts with `::` has a root as its first segment, which
/// has no text.
#[derive(Debug)]
pub struct PathSegment {
    pub is_root: bool,
    pub ident: Ident,
    pub args: Option<Box<GenericArgs>>,
}

#[derive(Debug)]
pub enum GenericArgs {
    /// The `<A, B>` in `Foo<A, B>`.
    AngleBracketed(AngleBracketedArgs),
    /// The `(A, B) -> C` in `Foo(A, B) -> C`.
    Parenthesized(ParenthesizedArgs),
}

#[derive(Debug)]
pub struct AngleBracketedArgs {
    pub span: Span,
    pub args: Vec<AngleBracketedArg>,
}

#[derive(Debug)]
pub enum AngleBracketedArg {
    Arg(GenericArg),
    Constraint(AssocTyConstraint),
}

#[derive(Debug)]
pub enum GenericArg {
    Lifetime(Lifetime),
    Type(Box<Ty>),
    Const(AnonConst),
}

/// The `A = Bar` in `Foo<A = Bar>` or the `A: Bar` in `Foo<A: Bar>`.
#[derive(Debug)]
pub struct AssocTyConstraint {
    pub id: NodeId,
    pub ident: Ident,
    pub gen_args: Option<Box<GenericArgs>>,
    pub kind: AssocTyConstraintKind,
    pub span: Span,
}

#[derive(Debug)]
pub enum AssocTyConstraintKind {
    Equality { ty: Box<Ty> },
    Bound { bounds: Vec<GenericBound> },
}

#[derive(Debug)]
pub struct ParenthesizedArgs {
    pub span: Span,
    pub inputs: Vec<Ty>,
    pub output: FnRetTy,
}

#[derive(Debug)]
pub enum FnRetTy {
    /// No return type is written.
    Default(Span),
    Ty(Box<Ty>),
}

#[derive(Clone, Copy, Debug, PartialEq, Eq, Structural)]
pub enum TraitBoundModifier {
    Plain,
    /// `?Trait`
    Maybe,
    /// `?const Trait`
    MaybeConst,
    /// `?const ?Trait`
    MaybeConstMaybe,
}

#[derive(Debug)]
pub enum GenericBound {
    Trait(PolyTraitRef, TraitBoundModifier),
    Outlives(Lifetime),
}

#[derive(Debug)]
pub struct PolyTraitRef {
    /// The `'a` in `for<'a> Foo<'a>`.
    pub bound_generic_params: Vec<GenericParam>,
    pub trait_ref: TraitRef,
    pub span: Span,
}

#[derive(Debug)]
pub struct TraitRef {
    pub path: Path,
}

#[derive(Debug)]
pub struct GenericParam {
    pub id: NodeId,
    pub ident: Ident,
    pub bounds: Vec<GenericBound>,
    pub kind: GenericParamKind,
}

#[derive(Debug)]
#[allow(inconsistent_fields)]
pub enum GenericParamKind {
    Lifetime,
    Type { default: Option<Box<Ty>> },
    Const { ty: Box<Ty>, default: Option<AnonConst> },
}

#[derive(Debug)]
pub enum WherePredicate {
    /// `for<'a> T: Bounds`
    BoundPredicate(WhereBoundPredicate),
    /// `'a: 'b + 'c`
    RegionPredicate(WhereRegionPredicate),
    /// `T = U`
    EqPredicate(WhereEqPredicate),
}

#[derive(Debug)]
pub struct WhereBoundPredicate {
    pub id: NodeId,
    pub bound_generic_params: Vec<GenericParam>,
    pub bounded_ty: Box<Ty>,
    pub bounds: Vec<GenericBound>,
}

#[derive(Debug)]
pub struct WhereRegionPredicate {
    pub lifetime: Lifetime,
    pub bounds: Vec<GenericBound>,
}

#[derive(Debug)]
pub struct WhereEqPredicate {
    pub lhs_ty: Box<Ty>,
    pub rhs_ty: Box<Ty>,
}

#[derive(Clone, Copy, Debug, PartialEq, Eq, Structural)]
pub enum Mutability {
    Mut,
    Not,
}

#[derive(Debug)]
pub struct MutTy {
    pub ty: Box<Ty>,
    pub mutbl: Mutability,
}

#[derive(Clone, Copy, Debug, PartialEq, Eq, Structural)]
pub enum Unsafe {
    Yes,
    No,
}

#[derive(Debug)]
pub enum Extern {
    Absent,
    /// `extern fn`
    Implicit,
    /// `extern "abi" fn`
    Explicit(String),
}

#[derive(Debug)]
pub struct BareFnTy {
    pub unsafety: Unsafe,
    pub ext: Extern,
    pub generic_params: Vec<GenericParam>,
    pub decl: FnDecl,
}

#[derive(Debug)]
pub struct FnDecl {
    pub inputs: Vec<Param>,
    pub output: FnRetTy,
}

/// A parameter of a function, which may have a name and attributes before its type.
#[derive(Debug)]
pub struct Param {
    pub id: NodeId,
    pub span: Span,
    pub ty: Box<Ty>,
}

#[derive(Clone, Copy, Debug, PartialEq, Eq, Structural)]
pub enum TraitObjectSyntax {
    Dyn,
    Bare,
}

#[derive(Debug)]
pub struct Ty {
    pub id: NodeId,
    pub kind: TyKind,
    pub span: Span,
}

#[derive(Debug)]
pub enum TyKind {
    /// `[T]`
    Slice(Box<Ty>),
    /// `[T; n]`
    Array(Box<Ty>, AnonConst),
    /// `*const T` or `*mut T`
    Ptr(MutTy),
    /// `&'a T` or `&'a mut T`
    Rptr(Option<Lifetime>, MutTy),
    /// `fn(usize) -> bool`
    BareFn(Box<BareFnTy>),
    /// `!`
    Never,
    /// `(A, B)`
    Tup(Vec<Ty>),
    /// `a::b::C` or `<T as a::b::Trait>::Assoc`
    Path(Option<QSelf>, Path),
    /// `dyn A + B`, or `A + B` with the `dyn` left out
    TraitObject(Vec<GenericBound>, TraitObjectSyntax),
    /// `impl A + B`
    ImplTrait(Vec<GenericBound>),
    /// `(T)`
    Paren(Box<Ty>),
    /// `typeof(expr)`
    Typeof(AnonConst),
    /// `_`
    Infer,
    /// The type of `self` where none is written.
    ImplicitSelf,
    /// A macro call in the place of a type. The id names the call.
    MacCall(NodeId),
    /// What could not be parsed.
    Error,
    /// `...`
    CVarArgs,
}

impl Path {
    /// Whether the path starts with `::`.
    pub open spec fn global(self) -> bool {
        self.segments@.len() > 0 && self.segments@[0].is_root
    }

    /// Whether the path starts with `::`.
    pub fn is_global(&self) -> (b: bool)
        ensures
            b == self.global(),
    {
        self.segments.len() > 0 && self.segments[0].is_root
    }
}

impl FnDecl {
    /// Whether the last parameter is `...`.
    pub open spec fn variadic(self) -> bool {
        self.inputs@.len() > 0 && self.inputs@.last().ty.kind is CVarArgs
    }

    /// Whether the last parameter is `...`.
    pub fn c_variadic(&self) -> (b: bool)
        ensures
            b == self.variadic(),
    {
        self.inputs.len() > 0 && matches!(self.inputs[self.inputs.len() - 1].ty.kind, TyKind::CVarArgs)
    }
}

impl GenericBound {
    /// The part of the source that the bound was parsed from.
    pub open spec fn source(self) -> Span {
        match self {
            GenericBound::Trait(poly_trait_ref, _) => poly_trait_ref.span,
            GenericBound::Outlives(lifetime) => lifetime.ident.span,
        }
    }

    /// The part of the source that the bound was parsed from.
    pub fn span(&self) -> (span: Span)
        ensures
            span == self.source(),
    {
        match self {
            GenericBound::Trait(poly_trait_ref, _) => poly_trait_ref.span,
            GenericBound::Outlives(lifetime) => lifetime.ident.span,
        }
    }
}

} // verus!
