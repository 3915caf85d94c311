//! What the layouts of the kinds of types have to satisfy.

use super::generics::meeting;
use super::paths::{encloses, failed};
use crate::ast::{GenericBound, Lifetime, MutTy, Mutability, TraitObjectSyntax, Ty, TyKind};
use crate::config::IndentStyle;
use crate::model::{
    bounds_text, enclosed_text, joined_bounds_text, mutability_text, paren_text,
    reference_lifetime_text, reference_mut_text, reference_text, trait_object_text, ty_text,
};
use crate::query::{
    Layout, MacroPosition, PairPartsView, QueryView, RewriteContext, SeparatorPlace, StopView,
    Token,
};
use crate::shape::Shape;
use crate::span::{between, BytePos, Span};
use crate::text::{byte_len, display_width, is_multiline, last_line, trimmed_end};
use vstd::prelude::*;

verus! {

// ----- Types without parts -----

/// Types that are written in one way only. `_` needs a column.
pub proof fn law_fixed_types(context: &RewriteContext, ty: Ty, shape: Shape)
    ensures
        ty.kind is Never ==> ty_text(context, ty, shape) == Ok::<Seq<char>, StopView>("!"@),
        ty.kind is CVarArgs ==> ty_text(context, ty, shape) == Ok::<Seq<char>, StopView>("..."@),
        ty.kind is ImplicitSelf ==> ty_text(context, ty, shape) == Ok::<Seq<char>, StopView>(
            Seq::empty(),
        ),
        ty.kind is Infer && shape.width >= 1 ==> ty_text(context, ty, shape) == Ok::<
            Seq<char>,
            StopView,
        >("_"@),
        ty.kind is Infer && shape.width == 0 ==> ty_text(context, ty, shape) == failed(),
        ty.kind is Error ==> ty_text(context, ty, shape) == context.source_of(ty.span),
{
    reveal_with_fuel(ty_text, 2);
    reveal_strlit("");
    assert(""@ =~= Seq::<char>::empty());
}

/// Tuples, arrays, macro calls and `typeof` are laid out elsewhere: a tuple with all its items
/// in their order, an array between brackets with `; ` at the end of a line, a macro call as an
/// expression, and `typeof` as a call.
pub proof fn law_types_from_elsewhere(
    context: &RewriteContext,
    ty: Ty,
    shape: Shape,
    ids: Seq<u32>,
)
    ensures
        ty.kind matches TyKind::Tup(items) ==> (ids.len() == items@.len() && (forall|i: int|
            0 <= i < ids.len() ==> ids[i] == (#[trigger] items@[i]).id) ==> ty_text(
            context,
            ty,
            shape,
        ) == context.text_for(
            QueryView::Tuple { types: ids, span: ty.span, shape, is_singleton: ids.len() == 1 },
        )),
        ty.kind matches TyKind::Array(inner, len) ==> ty_text(context, ty, shape)
            == context.text_for(
            QueryView::Pair {
                ty: inner.id,
                expr: len.id,
                parts: PairPartsView {
                    prefix: "["@,
                    before_infix: ""@,
                    infix: "; "@,
                    behind_infix: ""@,
                    suffix: "]"@,
                },
                shape,
                separator_place: SeparatorPlace::Back,
            },
        ),
        ty.kind matches TyKind::MacCall(mac) ==> ty_text(context, ty, shape) == context.text_for(
            QueryView::Macro {
                mac,
                extra_ident: None,
                shape,
                position: MacroPosition::Expression,
            },
        ),
        ty.kind matches TyKind::Typeof(anon_const) ==> ty_text(context, ty, shape)
            == context.text_for(
            QueryView::Call {
                callee: "typeof"@,
                exprs: seq![anon_const.id],
                span: ty.span,
                shape,
            },
        ),
{
    reveal_with_fuel(ty_text, 2);
    if let TyKind::Tup(items) = ty.kind {
        if ids.len() == items@.len() && (forall|i: int|
            0 <= i < ids.len() ==> ids[i] == (#[trigger] items@[i]).id) {
            assert(ids =~= items@.map_values(|item: Ty| item.id)) by {
                assert forall|i: int| 0 <= i < ids.len() implies ids[i] == items@.map_values(
                    |item: Ty| item.id,
                )[i] by {
                    assert(ids[i] == items@[i].id);
                }
            }
        }
    }
}

// ----- Types around a type -----

/// A pointer is `*mut ` or `*const ` and the type, which starts behind it.
pub proof fn law_pointer(context: &RewriteContext, ty: Ty, mt: MutTy, shape: Shape)
    requires
        ty.kind == TyKind::Ptr(mt),
    ensures
        ({
            let prefix = if mt.mutbl == Mutability::Mut {
                "*mut "@
            } else {
                "*const "@
            };
            match shape.further(byte_len(prefix) as int) {
                None => ty_text(context, ty, shape) == failed(),
                Some(inner) => encloses(
                    ty_text(context, ty, shape),
                    prefix,
                    ty_text(context, *mt.ty, inner),
                    Seq::empty(),
                ),
            }
        }),
{
    reveal_with_fuel(ty_text, 3);
    reveal_strlit("");
    assert(""@ =~= Seq::<char>::empty());
}

/// A slice is a type between brackets, in what four columns leave, aligned behind the first
/// bracket.
#[verifier::rlimit(40)]
pub proof fn law_slice(context: &RewriteContext, ty: Ty, inner: Ty, shape: Shape)
    requires
        ty.kind == TyKind::Slice(Box::new(inner)),
    ensures
        match shape.inside(4, 1) {
            None => ty_text(context, ty, shape) == failed(),
            Some(within) => encloses(
                ty_text(context, ty, shape),
                "["@,
                ty_text(context, inner, within),
                "]"@,
            ),
        },
{
    reveal_with_fuel(ty_text, 3);
}

/// In visual style a type in parentheses has what they leave, aligned behind the first one.
#[verifier::rlimit(40)]
pub proof fn law_parenthesized_visual(context: &RewriteContext, ty: Ty, inner: Ty, shape: Shape)
    requires
        ty.kind == TyKind::Paren(Box::new(inner)),
        context.config.indent_style == IndentStyle::Visual,
    ensures
        match shape.inside(2, 1) {
            None => ty_text(context, ty, shape) == failed(),
            Some(within) => encloses(
                ty_text(context, ty, shape),
                "("@,
                ty_text(context, inner, within),
                ")"@,
            ),
        },
{
    reveal_with_fuel(ty_text, 4);
}

/// In block style a type in parentheses goes on one line if it can, in what the parentheses
/// leave. Otherwise it gets lines of its own between them, indented by the width of a tab.
#[verifier::rlimit(40)]
pub proof fn law_parenthesized_block(context: &RewriteContext, ty: Ty, inner: Ty, shape: Shape)
    requires
        ty.kind == TyKind::Paren(Box::new(inner)),
        context.config.indent_style == IndentStyle::Block,
    ensures
        ({
            let whole = ty_text(context, ty, shape);
            let narrow = Shape { width: (shape.width - 2) as usize, ..shape };
            let flat: Layout = if shape.width >= 2 {
                ty_text(context, inner, narrow)
            } else {
                failed()
            };
            let broken = match shape.indented_by(context.config.tab_spaces as int) {
                None => whole == failed(),
                Some(deeper) => {
                    let deeper = deeper.full_width(context.config);
                    encloses(
                        whole,
                        "("@ + deeper.start_line(context.config),
                        ty_text(context, inner, deeper),
                        shape.indent.new_line(context.config) + ")"@,
                    )
                },
            };
            match flat {
                Err(StopView::Ask(query)) => whole == Err::<Seq<char>, StopView>(
                    StopView::Ask(query),
                ),
                Err(StopView::Failed) => broken,
                Ok(text) => if is_multiline(text) {
                    broken
                } else {
                    whole == Ok::<Seq<char>, StopView>("("@ + text + ")"@)
                },
            }
        }),
{
    assert(ty_text(context, ty, shape) == paren_text(context, inner, shape)) by {
        reveal_with_fuel(ty_text, 2);
    }
    lemma_enclosed(context, "("@, inner, ")"@, shape.narrower(2));
    if let Some(deeper) = shape.indented_by(context.config.tab_spaces as int) {
        let deeper = deeper.full_width(context.config);
        lemma_enclosed(
            context,
            "("@ + deeper.start_line(context.config),
            inner,
            shape.indent.new_line(context.config) + ")"@,
            Some(deeper),
        );
    }
    if shape.width >= 2 {
        let narrow = Shape { width: (shape.width - 2) as usize, ..shape };
        assert(shape.narrower(2) == Some(narrow));
        if let Ok(text) = ty_text(context, inner, narrow) {
            reveal_strlit("(");
            reveal_strlit(")");
            super::lemma_multiline_add("("@ + text, ")"@);
            super::lemma_multiline_add("("@, text);
            assert("("@[0] == '(' && ")"@[0] == ')');
        }
    }
    reveal_with_fuel(paren_text, 2);
}

/// A type with texts around it stops where the type stops.
proof fn lemma_enclosed(
    context: &RewriteContext,
    open: Seq<char>,
    ty: Ty,
    close: Seq<char>,
    shape: Option<Shape>,
)
    ensures
        match shape {
            None => enclosed_text(context, open, ty, close, shape) == failed(),
            Some(inner) => encloses(
                enclosed_text(context, open, ty, close, shape),
                open,
                ty_text(context, ty, inner),
                close,
            ),
        },
{
    reveal_with_fuel(enclosed_text, 2);
}

/// A trait object is `dyn ` if it is written with it, and its bounds, which start behind it.
/// Behind these stands a `+` exactly where the source of a macro call has one behind a single
/// bound, and the text does not end with one.
#[verifier::rlimit(40)]
pub proof fn law_trait_object(
    context: &RewriteContext,
    ty: Ty,
    bounds: Vec<GenericBound>,
    syntax: TraitObjectSyntax,
    shape: Shape,
)
    requires
        ty.kind == TyKind::TraitObject(bounds, syntax),
    ensures
        ({
            let whole = ty_text(context, ty, shape);
            let (word, n) = if syntax == TraitObjectSyntax::Dyn {
                ("dyn "@, 4int)
            } else {
                (Seq::empty(), 0int)
            };
            let inner = if n == 0 {
                Some(shape)
            } else {
                shape.further(n)
            };
            match inner {
                None => whole == failed(),
                Some(inner) => match bounds_text(context, bounds@, inner) {
                    Err(stop) => whole == Err::<Seq<char>, StopView>(stop),
                    Ok(text) => if context.inside_macro && bounds@.len() == 1 {
                        match context.source_of(ty.span) {
                            Err(stop) => whole == Err::<Seq<char>, StopView>(stop),
                            Ok(source) => {
                                let plus = source.len() > 0 && source.last() == '+' && !(
                                text.len() > 0 && text.last() == '+');
                                whole == Ok::<Seq<char>, StopView>(
                                    word + text + (if plus {
                                        "+"@
                                    } else {
                                        Seq::empty()
                                    }),
                                )
                            },
                        }
                    } else {
                        whole == Ok::<Seq<char>, StopView>(word + text)
                    },
                },
            }
        }),
{
    reveal_with_fuel(ty_text, 2);
    reveal_with_fuel(trait_object_text, 2);
    reveal_strlit("");
    reveal_strlit("+");
    let nothing = Seq::<char>::empty();
    assert(""@ =~= nothing);
    assert forall|s: Seq<char>| #[trigger] "+"@.is_suffix_of(s) <==> s.len() > 0 && s.last()
        == '+' by {
        let k = s.len() as int;
        if k > 0 && s.last() == '+' {
            assert(s.subrange(k - 1, k) =~= "+"@);
        }
        if "+"@.is_suffix_of(s) {
            assert(s.subrange(k - 1, k)[0] == '+');
        }
    }
    let word = if syntax == TraitObjectSyntax::Dyn {
        "dyn "@
    } else {
        nothing
    };
    let inner = if syntax == TraitObjectSyntax::Dyn {
        shape.further(4)
    } else {
        Some(shape)
    };
    if let Some(inner) = inner {
        if let Ok(text) = bounds_text(context, bounds@, inner) {
            assert(word + (text + nothing) =~= word + text);
            assert(word + (text + "+"@) =~= word + text + "+"@);
            assert(word + text + nothing =~= word + text);
        }
    }
}

/// `impl` stands before the bounds, with a space between them if there are any. Their lines
/// keep their indent if they are broken.
pub proof fn law_impl_trait(
    context: &RewriteContext,
    ty: Ty,
    bounds: Vec<GenericBound>,
    shape: Shape,
)
    requires
        ty.kind == TyKind::ImplTrait(bounds),
    ensures
        bounds@.len() == 0 ==> ty_text(context, ty, shape) == Ok::<Seq<char>, StopView>("impl"@),
        bounds@.len() > 0 ==> match joined_bounds_text(context, bounds@, shape, false, false) {
            Err(stop) => ty_text(context, ty, shape) == Err::<Seq<char>, StopView>(stop),
            Ok(text) => ty_text(context, ty, shape) == Ok::<Seq<char>, StopView>(
                if text.len() == 0 {
                    "impl"@
                } else {
                    "impl "@ + text
                },
            ),
        },
{
    reveal_with_fuel(ty_text, 2);
}

// ----- References -----

/// The lifetime of a reference goes behind the `&`, with the comments between them and a space
/// behind it. It needs two columns and those of `mut `.
pub proof fn law_reference_lifetime(
    context: &RewriteContext,
    lifetime: Option<Lifetime>,
    mutability: Mutability,
    start: Seq<char>,
    lo: BytePos,
    shape: Shape,
)
    ensures
        ({
            let whole = reference_lifetime_text(context, lifetime, mutability, start, lo, shape);
            match lifetime {
                None => whole == Ok::<(Seq<char>, BytePos), StopView>((start, lo)),
                Some(lifetime) => {
                    let gap = between(lo, lifetime.ident.span.lo);
                    let needed: int = if mutability == Mutability::Mut {
                        6
                    } else {
                        2
                    };
                    if shape.width < needed {
                        whole == Err::<(Seq<char>, BytePos), StopView>(StopView::Failed)
                    } else {
                        match context.commented(gap) {
                            Err(stop) => whole == Err::<(Seq<char>, BytePos), StopView>(stop),
                            Ok(commented) => match meeting(
                                context,
                                start,
                                lifetime.ident.text@,
                                Some(gap),
                                commented,
                                shape,
                            ) {
                                Err(stop) => whole == Err::<(Seq<char>, BytePos), StopView>(stop),
                                Ok(text) => whole == Ok::<(Seq<char>, BytePos), StopView>(
                                    (text + " "@, lifetime.ident.span.hi),
                                ),
                            },
                        }
                    }
                },
            }
        }),
{
    lemma_mut_len();
}

/// `mut ` takes up four bytes.
proof fn lemma_mut_len()
    ensures
        byte_len(mutability_text(Mutability::Mut)) == 4,
        byte_len(mutability_text(Mutability::Not)) == 0,
{
    reveal_strlit("mut ");
    reveal_strlit("");
    reveal_with_fuel(vstd::utf8::encode_utf8, 5);
    let s = "mut "@;
    assert(s =~= seq!['m', 'u', 't', ' ']);
    vstd::utf8::is_ascii_chars_encode_utf8(s);
}

/// The `mut` of a reference goes behind what stands before it, with the comments between them,
/// and the position moves to its end. Three columns before that it starts.
pub proof fn law_reference_mut(
    context: &RewriteContext,
    mutability: Mutability,
    start: Seq<char>,
    lo: BytePos,
    span: Span,
    shape: Shape,
)
    ensures
        ({
            let whole = reference_mut_text(context, mutability, start, lo, span, shape);
            if mutability == Mutability::Not {
                whole == Ok::<(Seq<char>, BytePos), StopView>((start, lo))
            } else {
                match context.end_of(span, Token::Mut) {
                    Err(stop) => whole == Err::<(Seq<char>, BytePos), StopView>(stop),
                    Ok(hi) => if hi < 3 {
                        whole == Err::<(Seq<char>, BytePos), StopView>(StopView::Failed)
                    } else {
                        let gap = between(lo, (hi - 3) as BytePos);
                        match context.commented(gap) {
                            Err(stop) => whole == Err::<(Seq<char>, BytePos), StopView>(stop),
                            Ok(false) => whole == Ok::<(Seq<char>, BytePos), StopView>(
                                (start + "mut "@, hi),
                            ),
                            Ok(true) => match context.text_for(
                                QueryView::CombineWithComments {
                                    prev: trimmed_end(start),
                                    next: "mut "@,
                                    span: gap,
                                    shape,
                                    allow_extend: true,
                                },
                            ) {
                                Err(stop) => whole == Err::<(Seq<char>, BytePos), StopView>(stop),
                                Ok(text) => whole == Ok::<(Seq<char>, BytePos), StopView>(
                                    (text, hi),
                                ),
                            },
                        }
                    },
                }
            }
        }),
{
}

/// A reference is `&`, its lifetime, its `mut` and its type, each with the comments before it.
/// The type has what is left of the line behind these, or the room of the whole reference
/// behind a comment.
#[verifier::rlimit(40)]
pub proof fn law_reference(
    context: &RewriteContext,
    ty: Ty,
    lifetime: Option<Lifetime>,
    mt: MutTy,
    shape: Shape,
)
    requires
        ty.kind == TyKind::Rptr(lifetime, mt),
    ensures
        ({
            let whole = ty_text(context, ty, shape);
            let lo = context.end_of(ty.span, Token::Ampersand);
            let first = reference_lifetime_text(context, lifetime, mt.mutbl, "&"@, lo->Ok_0, shape);
            let second = reference_mut_text(
                context,
                mt.mutbl,
                first->Ok_0.0,
                first->Ok_0.1,
                ty.span,
                shape,
            );
            let start = second->Ok_0.0;
            let gap = between(second->Ok_0.1, mt.ty.span.lo);
            let used = display_width(last_line(start)) as int;
            &&& lo matches Err(stop) ==> whole == Err::<Seq<char>, StopView>(stop)
            &&& lo is Ok ==> (first matches Err(stop) ==> whole == Err::<Seq<char>, StopView>(stop))
            &&& lo is Ok && first is Ok ==> (second matches Err(stop) ==> whole == Err::<
                Seq<char>,
                StopView,
            >(stop))
            &&& lo is Ok && first is Ok && second is Ok ==> match context.commented(gap) {
                Err(stop) => whole == Err::<Seq<char>, StopView>(stop),
                Ok(false) => match shape.inside(used, used) {
                    None => whole == failed(),
                    Some(inner) => encloses(
                        whole,
                        start,
                        ty_text(context, *mt.ty, inner),
                        Seq::empty(),
                    ),
                },
                Ok(true) => match ty_text(context, *mt.ty, shape) {
                    Err(stop) => whole == Err::<Seq<char>, StopView>(stop),
                    Ok(ty) => whole == context.text_for(
                        QueryView::CombineWithComments {
                            prev: trimmed_end(start),
                            next: ty,
                            span: gap,
                            shape,
                            allow_extend: true,
                        },
                    ),
                },
            }
        }),
{
    reveal_with_fuel(ty_text, 2);
    reveal_with_fuel(reference_text, 2);
    let nothing = Seq::<char>::empty();
    assert forall|a: Seq<char>, b: Seq<char>| #[trigger] (a + b + nothing) == a + b by {
        assert(a + b + nothing =~= a + b);
    }
}

} // verus!
