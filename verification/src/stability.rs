//! A layout that was found stays the same when more answers are found, and a query that stops
//! a layout has no answer yet.

use crate::ast::{
    AnonConst, AssocTyConstraint, AssocTyConstraintKind, BareFnTy, FnRetTy, GenericArg, GenericArgs,
    GenericBound, GenericParam, GenericParamKind, Ident, Lifetime, MutTy, Mutability, Path,
    PathSegment, PolyTraitRef, QSelf, TraitObjectSyntax, Ty, TyKind, WherePredicate,
};
use crate::config::colon;
use crate::model::{
    arg_list_text, args_shape, args_text, attributes_text, bare_fn_text, bound_shape, bound_text,
    bounded_lifetime_text, bounds_text, combined_text, const_text, constraint_kind_text,
    constraint_text, enclosed_text, equals_text, extern_text, fn_param_keys, fn_type_text,
    gap_before, gap_behind, gap_commented, generic_arg_text, in_order, joined_bounds_text,
    joiner_text, kept_plus, left, modified_shape, more_bounds_text, more_segments_text, optional,
    output_shape, param_default_text, param_name_text, param_text, params_parts, params_text,
    paren_text, path_text, poly_trait_ref_text, position_behind, qualified_path_text,
    reference_lifetime_text, reference_mut_text, reference_text, segment_text, segments_text, separator_text,
    trait_object_text, ty_keys, ty_text, unsafety_text, where_predicate_text, SelfText,
};
use crate::query::{
    first_answer, fits, Answer, ArgKey, Query, QueryView, RewriteContext, StopView, Token,
};
use crate::shape::Shape;
use crate::span::{BytePos, Span};
use crate::text::{byte_len, display_width, is_extendable, last_line};
use crate::types::PathContext;
use vstd::prelude::*;

verus! {

/// Whether `later` differs from `earlier` only in answers that were added.
pub open spec fn extends(later: &RewriteContext, earlier: &RewriteContext) -> bool {
    &&& later.config == earlier.config
    &&& later.inside_macro == earlier.inside_macro
    &&& forall|query: QueryView| #[trigger]
        earlier.answers.to(query) is Some ==> later.answers.to(query) == earlier.answers.to(query)
}

/// Whether what was found stays, and what was asked is open.
pub open spec fn stable<T>(
    earlier: &RewriteContext,
    found: Result<T, StopView>,
    found_later: Result<T, StopView>,
) -> bool {
    match found {
        Err(StopView::Ask(query)) => earlier.answers.to(query) is None,
        _ => found_later == found,
    }
}

/// An answer is of the kind that its query asks for.
proof fn lemma_answers_fit(entries: Seq<(Query, Answer)>, query: QueryView)
    ensures
        first_answer(entries, query) is Some ==> fits(query, first_answer(entries, query)->0),
    decreases entries.len(),
{
    if entries.len() > 0 {
        lemma_answers_fit(entries.drop_last(), query);
    }
}

/// Whether a query asks for a text.
pub open spec fn asks_text(query: QueryView) -> bool {
    match query {
        QueryView::Snippet { .. } => false,
        QueryView::ContainsComment { .. } => false,
        QueryView::SpanBefore { .. } => false,
        QueryView::SpanAfter { .. } => false,
        QueryView::ItemizeList { .. } => false,
        _ => true,
    }
}

/// What is found among the answers stays.
proof fn stable_answers(c: &RewriteContext, d: &RewriteContext)
    requires
        extends(d, c),
    ensures
        forall|query: QueryView|
            asks_text(query) ==> stable(c, #[trigger] c.text_for(query), d.text_for(query)),
        forall|span: Span| stable(c, #[trigger] c.source_of(span), d.source_of(span)),
        forall|span: Span| stable(c, #[trigger] c.commented(span), d.commented(span)),
        forall|span: Span, token: Token|
            stable(c, #[trigger] c.start_of(span, token), d.start_of(span, token)),
        forall|span: Span, token: Token|
            stable(c, #[trigger] c.end_of(span, token), d.end_of(span, token)),
        forall|query: QueryView|
            query is ItemizeList ==> stable(
                c,
                #[trigger] c.items_for(query),
                d.items_for(query),
            ),
{
    assert forall|query: QueryView| #[trigger] c.answers.to(query) is Some implies fits(
        query,
        c.answers.to(query)->0,
    ) by {
        lemma_answers_fit(c.answers.entries@, query);
    }
}

/// As for a type, so for a path.
pub proof fn stable_path(
    c: &RewriteContext,
    d: &RewriteContext,
    path_context: PathContext,
    qself: Option<SelfText>,
    path: Path,
    shape: Shape,
)
    requires
        extends(d, c),
    ensures
        stable(
            c,
            path_text(c, path_context, qself, path, shape),
            path_text(d, path_context, qself, path, shape),
        ),
    decreases path, 1int,
{
    let segments = path.segments@;
    let n = segments.len() as int;
    let root = if path.global() && path_context != PathContext::Import {
        "::"@
    } else {
        ""@
    };
    match qself {
        None => {
            stable_segments(
                c,
                d,
                path_context,
                root,
                segments,
                0,
                n,
                path.span.lo,
                path.span.hi,
                shape,
            );
        },
        Some(qself) => {
            let skipped: int = if qself.position <= n {
                qself.position as int
            } else {
                n
            };
            let opening = "<"@ + qself.text + " as "@ + root;
            if qself.position == 0 {
                if qself.hi != BytePos::MAX {
                    stable_segments(
                        c,
                        d,
                        path_context,
                        "<"@ + qself.text + ">::"@,
                        segments,
                        skipped,
                        n,
                        position_behind(qself, segments, skipped),
                        path.span.hi,
                        shape,
                    );
                }
            } else if let Some(narrower) = shape.narrower(3) {
                stable_segments(
                    c,
                    d,
                    PathContext::Type,
                    opening,
                    segments,
                    0,
                    skipped,
                    path.span.lo,
                    path.span.hi,
                    narrower,
                );
                if let Ok(start) = segments_text(
                    c,
                    PathContext::Type,
                    opening,
                    segments,
                    0,
                    skipped,
                    path.span.lo,
                    path.span.hi,
                    narrower,
                ) {
                    if qself.hi != BytePos::MAX {
                        stable_segments(
                            c,
                            d,
                            path_context,
                            start + ">::"@,
                            segments,
                            skipped,
                            n,
                            position_behind(qself, segments, skipped),
                            path.span.hi,
                            shape,
                        );
                    }
                }
            }
        },
    }
}

/// As for a type, so for some segments of a path.
pub proof fn stable_segments(
    c: &RewriteContext,
    d: &RewriteContext,
    path_context: PathContext,
    start: Seq<char>,
    segments: Seq<PathSegment>,
    from: int,
    to: int,
    span_lo: BytePos,
    span_hi: BytePos,
    shape: Shape,
)
    requires
        extends(d, c),
    ensures
        stable(
            c,
            segments_text(
                c,
                path_context,
                start,
                segments,
                from,
                to,
                span_lo,
                span_hi,
                shape,
            ),
            segments_text(
                d,
                path_context,
                start,
                segments,
                from,
                to,
                span_lo,
                span_hi,
                shape,
            ),
        ),
    decreases segments, left(from, to) + 1,
{
    if let Some(line) = shape.visual(0) {
        stable_more_segments(
            c,
            d,
            path_context,
            start,
            segments,
            from,
            to,
            true,
            span_lo,
            span_hi,
            line,
        );
    }
}

proof fn stable_more_segments(
    c: &RewriteContext,
    d: &RewriteContext,
    path_context: PathContext,
    start: Seq<char>,
    segments: Seq<PathSegment>,
    i: int,
    to: int,
    first: bool,
    span_lo: BytePos,
    span_hi: BytePos,
    shape: Shape,
)
    requires
        extends(d, c),
    ensures
        stable(
            c,
            more_segments_text(
                c,
                path_context,
                start,
                segments,
                i,
                to,
                first,
                span_lo,
                span_hi,
                shape,
            ),
            more_segments_text(
                d,
                path_context,
                start,
                segments,
                i,
                to,
                first,
                span_lo,
                span_hi,
                shape,
            ),
        ),
    decreases segments, left(i, to),
{
    if 0 <= i < to <= segments.len() {
        if segments[i].is_root {
            stable_more_segments(
                c,
                d,
                path_context,
                start,
                segments,
                i + 1,
                to,
                first,
                span_lo,
                span_hi,
                shape,
            );
        } else {
            let before = if first {
                start
            } else {
                start + "::"@
            };
            if let Some(segment_shape) = shape.shrunk(shape.taken_by(before)) {
                stable_segment(
                    c,
                    d,
                    path_context,
                    segments[i],
                    span_lo,
                    span_hi,
                    segment_shape,
                );
                if let Ok((text, lo)) = segment_text(
                    c,
                    path_context,
                    segments[i],
                    span_lo,
                    span_hi,
                    segment_shape,
                ) {
                    stable_more_segments(
                        c,
                        d,
                        path_context,
                        before + text,
                        segments,
                        i + 1,
                        to,
                        false,
                        lo,
                        span_hi,
                        shape,
                    );
                }
            }
        }
    }
}

/// As for a type, so for a path segment, and the position behind it.
pub proof fn stable_segment(
    c: &RewriteContext,
    d: &RewriteContext,
    path_context: PathContext,
    segment: PathSegment,
    span_lo: BytePos,
    span_hi: BytePos,
    shape: Shape,
)
    requires
        extends(d, c),
    ensures
        stable(
            c,
            segment_text(c, path_context, segment, span_lo, span_hi, shape),
            segment_text(d, path_context, segment, span_lo, span_hi, shape),
        ),
    decreases segment, 0int,
{
    let ident = segment.ident.text@;
    let n = byte_len(ident) as int;
    let args_shape = if c.block_style() {
        shape.further(n)
    } else {
        shape.shrunk(n)
    };
    if let Some(args_shape) = args_shape {
        if let Some(args) = segment.args {
            stable_args(
                c,
                d,
                path_context,
                segment.ident,
                *args,
                span_lo,
                span_hi,
                args_shape,
                ident,
            );
        }
    }
}

/// As for a type, so for generic arguments, and the position behind them.
pub proof fn stable_args(
    c: &RewriteContext,
    d: &RewriteContext,
    path_context: PathContext,
    ident: Ident,
    args: GenericArgs,
    span_lo: BytePos,
    span_hi: BytePos,
    shape: Shape,
    start: Seq<char>,
)
    requires
        extends(d, c),
    ensures
        stable(
            c,
            args_text(c, path_context, ident, args, span_lo, span_hi, shape, start),
            args_text(d, path_context, ident, args, span_lo, span_hi, shape, start),
        ),
    decreases args, 0int,
{
    stable_answers(c, d);
    match args {
        GenericArgs::AngleBracketed(data) => {
            assert(stable(
                c,
                separator_text(c, path_context, ident, data.span),
                separator_text(d, path_context, ident, data.span),
            ));
        },
        GenericArgs::Parenthesized(data) => {
            stable_fn_type(
                c,
                d,
                ty_keys(data.inputs@),
                data.output,
                false,
                data.span,
                shape,
            );
        },
    }
}

/// As for a type, so for arguments and a return type.
pub proof fn stable_fn_type(
    c: &RewriteContext,
    d: &RewriteContext,
    args: Seq<ArgKey>,
    output: FnRetTy,
    variadic: bool,
    span: Span,
    shape: Shape,
)
    requires
        extends(d, c),
    ensures
        stable(
            c,
            fn_type_text(c, args, output, variadic, span, shape),
            fn_type_text(d, args, output, variadic, span, shape),
        ),
    decreases output, 0int,
{
    if let Some(ty_shape) = output_shape(c, shape) {
        if let FnRetTy::Ty(ty) = output {
            stable_ty(c, d, *ty, ty_shape);
        }
        let output_text = match output {
            FnRetTy::Ty(ty) => match ty_text(c, *ty, ty_shape) {
                Err(stop) => Err(stop),
                Ok(text) => Ok(" -> "@ + text),
            },
            FnRetTy::Default(_) => Ok(""@),
        };
        if let Ok(output_text) = output_text {
            if let Some(list_shape) = args_shape(c, shape) {
                stable_arg_list(c, d, args, output_text, variadic, span, shape, list_shape);
            }
        }
    }
}

proof fn stable_arg_list(
    c: &RewriteContext,
    d: &RewriteContext,
    args: Seq<ArgKey>,
    output: Seq<char>,
    variadic: bool,
    span: Span,
    shape: Shape,
    list_shape: Shape,
)
    requires
        extends(d, c),
    ensures
        stable(
            c,
            arg_list_text(c, args, output, variadic, span, shape, list_shape),
            arg_list_text(d, args, output, variadic, span, shape, list_shape),
        ),
{
    stable_answers(c, d);
}

/// As for a type, so for a function pointer type.
pub proof fn stable_bare_fn(
    c: &RewriteContext,
    d: &RewriteContext,
    bare_fn: BareFnTy,
    span: Span,
    shape: Shape,
)
    requires
        extends(d, c),
    ensures
        stable(c, bare_fn_text(c, bare_fn, span, shape), bare_fn_text(d, bare_fn, span, shape)),
    decreases bare_fn, 0int,
{
    stable_params(c, d, bare_fn.generic_params@, shape);
    if let Ok(lifetimes) = optional(params_text(c, bare_fn.generic_params@, shape)) {
        let start = (match lifetimes {
            Some(lifetimes) => "for<"@ + lifetimes + "> "@,
            None => ""@,
        }) + unsafety_text(bare_fn.unsafety) + extern_text(
            bare_fn.ext,
            c.config.force_explicit_abi,
        ) + "fn"@;
        let n = byte_len(start) as int;
        let args_shape = if c.block_style() {
            shape.further(n)
        } else {
            match shape.visual(n) {
                None => None,
                Some(shape) => shape.narrower(n),
            }
        };
        if let Some(args_shape) = args_shape {
            stable_fn_type(
                c,
                d,
                fn_param_keys(bare_fn.decl.inputs@),
                bare_fn.decl.output,
                bare_fn.decl.variadic(),
                span,
                args_shape,
            );
        }
    }
}

/// As for a type, so for several generic parameters.
pub proof fn stable_params(
    c: &RewriteContext,
    d: &RewriteContext,
    params: Seq<GenericParam>,
    shape: Shape,
)
    requires
        extends(d, c),
    ensures
        stable(c, params_text(c, params, shape), params_text(d, params, shape)),
    decreases params, params.len() + 1,
{
    stable_parts(c, d, params, 0, shape);
}

proof fn stable_parts(
    c: &RewriteContext,
    d: &RewriteContext,
    params: Seq<GenericParam>,
    i: int,
    shape: Shape,
)
    requires
        extends(d, c),
    ensures
        stable(c, params_parts(c, params, i, shape), params_parts(d, params, i, shape)),
    decreases params, params.len() - i,
{
    if 0 <= i < params.len() {
        stable_param(c, d, params[i], shape);
        stable_parts(c, d, params, i + 1, shape);
    }
}

/// As for a type, so for a generic parameter.
pub proof fn stable_param(c: &RewriteContext, d: &RewriteContext, param: GenericParam, shape: Shape)
    requires
        extends(d, c),
    ensures
        stable(c, param_text(c, param, shape), param_text(d, param, shape)),
    decreases param, 2int,
{
    stable_answers(c, d);
    assert(stable(c, attributes_text(c, param, shape), attributes_text(d, param, shape)));
    if let Ok(start) = attributes_text(c, param, shape) {
        stable_param_name(c, d, param, start, shape);
        if let Ok(start) = param_name_text(c, param, start, shape) {
            stable_bounds(c, d, param.bounds@, shape);
            if param.bounds@.len() == 0 {
                stable_param_default(c, d, param, start, shape);
            } else if let Ok(bounds) = bounds_text(c, param.bounds@, shape) {
                stable_param_default(
                    c,
                    d,
                    param,
                    start + colon(c.config) + bounds,
                    shape,
                );
            }
        }
    }
}

proof fn stable_param_name(
    c: &RewriteContext,
    d: &RewriteContext,
    param: GenericParam,
    start: Seq<char>,
    shape: Shape,
)
    requires
        extends(d, c),
    ensures
        stable(
            c,
            param_name_text(c, param, start, shape),
            param_name_text(d, param, start, shape),
        ),
    decreases param, 1int,
{
    stable_answers(c, d);
    if let GenericParamKind::Const { ty, default } = param.kind {
        stable_ty(c, d, *ty, shape);
    }
}

proof fn stable_param_default(
    c: &RewriteContext,
    d: &RewriteContext,
    param: GenericParam,
    start: Seq<char>,
    shape: Shape,
)
    requires
        extends(d, c),
    ensures
        stable(
            c,
            param_default_text(c, param, start, shape),
            param_default_text(d, param, start, shape),
        ),
    decreases param, 1int,
{
    if let GenericParamKind::Type { default: Some(default) } = param.kind {
        let n = byte_len(start + equals_text(c.config)) as int;
        if let Some(shape) = shape.inside(n, n) {
            stable_ty(c, d, *default, shape);
        }
    }
}

/// As for a type, so for a trait.
pub proof fn stable_poly_trait_ref(
    c: &RewriteContext,
    d: &RewriteContext,
    poly_trait_ref: PolyTraitRef,
    shape: Shape,
)
    requires
        extends(d, c),
    ensures
        stable(
            c,
            poly_trait_ref_text(c, poly_trait_ref, shape),
            poly_trait_ref_text(d, poly_trait_ref, shape),
        ),
    decreases poly_trait_ref, 0int,
{
    let params = poly_trait_ref.bound_generic_params@;
    let path = poly_trait_ref.trait_ref.path;
    stable_params(c, d, params, shape);
    stable_path(c, d, PathContext::Type, None, path, shape);
    if let Ok(lifetimes) = params_text(c, params, shape) {
        if let Some(shape) = shape.further(byte_len(lifetimes) as int + 6) {
            stable_path(c, d, PathContext::Type, None, path, shape);
        }
    }
}

/// As for a type, so for a bound.
pub proof fn stable_bound(c: &RewriteContext, d: &RewriteContext, bound: GenericBound, shape: Shape)
    requires
        extends(d, c),
    ensures
        stable(c, bound_text(c, bound, shape), bound_text(d, bound, shape)),
    decreases bound, 0int,
{
    stable_answers(c, d);
    if let GenericBound::Trait(poly_trait_ref, modifier) = bound {
        if let Some(shape) = modified_shape(modifier, shape) {
            stable_poly_trait_ref(c, d, poly_trait_ref, shape);
        }
    }
}

/// As for a type, so for bounds.
pub proof fn stable_bounds(
    c: &RewriteContext,
    d: &RewriteContext,
    bounds: Seq<GenericBound>,
    shape: Shape,
)
    requires
        extends(d, c),
    ensures
        stable(c, bounds_text(c, bounds, shape), bounds_text(d, bounds, shape)),
    decreases bounds, bounds.len() + 3,
{
    stable_joined_bounds(c, d, bounds, shape, true, false);
}

/// As for a type, so for bounds, whether they are broken or not.
pub proof fn stable_joined_bounds(
    c: &RewriteContext,
    d: &RewriteContext,
    bounds: Seq<GenericBound>,
    shape: Shape,
    need_indent: bool,
    force_newline: bool,
)
    requires
        extends(d, c),
    ensures
        stable(
            c,
            joined_bounds_text(c, bounds, shape, need_indent, force_newline),
            joined_bounds_text(d, bounds, shape, need_indent, force_newline),
        ),
    decreases
            bounds,
            bounds.len() + if force_newline {
                1int
            } else {
                2int
            },
{
    stable_more_bounds(c, d, bounds, shape, need_indent, force_newline, 0, ""@, None, false);
    if !force_newline {
        stable_joined_bounds(c, d, bounds, shape, need_indent, true);
    }
}

proof fn stable_more_bounds(
    c: &RewriteContext,
    d: &RewriteContext,
    bounds: Seq<GenericBound>,
    shape: Shape,
    need_indent: bool,
    force_newline: bool,
    i: int,
    start: Seq<char>,
    gap: Option<Span>,
    extendable: bool,
)
    requires
        extends(d, c),
    ensures
        stable(
            c,
            more_bounds_text(
                c,
                bounds,
                shape,
                need_indent,
                force_newline,
                i,
                start,
                gap,
                extendable,
            ),
            more_bounds_text(
                d,
                bounds,
                shape,
                need_indent,
                force_newline,
                i,
                start,
                gap,
                extendable,
            ),
        ),
    decreases bounds, bounds.len() - i,
{
    if 0 <= i < bounds.len() {
        stable_answers(c, d);
        assert(stable(c, gap_behind(c, bounds, i), gap_behind(d, bounds, i)));
        assert(stable(c, gap_before(c, bounds, i), gap_before(d, bounds, i)));
        assert(stable(c, gap_commented(c, gap), gap_commented(d, gap)));
        if let (Ok(next_gap), Ok(leading)) = (gap_behind(c, bounds, i), gap_before(c, bounds, i)) {
            assert(stable(c, gap_commented(c, leading), gap_commented(d, leading)));
            if let (Ok(comment_behind), Ok(comment_before), Some(each)) = (
                gap_commented(c, leading),
                gap_commented(c, gap),
                bound_shape(c, shape, need_indent, force_newline),
            ) {
                stable_bound(c, d, bounds[i], each);
                if let Ok(bound) = bound_text(c, bounds[i], each) {
                    let joiner = joiner_text(
                        c.config,
                        each,
                        force_newline && (!extendable || !in_order(bounds)),
                        comment_before,
                        comment_behind,
                    );
                    let piece = if i == 0 {
                        Ok(bound)
                    } else {
                        combined_text(c, joiner, bound, leading, comment_behind, each)
                    };
                    assert(stable(
                        c,
                        combined_text(c, joiner, bound, leading, comment_behind, each),
                        combined_text(d, joiner, bound, leading, comment_behind, each),
                    ));
                    if let Ok(piece) = piece {
                        assert(stable(
                            c,
                            combined_text(c, start, piece, gap, comment_before, each),
                            combined_text(d, start, piece, gap, comment_before, each),
                        ));
                        if let Ok(text) = combined_text(
                            c,
                            start,
                            piece,
                            gap,
                            comment_before,
                            each,
                        ) {
                            stable_more_bounds(
                                c,
                                d,
                                bounds,
                                shape,
                                need_indent,
                                force_newline,
                                i + 1,
                                text,
                                next_gap,
                                bounds[i] is Outlives || is_extendable(bound),
                            );
                        }
                    }
                }
            }
        }
    }
}

proof fn stable_reference(
    c: &RewriteContext,
    d: &RewriteContext,
    lifetime: Option<Lifetime>,
    mt: MutTy,
    span: Span,
    shape: Shape,
)
    requires
        extends(d, c),
    ensures
        stable(
            c,
            reference_text(c, lifetime, mt, span, shape),
            reference_text(d, lifetime, mt, span, shape),
        ),
    decreases mt, 0int,
{
    stable_answers(c, d);
    if let Ok(lo) = c.end_of(span, Token::Ampersand) {
        assert(stable(
            c,
            reference_lifetime_text(c, lifetime, mt.mutbl, "&"@, lo, shape),
            reference_lifetime_text(d, lifetime, mt.mutbl, "&"@, lo, shape),
        ));
        if let Ok((text, lo)) = reference_lifetime_text(c, lifetime, mt.mutbl, "&"@, lo, shape) {
            assert(stable(
                c,
                reference_mut_text(c, mt.mutbl, text, lo, span, shape),
                reference_mut_text(d, mt.mutbl, text, lo, span, shape),
            ));
            if let Ok((text, lo)) = reference_mut_text(c, mt.mutbl, text, lo, span, shape) {
                stable_ty(c, d, *mt.ty, shape);
                let used = display_width(last_line(text)) as int;
                if let Some(inner) = shape.inside(used, used) {
                    stable_ty(c, d, *mt.ty, inner);
                }
            }
        }
    }
}

proof fn stable_trait_object(
    c: &RewriteContext,
    d: &RewriteContext,
    bounds: Seq<GenericBound>,
    syntax: TraitObjectSyntax,
    span: Span,
    shape: Shape,
)
    requires
        extends(d, c),
    ensures
        stable(
            c,
            trait_object_text(c, bounds, syntax, span, shape),
            trait_object_text(d, bounds, syntax, span, shape),
        ),
    decreases bounds, bounds.len() + 4,
{
    stable_answers(c, d);
    let bounds_shape = if syntax == TraitObjectSyntax::Dyn {
        shape.further(4)
    } else {
        Some(shape)
    };
    if let Some(shape) = bounds_shape {
        stable_bounds(c, d, bounds, shape);
        if let Ok(text) = bounds_text(c, bounds, shape) {
            let count = bounds.len() as int;
            assert(stable(c, kept_plus(c, count, span, text), kept_plus(d, count, span, text)));
        }
    }
}

proof fn stable_enclosed(
    c: &RewriteContext,
    d: &RewriteContext,
    open: Seq<char>,
    ty: Ty,
    close: Seq<char>,
    shape: Option<Shape>,
)
    requires
        extends(d, c),
    ensures
        stable(
            c,
            enclosed_text(c, open, ty, close, shape),
            enclosed_text(d, open, ty, close, shape),
        ),
    decreases ty, 1int,
{
    if let Some(shape) = shape {
        stable_ty(c, d, ty, shape);
    }
}

proof fn stable_paren(c: &RewriteContext, d: &RewriteContext, ty: Ty, shape: Shape)
    requires
        extends(d, c),
    ensures
        stable(c, paren_text(c, ty, shape), paren_text(d, ty, shape)),
    decreases ty, 2int,
{
    stable_enclosed(c, d, "("@, ty, ")"@, shape.inside(2, 1));
    stable_enclosed(c, d, "("@, ty, ")"@, shape.narrower(2));
    if let Some(inner) = shape.indented_by(c.config.tab_spaces as int) {
        let inner = inner.full_width(c.config);
        stable_enclosed(
            c,
            d,
            "("@ + inner.start_line(c.config),
            ty,
            shape.indent.new_line(c.config) + ")"@,
            Some(inner),
        );
    }
}

/// The layout of a type does not change when more answers are found, and what it asks for has
/// no answer yet. So whoever answers each query in turn makes progress with every answer, and
/// ends up with the same layout in whatever order the answers are found.
pub proof fn stable_ty(c: &RewriteContext, d: &RewriteContext, ty: Ty, shape: Shape)
    requires
        extends(d, c),
    ensures
        stable(c, ty_text(c, ty, shape), ty_text(d, ty, shape)),
    decreases ty, 0int,
{
    stable_answers(c, d);
    match ty.kind {
        TyKind::TraitObject(bounds, syntax) => {
            stable_trait_object(c, d, bounds@, syntax, ty.span, shape);
        },
        TyKind::Ptr(mt) => {
            let prefix = match mt.mutbl {
                Mutability::Mut => "*mut "@,
                Mutability::Not => "*const "@,
            };
            let n = byte_len(prefix) as int;
            stable_enclosed(c, d, prefix, *mt.ty, ""@, shape.further(n));
        },
        TyKind::Rptr(lifetime, mt) => {
            stable_reference(c, d, lifetime, mt, ty.span, shape);
        },
        TyKind::Paren(inner) => {
            stable_paren(c, d, *inner, shape);
        },
        TyKind::Slice(inner) => {
            stable_enclosed(c, d, "["@, *inner, "]"@, shape.inside(4, 1));
        },
        TyKind::Path(qself, path) => match qself {
            None => {
                stable_path(c, d, PathContext::Type, None, path, shape);
            },
            Some(qself) => {
                stable_ty(c, d, *qself.ty, shape);
                if let Ok(text) = ty_text(c, *qself.ty, shape) {
                    stable_path(
                        c,
                        d,
                        PathContext::Type,
                        Some(SelfText { text, position: qself.position, hi: qself.ty.span.hi }),
                        path,
                        shape,
                    );
                }
            },
        },
        TyKind::BareFn(bare_fn) => {
            stable_bare_fn(c, d, *bare_fn, ty.span, shape);
        },
        TyKind::ImplTrait(bounds) => {
            stable_joined_bounds(c, d, bounds@, shape, false, false);
        },
        _ => {},
    }
}

// ----- What holds types -----

/// As for a type, so for a path with the type that it may start with.
pub proof fn stable_qualified_path(
    c: &RewriteContext,
    d: &RewriteContext,
    path_context: PathContext,
    qself: Option<QSelf>,
    path: Path,
    shape: Shape,
)
    requires
        extends(d, c),
    ensures
        stable(
            c,
            qualified_path_text(c, path_context, qself, path, shape),
            qualified_path_text(d, path_context, qself, path, shape),
        ),
{
    match qself {
        None => {
            stable_path(c, d, path_context, None, path, shape);
        },
        Some(qself) => {
            stable_ty(c, d, *qself.ty, shape);
            if let Ok(text) = ty_text(c, *qself.ty, shape) {
                stable_path(
                    c,
                    d,
                    path_context,
                    Some(SelfText { text, position: qself.position, hi: qself.ty.span.hi }),
                    path,
                    shape,
                );
            }
        },
    }
}

/// As for a type, so for a constant.
pub proof fn stable_const(
    c: &RewriteContext,
    d: &RewriteContext,
    anon_const: AnonConst,
    shape: Shape,
)
    requires
        extends(d, c),
    ensures
        stable(c, const_text(c, anon_const, shape), const_text(d, anon_const, shape)),
{
    stable_answers(c, d);
}

/// As for a type, so for a generic argument.
pub proof fn stable_generic_arg(
    c: &RewriteContext,
    d: &RewriteContext,
    arg: GenericArg,
    shape: Shape,
)
    requires
        extends(d, c),
    ensures
        stable(c, generic_arg_text(c, arg, shape), generic_arg_text(d, arg, shape)),
{
    match arg {
        GenericArg::Lifetime(_) => {},
        GenericArg::Type(ty) => stable_ty(c, d, *ty, shape),
        GenericArg::Const(anon_const) => stable_const(c, d, anon_const, shape),
    }
}

/// As for a type, so for what an associated type is constrained to.
pub proof fn stable_constraint_kind(
    c: &RewriteContext,
    d: &RewriteContext,
    kind: AssocTyConstraintKind,
    shape: Shape,
)
    requires
        extends(d, c),
    ensures
        stable(c, constraint_kind_text(c, kind, shape), constraint_kind_text(d, kind, shape)),
{
    match kind {
        AssocTyConstraintKind::Equality { ty } => stable_ty(c, d, *ty, shape),
        AssocTyConstraintKind::Bound { bounds } => stable_bounds(c, d, bounds@, shape),
    }
}

/// As for a type, so for the constraint on an associated type.
pub proof fn stable_constraint(
    c: &RewriteContext,
    d: &RewriteContext,
    constraint: AssocTyConstraint,
    shape: Shape,
)
    requires
        extends(d, c),
    ensures
        stable(c, constraint_text(c, constraint, shape), constraint_text(d, constraint, shape)),
{
    let ident = constraint.ident.text@;
    let (lo, hi) = (constraint.span.lo, constraint.span.hi);
    if let Some(args) = constraint.gen_args {
        stable_args(c, d, PathContext::Type, constraint.ident, *args, lo, hi, shape, ident);
    }
    let segment = match constraint.gen_args {
        None => Ok((ident, lo)),
        Some(args) => args_text(
            c,
            PathContext::Type,
            constraint.ident,
            *args,
            lo,
            hi,
            shape,
            ident,
        ),
    };
    if let Ok((segment, _)) = segment {
        let start = segment + match constraint.kind {
            AssocTyConstraintKind::Bound { .. } => ": "@,
            AssocTyConstraintKind::Equality { .. } => equals_text(c.config),
        };
        let n = byte_len(start) as int;
        if let Some(shape) = shape.inside(n, n) {
            stable_constraint_kind(c, d, constraint.kind, shape);
        }
    }
}

/// As for a type, so for a lifetime and the lifetimes that it outlives.
pub proof fn stable_bounded_lifetime(
    c: &RewriteContext,
    d: &RewriteContext,
    lifetime: Lifetime,
    bounds: Seq<GenericBound>,
    shape: Shape,
)
    requires
        extends(d, c),
    ensures
        stable(
            c,
            bounded_lifetime_text(c, lifetime, bounds, shape),
            bounded_lifetime_text(d, lifetime, bounds, shape),
        ),
{
    let n = (display_width(last_line(lifetime.ident.text@)) + byte_len(colon(c.config))) as int;
    if let Some(shape) = shape.narrower(n) {
        stable_joined_bounds(c, d, bounds, shape, true, false);
    }
}

/// As for a type, so for a where predicate.
pub proof fn stable_where_predicate(
    c: &RewriteContext,
    d: &RewriteContext,
    predicate: WherePredicate,
    shape: Shape,
)
    requires
        extends(d, c),
    ensures
        stable(
            c,
            where_predicate_text(c, predicate, shape),
            where_predicate_text(d, predicate, shape),
        ),
{
    stable_answers(c, d);
    match predicate {
        WherePredicate::BoundPredicate(data) => {
            stable_ty(c, d, *data.bounded_ty, shape);
            stable_params(c, d, data.bound_generic_params@, shape);
        },
        WherePredicate::RegionPredicate(data) => {
            stable_bounded_lifetime(c, d, data.lifetime, data.bounds@, shape);
        },
        WherePredicate::EqPredicate(data) => {
            stable_ty(c, d, *data.lhs_ty, shape);
        },
    }
}

} // verus!
