//! What the layouts of generic parameters, bounds and constraints have to satisfy.

use super::functions::binder;
use super::paths::{encloses, failed};
use super::{
    arg_source, broken_text, law_bounds_are_joined_by_plus, law_broken_bounds_start_with_plus, plus_text,
    uncommented,
};
use crate::ast::{
    AngleBracketedArg, AnonConst, AssocTyConstraint, AssocTyConstraintKind, GenericArg, GenericArgs, GenericBound,
    GenericParam, GenericParamKind, Lifetime, PathSegment, PolyTraitRef, TraitBoundModifier,
    WherePredicate,
};
use crate::config::{colon, Config, TypeDensity};
use crate::model::{
    args_text, attributes_text, bound_shape, bound_text, bounded_lifetime_text, bounds_text,
    breakable, const_text, constraint_kind_text, constraint_text, equals_text, gap_before,
    gap_behind, gap_commented, generic_arg_text, in_order, joined_bounds_text, joiner_text,
    more_bounds_text, param_key, param_text, params_parts, params_text, path_text, poly_trait_ref_text,
    ty_text, where_predicate_text,
};
use crate::query::{ExprType, Layout, QueryView, RewriteContext, RhsKey, StopView, Token};
use crate::shape::Shape;
use crate::span::{between, Span};
use crate::text::{
    byte_len, display_width, is_extendable, is_multiline, is_white_space, joined, last_line,
    trimmed_end, trimmed_start,
};
use crate::types::{PathContext, SegmentParam};
use vstd::prelude::*;

verus! {

// ----- Generic parameters -----

/// A constant is laid out as part of a larger expression.
pub proof fn law_const(context: &RewriteContext, anon_const: AnonConst, shape: Shape)
    ensures
        const_text(context, anon_const, shape) == context.text_for(
            QueryView::Expr { expr: anon_const.id, expr_type: ExprType::SubExpression, shape },
        ),
{
}

/// Attributes go before a parameter, with a space behind them if there are any. They do not
/// stop the parameter if they have no layout.
pub proof fn law_attributes(context: &RewriteContext, param: GenericParam, shape: Shape)
    ensures
        ({
            let whole = attributes_text(context, param, shape);
            match context.text_for(QueryView::Attributes { param: param.id, shape }) {
                Ok(text) => whole == Ok::<Seq<char>, StopView>(
                    if text.len() == 0 {
                        Seq::empty()
                    } else {
                        text + " "@
                    },
                ),
                Err(StopView::Failed) => whole == Ok::<Seq<char>, StopView>(Seq::empty()),
                Err(StopView::Ask(query)) => whole == Err::<Seq<char>, StopView>(
                    StopView::Ask(query),
                ),
            }
        }),
{
    reveal_strlit("");
    assert(""@ =~= Seq::<char>::empty());
}

/// The name of a parameter, with the type and the value of one that is a constant. `start`
/// stands before it.
pub open spec fn names_param(
    context: &RewriteContext,
    param: GenericParam,
    start: Seq<char>,
    shape: Shape,
    whole: Layout,
) -> bool {
    match param.kind {
        GenericParamKind::Const { ty, default } => match ty_text(context, *ty, shape) {
            Err(stop) => whole == Err::<Seq<char>, StopView>(stop),
            Ok(ty) => {
                let named = start + "const "@ + param.ident.text@ + ": "@ + ty;
                match default {
                    None => whole == Ok::<Seq<char>, StopView>(named),
                    Some(value) => {
                        let equated = named + equals_text(context.config);
                        match shape.inside(byte_len(equated) as int, 0) {
                            None => whole == failed(),
                            Some(inner) => encloses(
                                whole,
                                equated,
                                const_text(context, value, inner),
                                Seq::empty(),
                            ),
                        }
                    },
                }
            },
        },
        GenericParamKind::Type { .. } => whole == Ok::<Seq<char>, StopView>(
            start + param.ident.text@,
        ),
        GenericParamKind::Lifetime => whole == Ok::<Seq<char>, StopView>(
            start + param.ident.text@,
        ),
    }
}

/// A generic parameter is its attributes, its name, its bounds behind a colon if it has any,
/// and its default behind an equals sign if it is a type that has one. This is so whatever the
/// kind of the parameter. It stops where one of these stops.
#[verifier::rlimit(40)]
pub proof fn law_parameter(
    context: &RewriteContext,
    param: GenericParam,
    attributes: Seq<char>,
    named: Layout,
    shape: Shape,
)
    requires
        attributes_text(context, param, shape) == Ok::<Seq<char>, StopView>(attributes),
        names_param(context, param, attributes, shape, named),
    ensures
        ({
            let whole = param_text(context, param, shape);
            let bounds = bounds_text(context, param.bounds@, shape);
            let default = |start: Seq<char>, whole: Layout|
                match param.kind {
                    GenericParamKind::Type { default: Some(ty) } => {
                        let start = start + equals_text(context.config);
                        let n = byte_len(start) as int;
                        match shape.inside(n, n) {
                            None => whole == failed(),
                            Some(inner) => encloses(
                                whole,
                                start,
                                ty_text(context, *ty, inner),
                                Seq::empty(),
                            ),
                        }
                    },
                    _ => whole == Ok::<Seq<char>, StopView>(start),
                };
            match named {
                Err(stop) => whole == Err::<Seq<char>, StopView>(stop),
                Ok(name) => if param.bounds@.len() > 0 {
                    match bounds {
                        Err(stop) => whole == Err::<Seq<char>, StopView>(stop),
                        Ok(bounds) => default(name + colon(context.config) + bounds, whole),
                    }
                } else {
                    default(name, whole)
                },
            }
        }),
{
    reveal_with_fuel(param_text, 3);
    let nothing = Seq::<char>::empty();
    assert forall|a: Seq<char>, b: Seq<char>| #[trigger] (a + b + nothing) == a + b by {
        assert(a + b + nothing =~= a + b);
    }
}

/// A parameter without attributes and without a default is its name, with a colon and its
/// bounds behind it if it has any.
pub proof fn law_parameter_with_bounds(
    context: &RewriteContext,
    param: GenericParam,
    shape: Shape,
    bounds: Seq<char>,
)
    requires
        context.text_for(QueryView::Attributes { param: param.id, shape }) == Ok::<
            Seq<char>,
            StopView,
        >(Seq::empty()),
        param.kind is Lifetime || param.kind == (GenericParamKind::Type { default: None }),
        bounds_text(context, param.bounds@, shape) == Ok::<Seq<char>, StopView>(bounds),
    ensures
        param.bounds@.len() == 0 ==> param_text(context, param, shape) == Ok::<
            Seq<char>,
            StopView,
        >(param.ident.text@),
        param.bounds@.len() > 0 ==> param_text(context, param, shape) == Ok::<Seq<char>, StopView>(
            param.ident.text@ + colon(context.config) + bounds,
        ),
{
    law_attributes(context, param, shape);
    let nothing = Seq::<char>::empty();
    assert(nothing + param.ident.text@ =~= param.ident.text@);
    law_parameter(context, param, nothing, Ok(param.ident.text@), shape);
}

/// What stops the attributes stops the parameter.
pub proof fn law_attributes_are_asked_for(
    context: &RewriteContext,
    param: GenericParam,
    shape: Shape,
)
    ensures
        attributes_text(context, param, shape) matches Err(stop) ==> param_text(
            context,
            param,
            shape,
        ) == Err::<Seq<char>, StopView>(stop),
{
    reveal_with_fuel(param_text, 2);
}

/// The first of several parameters that stops stops them all. No parameters have no layout.
pub proof fn law_first_parameter_stops(
    context: &RewriteContext,
    params: Seq<GenericParam>,
    i: int,
    k: int,
    shape: Shape,
)
    requires
        0 <= i <= k < params.len(),
        forall|j: int| i <= j < k ==> #[trigger] param_text(context, params[j], shape) is Ok,
        param_text(context, params[k], shape) is Err,
    ensures
        params_parts(context, params, i, shape) == Err::<Seq<Seq<char>>, StopView>(
            param_text(context, params[k], shape)->Err_0,
        ),
        i == 0 ==> params_text(context, params, shape) == Err::<Seq<char>, StopView>(
            param_text(context, params[k], shape)->Err_0,
        ),
        params_text(context, Seq::empty(), shape) == failed(),
    decreases k - i,
{
    reveal_with_fuel(params_parts, 2);
    reveal_with_fuel(params_text, 2);
    if i < k {
        assert(param_text(context, params[i], shape) is Ok);
        law_first_parameter_stops(context, params, i + 1, k, shape);
    }
}

// ----- Bounds -----

/// What stands before a trait, and how many columns it takes up.
pub open spec fn modifier_of(modifier: TraitBoundModifier) -> (Seq<char>, int) {
    match modifier {
        TraitBoundModifier::Plain => (Seq::empty(), 0),
        TraitBoundModifier::Maybe => ("?"@, 1),
        TraitBoundModifier::MaybeConst => ("?const "@, 7),
        TraitBoundModifier::MaybeConstMaybe => ("?const ?"@, 8),
    }
}

/// Starting so many columns further, where none is no change.
pub open spec fn moved(shape: Shape, n: int) -> Option<Shape> {
    if n == 0 {
        Some(shape)
    } else {
        shape.further(n)
    }
}

/// A trait with parameters of its own is `for<..>` and its path. The path starts behind the
/// `for<..>`.
#[verifier::rlimit(40)]
pub proof fn law_trait(context: &RewriteContext, poly_trait_ref: PolyTraitRef, shape: Shape)
    ensures
        ({
            let whole = poly_trait_ref_text(context, poly_trait_ref, shape);
            let path = poly_trait_ref.trait_ref.path;
            match params_text(context, poly_trait_ref.bound_generic_params@, shape) {
                Err(StopView::Ask(query)) => whole == Err::<Seq<char>, StopView>(
                    StopView::Ask(query),
                ),
                Err(StopView::Failed) => whole == path_text(
                    context,
                    PathContext::Type,
                    None,
                    path,
                    shape,
                ),
                Ok(params) => match shape.further(byte_len(params) as int + 6) {
                    None => whole == failed(),
                    Some(inner) => encloses(
                        whole,
                        "for<"@ + params + "> "@,
                        path_text(context, PathContext::Type, None, path, inner),
                        Seq::empty(),
                    ),
                },
            }
        }),
{
    let nothing = Seq::<char>::empty();
    assert forall|a: Seq<char>, b: Seq<char>| #[trigger] (a + b + nothing) == a + b by {
        assert(a + b + nothing =~= a + b);
    }
}

/// A lifetime as a bound is its name.
pub proof fn law_lifetime_bound(context: &RewriteContext, lifetime: Lifetime, shape: Shape)
    ensures
        bound_text(context, GenericBound::Outlives(lifetime), shape) == Ok::<Seq<char>, StopView>(
            lifetime.ident.text@,
        ),
        GenericBound::Outlives(lifetime).source() == lifetime.ident.span,
{
    reveal_with_fuel(bound_text, 2);
}

/// The parentheses around a bound, which are there if the source has them: the opening one
/// first, then the closing one.
pub open spec fn parens(source: Seq<char>) -> (Seq<char>, Seq<char>) {
    if source.len() > 0 && source[0] == '(' && source.last() == ')' {
        ("("@, ")"@)
    } else {
        (Seq::empty(), Seq::empty())
    }
}

/// A trait as a bound is its modifier and the trait with its `for<..>`, in parentheses exactly
/// if the source has it in parentheses. The trait starts behind the modifier.
#[verifier::rlimit(40)]
pub proof fn law_trait_bound(
    context: &RewriteContext,
    poly_trait_ref: PolyTraitRef,
    modifier: TraitBoundModifier,
    shape: Shape,
)
    ensures
        ({
            let whole = bound_text(context, GenericBound::Trait(poly_trait_ref, modifier), shape);
            match context.source_of(poly_trait_ref.span) {
                Err(stop) => whole == Err::<Seq<char>, StopView>(stop),
                Ok(source) => match moved(shape, modifier_of(modifier).1) {
                    None => whole == failed(),
                    Some(behind) => encloses(
                        whole,
                        parens(source).0 + modifier_of(modifier).0,
                        poly_trait_ref_text(context, poly_trait_ref, behind),
                        parens(source).1,
                    ),
                },
            }
        }),
{
    let bound = GenericBound::Trait(poly_trait_ref, modifier);
    reveal_with_fuel(bound_text, 2);
    reveal_strlit("");
    reveal_strlit("(");
    reveal_strlit(")");
    let nothing = Seq::<char>::empty();
    assert(""@ =~= nothing);
    if let Ok(source) = context.source_of(poly_trait_ref.span) {
        let k = source.len() as int;
        if k > 0 && source[0] == '(' {
            assert(source.subrange(0, 1) =~= "("@);
        }
        if k > 0 && source.last() == ')' {
            assert(source.subrange(k - 1, k) =~= ")"@);
        }
        if "("@.is_prefix_of(source) {
            assert(source.subrange(0, 1)[0] == '(');
        }
        if ")"@.is_suffix_of(source) {
            assert(source.subrange(k - 1, k)[0] == ')');
        }
        let mark = modifier_of(modifier).0;
        if let Some(behind) = moved(shape, modifier_of(modifier).1) {
            if let Ok(t) = poly_trait_ref_text(context, poly_trait_ref, behind) {
                assert(nothing + mark + t + nothing =~= mark + t);
                assert("("@ + mark + t + ")"@ =~= "("@ + (mark + t) + ")"@);
            }
        }
    }
}

/// A trait bound whose trait has parameters of its own that have a layout keeps them: it is its
/// modifier, `for<`, the parameters, `> ` and the path of the trait, in parentheses exactly if
/// the source has them.
#[verifier::rlimit(40)]
pub proof fn law_trait_bound_keeps_parameters(
    context: &RewriteContext,
    poly_trait_ref: PolyTraitRef,
    modifier: TraitBoundModifier,
    shape: Shape,
    source: Seq<char>,
    behind: Shape,
    params: Seq<char>,
)
    requires
        context.source_of(poly_trait_ref.span) == Ok::<Seq<char>, StopView>(source),
        moved(shape, modifier_of(modifier).1) == Some(behind),
        params_text(context, poly_trait_ref.bound_generic_params@, behind) == Ok::<
            Seq<char>,
            StopView,
        >(params),
    ensures
        ({
            let whole = bound_text(context, GenericBound::Trait(poly_trait_ref, modifier), shape);
            match behind.further(byte_len(params) as int + 6) {
                None => whole == failed(),
                Some(inner) => encloses(
                    whole,
                    parens(source).0 + modifier_of(modifier).0 + ("for<"@ + params + "> "@),
                    path_text(
                        context,
                        PathContext::Type,
                        None,
                        poly_trait_ref.trait_ref.path,
                        inner,
                    ),
                    parens(source).1,
                ),
            }
        }),
{
    law_trait_bound(context, poly_trait_ref, modifier, shape);
    law_trait(context, poly_trait_ref, behind);
    if let Some(inner) = behind.further(byte_len(params) as int + 6) {
        let bind = "for<"@ + params + "> "@;
        let start = parens(source).0 + modifier_of(modifier).0;
        let path = poly_trait_ref.trait_ref.path;
        if let Ok(t) = path_text(context, PathContext::Type, None, path, inner) {
            assert(start + (bind + t + Seq::<char>::empty()) + parens(source).1 =~= start + bind + t
                + parens(source).1);
        }
    }
}

/// No bounds have no text. Bounds of a type are joined, with their lines indented if they are
/// broken.
pub proof fn law_bounds(context: &RewriteContext, bounds: Seq<GenericBound>, shape: Shape)
    ensures
        bounds.len() == 0 ==> bounds_text(context, bounds, shape) == Ok::<Seq<char>, StopView>(
            Seq::empty(),
        ),
        bounds.len() > 0 ==> bounds_text(context, bounds, shape) == joined_bounds_text(
            context,
            bounds,
            shape,
            true,
            false,
        ),
{
    reveal_with_fuel(bounds_text, 2);
    reveal_strlit("");
    assert(""@ =~= Seq::<char>::empty());
}

/// Bounds are in order as long as no trait comes behind a lifetime.
pub proof fn law_order_of_bounds(bounds: Seq<GenericBound>, bound: GenericBound)
    ensures
        in_order(Seq::empty()),
        in_order(bounds.push(bound)) <==> in_order(bounds) && (bound is Trait ==> forall|i: int|
            0 <= i < bounds.len() ==> (#[trigger] bounds[i]) is Trait),
{
    let more = bounds.push(bound);
    assert forall|i: int| 0 <= i < bounds.len() implies more[i] == #[trigger] bounds[i] by {}
    if in_order(more) {
        assert forall|i: int, j: int| 0 <= i < j < bounds.len() implies !((
        #[trigger] bounds[i]) is Outlives && (#[trigger] bounds[j]) is Trait) by {
            assert(!(more[i] is Outlives && more[j] is Trait));
        }
        if bound is Trait {
            assert forall|i: int| 0 <= i < bounds.len() implies (#[trigger] bounds[i]) is Trait by {
                assert(!(more[i] is Outlives && more[bounds.len() as int] is Trait));
            }
        }
    }
    if in_order(bounds) && (bound is Trait ==> forall|i: int|
        0 <= i < bounds.len() ==> (#[trigger] bounds[i]) is Trait) {
        assert forall|i: int, j: int| 0 <= i < j < more.len() implies !((
        #[trigger] more[i]) is Outlives && (#[trigger] more[j]) is Trait) by {
            assert(more[i] == bounds[i]);
            if j < bounds.len() {
                assert(more[j] == bounds[j]);
                assert(!(bounds[i] is Outlives && bounds[j] is Trait));
            }
        }
    }
}

/// The gap behind a bound goes up to the next `+`, and the gap before a bound starts behind the
/// last one. There is none at the ends.
pub proof fn law_gaps(context: &RewriteContext, bounds: Seq<GenericBound>, i: int)
    requires
        0 <= i < bounds.len(),
    ensures
        i == bounds.len() - 1 ==> gap_behind(context, bounds, i) == Ok::<Option<Span>, StopView>(
            None,
        ),
        i == 0 ==> gap_before(context, bounds, i) == Ok::<Option<Span>, StopView>(None),
        i < bounds.len() - 1 ==> {
            let (end, start) = (bounds[i].source().hi, bounds[i + 1].source().lo);
            &&& match context.start_of(between(start, end), Token::Plus) {
                Err(stop) => gap_behind(context, bounds, i) == Err::<Option<Span>, StopView>(stop),
                Ok(plus) => gap_behind(context, bounds, i) == Ok::<Option<Span>, StopView>(
                    Some(between(end, plus)),
                ),
            }
            &&& match context.end_of(between(end, start), Token::Plus) {
                Err(stop) => gap_before(context, bounds, i + 1) == Err::<Option<Span>, StopView>(
                    stop,
                ),
                Ok(plus) => gap_before(context, bounds, i + 1) == Ok::<Option<Span>, StopView>(
                    Some(between(plus, start)),
                ),
            }
        },
        gap_commented(context, None) == Ok::<bool, StopView>(false),
        forall|span: Span| #[trigger]
            gap_commented(context, Some(span)) == context.commented(span),
        forall|poly: PolyTraitRef, modifier: TraitBoundModifier|
            #[trigger] GenericBound::Trait(poly, modifier).source() == poly.span,
{
}

/// A `+` has a space on each side, and a new line before it where a line starts. On a side
/// where a comment stands there is none of these, and none at all in compressed types.
pub proof fn law_joiner(
    config: Config,
    shape: Shape,
    on_new_line: bool,
    comment_before: bool,
    comment_behind: bool,
)
    requires
        config.valid(),
    ensures
        ({
            let joiner = joiner_text(config, shape, on_new_line, comment_before, comment_behind);
            &&& config.type_punctuation_density == TypeDensity::Compressed ==> joiner == "+"@
            &&& config.type_punctuation_density == TypeDensity::Wide ==> joiner == (
            if comment_before {
                Seq::empty()
            } else if on_new_line {
                shape.indent.new_line(config)
            } else {
                " "@
            }) + "+"@ + (if comment_behind {
                Seq::empty()
            } else {
                " "@
            })
        }),
{
    reveal_strlit(" ");
    reveal_strlit("+");
    reveal_strlit("+ ");
    let lead = if on_new_line {
        shape.indent.new_line(config)
    } else {
        " "@
    };
    super::basics::law_indentation(shape, config);
    assert forall|i: int| 0 <= i < lead.len() implies is_white_space(#[trigger] lead[i]) by {
        if on_new_line && i > 0 {
            assert(lead[i] == lead.skip(1)[i - 1]);
        }
    }
    let full = match config.type_punctuation_density {
        TypeDensity::Compressed => "+"@,
        TypeDensity::Wide => lead + "+ "@,
    };
    super::basics::law_trimmed_end(full);
    let cut = if comment_behind {
        trimmed_end(full)
    } else {
        full
    };
    let n = if config.type_punctuation_density == TypeDensity::Wide {
        lead.len() as int
    } else {
        0
    };
    assert(full[n] == '+');
    let e = trimmed_end(full);
    assert(e.len() == n + 1) by {
        if e.len() > n + 1 {
            assert(e.last() == full[e.len() - 1]);
        }
        if e.len() <= n {
            assert(is_white_space(full[n]));
        }
    }
    assert(cut[n] == '+');
    assert forall|i: int| 0 <= i < n implies is_white_space(#[trigger] cut[i]) by {
        assert(cut[i] == lead[i]);
    }
    super::basics::law_trimmed_start(cut);
    let s = trimmed_start(cut);
    let k = cut.len() - s.len();
    assert(k == n) by {
        if k > n {
            assert(is_white_space(cut[n]));
        }
        if k < n {
            assert(s[0] == cut[k]);
        }
    }
    if config.type_punctuation_density == TypeDensity::Wide {
        let nothing = Seq::<char>::empty();
        assert(e =~= lead + "+"@ + nothing);
        assert(full =~= lead + "+"@ + " "@);
        if comment_before {
            if comment_behind {
                assert(s =~= nothing + "+"@ + nothing);
            } else {
                assert(s =~= nothing + "+"@ + " "@);
            }
        }
    } else {
        assert(e =~= "+"@);
        assert(s =~= cut);
    }
}

/// Two texts with a gap of the source between them: put together, with the comments of the gap
/// if it has any.
pub open spec fn meeting(
    context: &RewriteContext,
    prev: Seq<char>,
    next: Seq<char>,
    gap: Option<Span>,
    has_comment: bool,
    shape: Shape,
) -> Layout {
    if gap is Some && has_comment {
        context.text_for(
            QueryView::CombineWithComments {
                prev,
                next,
                span: gap->0,
                shape,
                allow_extend: true,
            },
        )
    } else {
        Ok(prev + next)
    }
}

/// Each bound goes behind the bounds before it: behind a `+`, unless it is the first, and with
/// the comments around the `+`. A bound starts a new line if the bounds are broken and the
/// bound before it cannot be joined, or the bounds are not in order. What stops one of these
/// stops the bounds.
#[verifier::rlimit(40)]
pub proof fn law_next_bound(
    context: &RewriteContext,
    bounds: Seq<GenericBound>,
    shape: Shape,
    need_indent: bool,
    force_newline: bool,
    i: int,
    start: Seq<char>,
    gap: Option<Span>,
    extendable: bool,
    next_gap: Option<Span>,
    leading: Option<Span>,
    comment_behind: bool,
    comment_before: bool,
    each: Shape,
    bound: Seq<char>,
)
    requires
        0 <= i < bounds.len(),
        gap_behind(context, bounds, i) == Ok::<Option<Span>, StopView>(next_gap),
        gap_before(context, bounds, i) == Ok::<Option<Span>, StopView>(leading),
        gap_commented(context, leading) == Ok::<bool, StopView>(comment_behind),
        gap_commented(context, gap) == Ok::<bool, StopView>(comment_before),
        bound_shape(context, shape, need_indent, force_newline) == Some(each),
        bound_text(context, bounds[i], each) == Ok::<Seq<char>, StopView>(bound),
    ensures
        ({
            let whole = more_bounds_text(
                context,
                bounds,
                shape,
                need_indent,
                force_newline,
                i,
                start,
                gap,
                extendable,
            );
            let joiner = joiner_text(
                context.config,
                each,
                force_newline && !(extendable && in_order(bounds)),
                comment_before,
                comment_behind,
            );
            let piece = if i == 0 {
                Ok(bound)
            } else {
                meeting(context, joiner, bound, leading, comment_behind, each)
            };
            match piece {
                Err(stop) => whole == Err::<Seq<char>, StopView>(stop),
                Ok(piece) => match meeting(context, start, piece, gap, comment_before, each) {
                    Err(stop) => whole == Err::<Seq<char>, StopView>(stop),
                    Ok(text) => whole == more_bounds_text(
                        context,
                        bounds,
                        shape,
                        need_indent,
                        force_newline,
                        i + 1,
                        text,
                        next_gap,
                        bounds[i] is Outlives || is_extendable(bound),
                    ),
                },
            }
        }),
        more_bounds_text(
            context,
            bounds,
            shape,
            need_indent,
            force_newline,
            bounds.len() as int,
            start,
            gap,
            extendable,
        ) == Ok::<Seq<char>, StopView>(start),
{
    reveal_with_fuel(more_bounds_text, 2);
}

/// What stops a bound, or what has to be known of the gaps around it, stops the bounds.
pub proof fn law_bound_stops_bounds(
    context: &RewriteContext,
    bounds: Seq<GenericBound>,
    shape: Shape,
    need_indent: bool,
    force_newline: bool,
    i: int,
    start: Seq<char>,
    gap: Option<Span>,
    extendable: bool,
)
    requires
        0 <= i < bounds.len(),
    ensures
        ({
            let whole = more_bounds_text(
                context,
                bounds,
                shape,
                need_indent,
                force_newline,
                i,
                start,
                gap,
                extendable,
            );
            match (gap_behind(context, bounds, i), gap_before(context, bounds, i)) {
                (Err(stop), _) => whole == Err::<Seq<char>, StopView>(stop),
                (Ok(_), Err(stop)) => whole == Err::<Seq<char>, StopView>(stop),
                (Ok(_), Ok(leading)) => match (
                    gap_commented(context, leading),
                    gap_commented(context, gap),
                ) {
                    (Err(stop), _) => whole == Err::<Seq<char>, StopView>(stop),
                    (Ok(_), Err(stop)) => whole == Err::<Seq<char>, StopView>(stop),
                    (Ok(_), Ok(_)) => match bound_shape(
                        context,
                        shape,
                        need_indent,
                        force_newline,
                    ) {
                        None => whole == failed(),
                        Some(each) => bound_text(context, bounds[i], each) matches Err(stop)
                            ==> whole == Err::<Seq<char>, StopView>(stop),
                    },
                },
            }
        }),
{
    reveal_with_fuel(more_bounds_text, 2);
}

/// Bounds that are broken have whole lines, indented by the width of a tab, if they are to be
/// indented. Otherwise they have the shape that they are given.
pub proof fn law_bound_shape(
    context: &RewriteContext,
    shape: Shape,
    need_indent: bool,
    force_newline: bool,
)
    ensures
        !(need_indent && force_newline) ==> bound_shape(context, shape, need_indent, force_newline)
            == Some(shape),
        need_indent && force_newline ==> match shape.indented_by(
            context.config.tab_spaces as int,
        ) {
            None => bound_shape(context, shape, need_indent, force_newline) is None,
            Some(s) => bound_shape(context, shape, need_indent, force_newline) == Some(
                s.full_width(context.config),
            ),
        },
{
}

/// Bounds without comments between them that take up more room than there is are broken if
/// there are two or more of them. They are then their texts, each behind the first with a `+`
/// before it, which starts a line unless the bound can join the line before.
#[verifier::rlimit(40)]
pub proof fn law_wide_bounds_are_broken(
    context: &RewriteContext,
    bounds: Seq<GenericBound>,
    flat: Seq<Seq<char>>,
    texts: Seq<Seq<char>>,
    shape: Shape,
    need_indent: bool,
    each: Shape,
)
    requires
        bounds.len() >= 2,
        uncommented(context, bounds),
        flat.len() == bounds.len(),
        forall|j: int|
            0 <= j < bounds.len() ==> #[trigger] bound_text(context, bounds[j], shape) == Ok::<
                Seq<char>,
                StopView,
            >(flat[j]),
        byte_len(joined(flat, plus_text(context.config.type_punctuation_density))) > shape.width
            || is_multiline(joined(flat, plus_text(context.config.type_punctuation_density))),
        bound_shape(context, shape, need_indent, true) == Some(each),
        texts.len() == bounds.len(),
        forall|j: int|
            0 <= j < bounds.len() ==> #[trigger] bound_text(context, bounds[j], each) == Ok::<
                Seq<char>,
                StopView,
            >(texts[j]),
    ensures
        joined_bounds_text(context, bounds, shape, need_indent, false) == Ok::<Seq<char>, StopView>(
            broken_text(context.config, bounds, texts, bounds.len() as int, each),
        ),
{
    let plus = plus_text(context.config.type_punctuation_density);
    super::lemma_bounds_on_one_line(context, bounds, flat, shape, need_indent, 0, None, false);
    reveal_strlit("");
    assert(joined(flat.take(0), plus) =~= ""@);
    law_broken_bounds_start_with_plus(context, bounds, texts, shape, need_indent, each);
    reveal_with_fuel(joined_bounds_text, 3);
}

/// Bounds without comments between them that fit on one line stay on one line, however many
/// there are.
pub proof fn law_narrow_bounds_stay_on_one_line(
    context: &RewriteContext,
    bounds: Seq<GenericBound>,
    flat: Seq<Seq<char>>,
    shape: Shape,
    need_indent: bool,
)
    requires
        uncommented(context, bounds),
        flat.len() == bounds.len(),
        forall|j: int|
            0 <= j < bounds.len() ==> #[trigger] bound_text(context, bounds[j], shape) == Ok::<
                Seq<char>,
                StopView,
            >(flat[j]),
        byte_len(joined(flat, plus_text(context.config.type_punctuation_density))) <= shape.width,
        !is_multiline(joined(flat, plus_text(context.config.type_punctuation_density))),
    ensures
        joined_bounds_text(context, bounds, shape, need_indent, false) == Ok::<Seq<char>, StopView>(
            joined(flat, plus_text(context.config.type_punctuation_density)),
        ),
{
    law_bounds_are_joined_by_plus(context, bounds, flat, shape, need_indent);
}

/// Whether the arguments of a segment are several, in angle brackets.
pub open spec fn several_args(segment: PathSegment) -> bool {
    segment.args matches Some(args) && *args matches GenericArgs::AngleBracketed(data)
        && data.args@.len() >= 2
}

/// A single bound has nothing to be joined with.
proof fn lemma_single_bound(
    context: &RewriteContext,
    bound: GenericBound,
    shape: Shape,
    need_indent: bool,
    force_newline: bool,
)
    ensures
        more_bounds_text(
            context,
            seq![bound],
            shape,
            need_indent,
            force_newline,
            0,
            ""@,
            None,
            false,
        ) == (match bound_shape(context, shape, need_indent, force_newline) {
            None => failed(),
            Some(each) => bound_text(context, bound, each),
        }),
{
    let bounds = seq![bound];
    law_gaps(context, bounds, 0);
    law_bound_stops_bounds(
        context,
        bounds,
        shape,
        need_indent,
        force_newline,
        0,
        ""@,
        None,
        false,
    );
    if let Some(each) = bound_shape(context, shape, need_indent, force_newline) {
        if let Ok(text) = bound_text(context, bound, each) {
            law_next_bound(
                context,
                bounds,
                shape,
                need_indent,
                force_newline,
                0,
                ""@,
                None,
                false,
                None,
                None,
                false,
                false,
                each,
                text,
            );
            reveal_strlit("");
            assert(""@ + text =~= text);
            law_next_bound(
                context,
                bounds,
                shape,
                need_indent,
                force_newline,
                0,
                text,
                None,
                bound is Outlives || is_extendable(text),
                None,
                None,
                false,
                false,
                each,
                text,
            );
        }
    }
}

/// A single bound that takes up more room than there is is laid out once more, as if it were
/// broken, if it is a trait whose path has two or more segments, or one segment with two or
/// more arguments in angle brackets. Any other single bound stays as it is.
#[verifier::rlimit(40)]
pub proof fn law_single_bound(
    context: &RewriteContext,
    bound: GenericBound,
    shape: Shape,
    need_indent: bool,
    flat: Seq<char>,
)
    requires
        bound_text(context, bound, shape) == Ok::<Seq<char>, StopView>(flat),
    ensures
        ({
            let whole = joined_bounds_text(context, seq![bound], shape, need_indent, false);
            let again = match bound {
                GenericBound::Outlives(_) => false,
                GenericBound::Trait(poly, _) => {
                    let segments = poly.trait_ref.path.segments@;
                    segments.len() >= 2 || (segments.len() == 1 && several_args(segments[0]))
                },
            };
            if again && (is_multiline(flat) || byte_len(flat) > shape.width) {
                match bound_shape(context, shape, need_indent, true) {
                    None => whole == failed(),
                    Some(each) => whole == bound_text(context, bound, each),
                }
            } else {
                whole == Ok::<Seq<char>, StopView>(flat)
            }
        }),
{
    lemma_single_bound(context, bound, shape, need_indent, false);
    lemma_single_bound(context, bound, shape, need_indent, true);
    super::law_bounds_are_broken_at_most_once(context, seq![bound], shape, need_indent);
    law_bounds_stop(context, seq![bound], shape, need_indent, false);
    assert(seq![bound][0] == bound);
}

/// What stops bounds on one line stops them.
pub proof fn law_bounds_stop(
    context: &RewriteContext,
    bounds: Seq<GenericBound>,
    shape: Shape,
    need_indent: bool,
    force_newline: bool,
)
    ensures
        more_bounds_text(
            context,
            bounds,
            shape,
            need_indent,
            force_newline,
            0,
            Seq::empty(),
            None,
            false,
        ) matches Err(stop) ==> joined_bounds_text(
            context,
            bounds,
            shape,
            need_indent,
            force_newline,
        ) == Err::<Seq<char>, StopView>(stop),
        force_newline ==> joined_bounds_text(context, bounds, shape, need_indent, force_newline)
            == more_bounds_text(
            context,
            bounds,
            shape,
            need_indent,
            force_newline,
            0,
            Seq::empty(),
            None,
            false,
        ),
        breakable(bounds) <==> bounds.len() >= 2 || (bounds.len() == 1 && (
        bounds[0] matches GenericBound::Trait(poly, _) && {
            let segments = poly.trait_ref.path.segments@;
            segments.len() >= 2 || (segments.len() == 1 && several_args(segments[0]))
        })),
{
    reveal_with_fuel(joined_bounds_text, 2);
    reveal_strlit("");
    assert(""@ =~= Seq::<char>::empty());
}

// ----- Arguments, constraints and where predicates -----

/// A parameter within angle brackets that comes from an argument is what the argument is: it
/// has its node, its place in the source and its layout.
pub proof fn law_segment_params(context: &RewriteContext, arg: GenericArg, shape: Shape)
    ensures
        SegmentParam::of(&arg).text(context, shape) == generic_arg_text(context, arg, shape),
        SegmentParam::of(&arg).node() == param_key(AngleBracketedArg::Arg(arg)),
        SegmentParam::of(&arg).source() == arg_source(AngleBracketedArg::Arg(arg)),
{
}

/// A constraint as a parameter within angle brackets has its node, its place in the source and
/// its layout.
pub proof fn law_segment_constraint(
    context: &RewriteContext,
    constraint: AssocTyConstraint,
    shape: Shape,
)
    ensures
        SegmentParam::Binding(&constraint).text(context, shape) == constraint_text(
            context,
            constraint,
            shape,
        ),
        SegmentParam::Binding(&constraint).node() == param_key(
            AngleBracketedArg::Constraint(constraint),
        ),
        SegmentParam::Binding(&constraint).source() == arg_source(
            AngleBracketedArg::Constraint(constraint),
        ),
{
}

/// A generic argument is laid out as what it is.
pub proof fn law_generic_argument(context: &RewriteContext, arg: GenericArg, shape: Shape)
    ensures
        arg matches GenericArg::Lifetime(lifetime) ==> generic_arg_text(context, arg, shape)
            == Ok::<Seq<char>, StopView>(lifetime.ident.text@),
        arg matches GenericArg::Type(ty) ==> generic_arg_text(context, arg, shape) == ty_text(
            context,
            *ty,
            shape,
        ),
        arg matches GenericArg::Const(anon_const) ==> generic_arg_text(context, arg, shape)
            == const_text(context, anon_const, shape),
{
}

/// A constraint on an associated type is its name, its arguments if it has any, `: ` and bounds
/// or an equals sign and a type. What it is constrained to starts behind these.
pub proof fn law_constraint(
    context: &RewriteContext,
    constraint: AssocTyConstraint,
    name: Seq<char>,
    shape: Shape,
)
    requires
        match constraint.gen_args {
            None => name == constraint.ident.text@,
            Some(args) => args_text(
                context,
                PathContext::Type,
                constraint.ident,
                *args,
                constraint.span.lo,
                constraint.span.hi,
                shape,
                constraint.ident.text@,
            ) matches Ok((text, _)) && text == name,
        },
    ensures
        ({
            let whole = constraint_text(context, constraint, shape);
            match constraint.kind {
                AssocTyConstraintKind::Bound { bounds } => {
                    let start = name + ": "@;
                    let n = byte_len(start) as int;
                    match shape.inside(n, n) {
                        None => whole == failed(),
                        Some(inner) => encloses(
                            whole,
                            start,
                            bounds_text(context, bounds@, inner),
                            Seq::empty(),
                        ),
                    }
                },
                AssocTyConstraintKind::Equality { ty } => {
                    let start = name + equals_text(context.config);
                    let n = byte_len(start) as int;
                    match shape.inside(n, n) {
                        None => whole == failed(),
                        Some(inner) => encloses(
                            whole,
                            start,
                            ty_text(context, *ty, inner),
                            Seq::empty(),
                        ),
                    }
                },
            }
        }),
{
    let nothing = Seq::<char>::empty();
    assert forall|a: Seq<char>, b: Seq<char>| #[trigger] (a + b + nothing) == a + b by {
        assert(a + b + nothing =~= a + b);
    }
}

/// What stops the arguments of a constraint stops it. What an associated type is constrained to
/// is a type or bounds.
pub proof fn law_constraint_stops(
    context: &RewriteContext,
    constraint: AssocTyConstraint,
    shape: Shape,
)
    ensures
        constraint.gen_args matches Some(args) ==> (args_text(
            context,
            PathContext::Type,
            constraint.ident,
            *args,
            constraint.span.lo,
            constraint.span.hi,
            shape,
            constraint.ident.text@,
        ) matches Err(stop) ==> constraint_text(context, constraint, shape) == Err::<
            Seq<char>,
            StopView,
        >(stop)),
        constraint.kind matches AssocTyConstraintKind::Equality { ty } ==> constraint_kind_text(
            context,
            constraint.kind,
            shape,
        ) == ty_text(context, *ty, shape),
        constraint.kind matches AssocTyConstraintKind::Bound { bounds } ==> constraint_kind_text(
            context,
            constraint.kind,
            shape,
        ) == bounds_text(context, bounds@, shape),
{
}

/// A lifetime with bounds is its name, a colon and its bounds, for which the name and the colon
/// leave less room. Without bounds it is its name.
pub proof fn law_bounded_lifetime(
    context: &RewriteContext,
    lifetime: Lifetime,
    bounds: Seq<GenericBound>,
    shape: Shape,
)
    ensures
        ({
            let whole = bounded_lifetime_text(context, lifetime, bounds, shape);
            let name = lifetime.ident.text@;
            let taken = display_width(last_line(name)) + byte_len(colon(context.config));
            &&& bounds.len() == 0 ==> whole == Ok::<Seq<char>, StopView>(name)
            &&& bounds.len() > 0 && taken > shape.width ==> whole == failed()
            &&& bounds.len() > 0 && taken <= shape.width ==> encloses(
                whole,
                name + colon(context.config),
                joined_bounds_text(
                    context,
                    bounds,
                    (Shape { width: (shape.width - taken) as usize, ..shape }),
                    true,
                    false,
                ),
                Seq::empty(),
            )
        }),
{
    let nothing = Seq::<char>::empty();
    assert forall|a: Seq<char>, b: Seq<char>| #[trigger] (a + b + nothing) == a + b by {
        assert(a + b + nothing =~= a + b);
    }
}

/// A where predicate on a type is its `for<..>`, the type and a colon, and behind these its
/// bounds. One on a lifetime is the lifetime with its bounds. One that equates two types is the
/// first type and ` =`, and behind these the second.
pub proof fn law_where_predicate(
    context: &RewriteContext,
    predicate: WherePredicate,
    shape: Shape,
)
    ensures
        ({
            let whole = where_predicate_text(context, predicate, shape);
            match predicate {
                WherePredicate::BoundPredicate(data) => {
                    let params = params_text(context, data.bound_generic_params@, shape);
                    match ty_text(context, *data.bounded_ty, shape) {
                        Err(stop) => whole == Err::<Seq<char>, StopView>(stop),
                        Ok(ty) => match params {
                            Err(StopView::Ask(query)) => whole == Err::<Seq<char>, StopView>(
                                StopView::Ask(query),
                            ),
                            _ => whole == context.text_for(
                                QueryView::AssignRhs {
                                    lhs: binder(params) + ty + (
                                    if context.config.space_before_colon {
                                        " :"@
                                    } else {
                                        ":"@
                                    }),
                                    rhs: RhsKey::Bounds(data.id),
                                    shape,
                                },
                            ),
                        },
                    }
                },
                WherePredicate::RegionPredicate(data) => whole == bounded_lifetime_text(
                    context,
                    data.lifetime,
                    data.bounds@,
                    shape,
                ),
                WherePredicate::EqPredicate(data) => match ty_text(
                    context,
                    *data.lhs_ty,
                    shape,
                ) {
                    Err(stop) => whole == Err::<Seq<char>, StopView>(stop),
                    Ok(lhs) => whole == context.text_for(
                        QueryView::AssignRhs {
                            lhs: lhs + " ="@,
                            rhs: RhsKey::Type(data.rhs_ty.id),
                            shape,
                        },
                    ),
                },
            }
        }),
{
    super::basics::law_colon(context.config);
    reveal_strlit(" : ");
    reveal_strlit(" :");
    reveal_strlit(": ");
    reveal_strlit(":");
    let cut = trimmed_end(colon(context.config));
    if context.config.space_before_colon {
        assert(cut =~= " :"@);
    } else {
        assert(cut =~= ":"@);
    }
}

} // verus!
