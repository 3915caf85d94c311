//! What holds of all layouts.

pub mod basics;
pub mod functions;
pub mod generics;
pub mod kinds;
pub mod paths;

use crate::ast::{
    AngleBracketedArg, GenericArg, GenericBound, GenericParam, Lifetime, MutTy, Mutability, Path,
    PathSegment, TraitObjectSyntax, Ty, TyKind,
};
use crate::config::{Config, TypeDensity};
use crate::lists::{list_room, DefinitiveListTactic, ListItemView};
use crate::model::{
    arg_tactic, args_text, bound_shape, bound_text, bounds_text, bracketed, brackets_end, breakable,
    gap_before, gap_behind, gap_commented, in_order, joined_bounds_text, joiner_text, kept_plus,
    left, more_bounds_text, more_segments_text, mutability_text, overflows, param_text,
    params_parts, params_text, path_text, position_behind, reference_text, segment_text,
    segments_text, trait_object_text, ty_text, SelfText,
};
use crate::query::{RewriteContext, StopView, Token};
use crate::shape::Shape;
use crate::span::{between, BytePos, Span};
use crate::text::{
    byte_len, display_width, is_extendable, is_multiline, joined, last_line, lemma_byte_len_add,
};
use crate::types::PathContext;
use vstd::prelude::*;

verus! {

// ----- Shapes -----

/// Moving the start of a shape leaves its right edge where it is, and moving it twice is moving
/// it by the sum.
pub proof fn law_offset_keeps_right_edge(shape: Shape, a: int, b: int)
    requires
        0 <= a,
        0 <= b,
    ensures
        shape.further(a) matches Some(s) ==> s.offset + s.width == shape.offset + shape.width,
        shape.shrunk(a) matches Some(s) ==> s.offset + s.width == shape.offset + shape.width,
        shape.further(a + b) == (match shape.further(a) {
            Some(s) => s.further(b),
            None => None,
        }),
{
}

// ----- Function types -----

/// If the return type takes up several lines, the arguments do too. Arguments that go on one
/// line leave room for the return type and a comma.
pub proof fn law_arguments_follow_return_type(
    items: Seq<ListItemView>,
    output: Seq<char>,
    shape: Shape,
)
    ensures
        is_multiline(output) ==> arg_tactic(items, output, shape) == DefinitiveListTactic::Vertical,
        arg_tactic(items, output, shape) == DefinitiveListTactic::Horizontal ==> list_room(items)
            == 0 || list_room(items) + 2 + byte_len(output) <= shape.width,
        arg_tactic(items, output, shape) == DefinitiveListTactic::Horizontal ==> forall|i: int|
            0 <= i < items.len() ==> !(#[trigger] items[i]).breaks()
                && !items[i].has_line_comment(),
{
}

// ----- Paths -----

/// The names of the segments from `i` up to `to`, with `::` between them and, unless they come
/// first, before them. A root has no name.
pub open spec fn names_text(segments: Seq<PathSegment>, i: int, to: int, first: bool) -> Seq<char>
    decreases left(i, to),
{
    if !(0 <= i < to <= segments.len()) {
        Seq::empty()
    } else if segments[i].is_root {
        names_text(segments, i + 1, to, first)
    } else {
        (if first {
            ""@
        } else {
            "::"@
        }) + segments[i].ident.text@ + names_text(segments, i + 1, to, false)
    }
}

/// Whether some segment from `i` up to `to` has a name.
pub open spec fn any_name(segments: Seq<PathSegment>, i: int, to: int) -> bool {
    exists|j: int| i <= j < to && !(#[trigger] segments[j]).is_root
}

/// A segment that is a name and nothing else.
pub open spec fn is_simple(segment: PathSegment) -> bool {
    segment.is_root || (segment.args is None && !is_multiline(segment.ident.text@))
}

/// Texts have a line break together if one of them has one.
proof fn lemma_multiline_add(a: Seq<char>, b: Seq<char>)
    ensures
        is_multiline(a + b) == (is_multiline(a) || is_multiline(b)),
{
    let c = a + b;
    if is_multiline(a) {
        let i = choose|i: int| 0 <= i < a.len() && a[i] == '\n';
        assert(c[i] == '\n');
    }
    if is_multiline(b) {
        let i = choose|i: int| 0 <= i < b.len() && b[i] == '\n';
        assert(c[a.len() + i] == '\n');
    }
    if is_multiline(c) {
        let i = choose|i: int| 0 <= i < c.len() && c[i] == '\n';
        if i < a.len() {
            assert(a[i] == '\n');
        } else {
            assert(b[i - a.len()] == '\n');
        }
    }
}

/// A simple segment behind a text on the same line fits if the text and its name do.
proof fn lemma_simple_segment(
    context: &RewriteContext,
    path_context: PathContext,
    before: Seq<char>,
    segment: PathSegment,
    span_lo: BytePos,
    span_hi: BytePos,
    shape: Shape,
)
    requires
        !segment.is_root,
        is_simple(segment),
        !is_multiline(before),
        shape.offset == shape.indent.alignment,
        shape.offset + shape.width <= usize::MAX,
    ensures
        (match shape.shrunk(shape.taken_by(before)) {
            None => Err(StopView::Failed),
            Some(inner) => segment_text(context, path_context, segment, span_lo, span_hi, inner),
        }) == (if byte_len(before + segment.ident.text@) <= shape.width {
            Ok::<(Seq<char>, BytePos), StopView>((segment.ident.text@, span_lo))
        } else {
            Err(StopView::Failed)
        }),
{
    lemma_byte_len_add(before, segment.ident.text@);
}

/// Without names there is no text.
proof fn lemma_no_names(segments: Seq<PathSegment>, i: int, to: int, first: bool)
    requires
        0 <= i <= to <= segments.len(),
        !any_name(segments, i, to),
    ensures
        names_text(segments, i, to, first) == Seq::<char>::empty(),
    decreases to - i,
{
    if i < to {
        assert(segments[i].is_root);
        lemma_no_names(segments, i + 1, to, first);
    }
}

/// Simple segments behind a text on the same line fit if the text and their names do.
#[verifier::rlimit(40)]
proof fn lemma_simple_segments(
    context: &RewriteContext,
    path_context: PathContext,
    start: Seq<char>,
    segments: Seq<PathSegment>,
    i: int,
    first: bool,
    span_lo: BytePos,
    span_hi: BytePos,
    shape: Shape,
)
    requires
        0 <= i <= segments.len(),
        forall|j: int| 0 <= j < segments.len() ==> is_simple(#[trigger] segments[j]),
        !is_multiline(start),
        shape.offset == shape.indent.alignment,
        shape.offset + shape.width <= usize::MAX,
    ensures
        ({
            let to = segments.len() as int;
            let text = start + names_text(segments, i, to, first);
            let layout = more_segments_text(
                context,
                path_context,
                start,
                segments,
                i,
                to,
                first,
                span_lo,
                span_hi,
                shape,
            );
            &&& !is_multiline(text)
            &&& byte_len(text) >= byte_len(start)
            &&& layout == (if byte_len(text) <= shape.width || !any_name(segments, i, to) {
                Ok::<Seq<char>, StopView>(text)
            } else {
                Err(StopView::Failed)
            })
        }),
    decreases segments.len() - i,
{
    let to = segments.len() as int;
    if i >= to {
        assert(start + Seq::<char>::empty() =~= start);
    } else if segments[i].is_root {
        lemma_simple_segments(
            context,
            path_context,
            start,
            segments,
            i + 1,
            first,
            span_lo,
            span_hi,
            shape,
        );
        assert(any_name(segments, i, to) == any_name(segments, i + 1, to));
    } else {
        assert(is_simple(segments[i]));
        assert(any_name(segments, i, to)) by {
            assert(!segments[i].is_root);
        }
        let before = if first {
            start
        } else {
            start + "::"@
        };
        let ident = segments[i].ident.text@;
        let rest = names_text(segments, i + 1, to, false);
        assert(!is_multiline("::"@)) by {
            reveal_strlit("::");
        }
        assert(""@ =~= Seq::<char>::empty()) by {
            reveal_strlit("");
        }
        lemma_multiline_add(start, "::"@);
        lemma_multiline_add(before, ident);
        lemma_byte_len_add(start, "::"@);
        lemma_byte_len_add(before, ident);
        lemma_byte_len_add(before + ident, rest);
        assert(before + ident + rest =~= start + names_text(segments, i, to, first));
        lemma_simple_segment(
            context,
            path_context,
            before,
            segments[i],
            span_lo,
            span_hi,
            shape,
        );
        lemma_simple_segments(
            context,
            path_context,
            before + ident,
            segments,
            i + 1,
            false,
            span_lo,
            span_hi,
            shape,
        );
        if !any_name(segments, i + 1, to) {
            lemma_no_names(segments, i + 1, to, false);
        }
    }
}

/// A path does not wrap on simple segments: if all its segments are just names, the names go
/// on one line, and there is no layout if the line is too narrow for them.
#[verifier::rlimit(40)]
pub proof fn law_simple_path_does_not_wrap(
    context: &RewriteContext,
    path_context: PathContext,
    path: Path,
    shape: Shape,
)
    requires
        forall|i: int|
            0 <= i < path.segments@.len() ==> is_simple(#[trigger] path.segments@[i]),
        shape.offset + shape.width <= usize::MAX,
    ensures
        ({
            let root = if path.global() && path_context != PathContext::Import {
                "::"@
            } else {
                ""@
            };
            let n = path.segments@.len() as int;
            let text = root + names_text(path.segments@, 0, n, true);
            &&& !is_multiline(text)
            &&& path_text(context, path_context, None, path, shape) == (if byte_len(text)
                <= shape.width || !any_name(path.segments@, 0, n) {
                Ok::<Seq<char>, StopView>(text)
            } else {
                Err(StopView::Failed)
            })
        }),
{
    let root = if path.global() && path_context != PathContext::Import {
        "::"@
    } else {
        ""@
    };
    reveal_strlit("::");
    reveal_strlit("");
    if let Some(line) = shape.visual(0) {
        lemma_simple_segments(
            context,
            path_context,
            root,
            path.segments@,
            0,
            true,
            path.span.lo,
            path.span.hi,
            line,
        );
    }
    reveal_with_fuel(segments_text, 2);
}

/// The position from which on the next segment stands moves only behind a segment that has
/// arguments in angle brackets. It moves to the end of the brackets.
#[verifier::rlimit(40)]
pub proof fn law_position_moves_behind_brackets(
    context: &RewriteContext,
    path_context: PathContext,
    segment: PathSegment,
    span_lo: BytePos,
    span_hi: BytePos,
    shape: Shape,
)
    ensures
        segment_text(context, path_context, segment, span_lo, span_hi, shape) matches Ok((_, pos))
            ==> pos == (match bracketed(segment) {
            Some(data) => data.span.hi,
            None => span_lo,
        }),
{
    reveal_with_fuel(args_text, 2);
}

/// Where an argument in angle brackets stands in the source.
pub open spec fn arg_source(arg: AngleBracketedArg) -> Span {
    match arg {
        AngleBracketedArg::Arg(GenericArg::Lifetime(lifetime)) => lifetime.ident.span,
        AngleBracketedArg::Arg(GenericArg::Type(ty)) => ty.span,
        AngleBracketedArg::Arg(GenericArg::Const(anon_const)) => anon_const.span,
        AngleBracketedArg::Constraint(constraint) => constraint.span,
    }
}

/// Whether segments stand one behind the other, as they do in the source: the angle brackets of
/// a segment end behind its start and behind its parameters, and not behind the start of any
/// later segment.
pub open spec fn in_source_order(segments: Seq<PathSegment>) -> bool {
    &&& forall|i: int, j: int|
        0 <= i < j < segments.len() ==> (#[trigger] segments[i]).ident.span.lo <= (
        #[trigger] segments[j]).ident.span.lo
    &&& forall|i: int, j: int|
        #![trigger bracketed(segments[i]), segments[j]]
        0 <= i < j < segments.len() ==> (bracketed(segments[i]) matches Some(data)
            ==> data.span.hi <= segments[j].ident.span.lo)
    &&& forall|i: int|
        0 <= i < segments.len() ==> (#[trigger] bracketed(segments[i]) matches Some(data) ==> {
            &&& segments[i].ident.span.lo <= data.span.hi
            &&& ends_before(data.args@, data.span.hi)
        })
}

/// Whether all arguments end before a position.
pub open spec fn ends_before(args: Seq<AngleBracketedArg>, pos: BytePos) -> bool {
    forall|i: int| 0 <= i < args.len() ==> arg_source(#[trigger] args[i]).hi < pos
}

/// Whether a position stands behind the parameters of the first `n` segments, and not behind
/// the start of the segment that follows these.
pub open spec fn stands_before(segments: Seq<PathSegment>, n: int, pos: BytePos) -> bool {
    &&& forall|i: int|
        0 <= i < n ==> (#[trigger] bracketed(segments[i]) matches Some(data) ==> ends_before(
            data.args@,
            pos,
        ))
    &&& n < segments.len() ==> pos <= segments[n].ident.span.lo
}

/// If the position from which on a segment stands is behind the parameters of the segments
/// before it and not behind its start, then so is the position from which on the next one
/// stands.
pub proof fn law_position_stands_between_segments(
    context: &RewriteContext,
    path_context: PathContext,
    segments: Seq<PathSegment>,
    i: int,
    span_lo: BytePos,
    span_hi: BytePos,
    shape: Shape,
)
    requires
        in_source_order(segments),
        0 <= i < segments.len(),
        stands_before(segments, i, span_lo),
    ensures
        segment_text(context, path_context, segments[i], span_lo, span_hi, shape) matches Ok((
            _,
            pos,
        )) ==> span_lo <= pos && stands_before(segments, i + 1, pos),
{
    law_position_moves_behind_brackets(
        context,
        path_context,
        segments[i],
        span_lo,
        span_hi,
        shape,
    );
    if let Some(data) = bracketed(segments[i]) {
        assert forall|k: int| 0 <= k < i + 1 implies (#[trigger] bracketed(
            segments[k],
        ) matches Some(earlier) ==> ends_before(earlier.args@, data.span.hi)) by {
            if let Some(earlier) = bracketed(segments[k]) {
                if k < i {
                    assert(ends_before(earlier.args@, span_lo));
                }
            }
        }
    }
}

/// The last angle brackets among the first segments end behind the parameters of all of them.
proof fn lemma_brackets_end(segments: Seq<PathSegment>, n: int)
    requires
        in_source_order(segments),
        0 <= n <= segments.len(),
    ensures
        match brackets_end(segments, n) {
            Some(end) => stands_before(segments, n, end),
            None => forall|i: int| 0 <= i < n ==> #[trigger] bracketed(segments[i]) is None,
        },
    decreases n,
{
    if n > 0 {
        lemma_brackets_end(segments, n - 1);
        match bracketed(segments[n - 1]) {
            Some(data) => {
                assert forall|i: int| 0 <= i < n implies (#[trigger] bracketed(
                    segments[i],
                ) matches Some(earlier) ==> ends_before(earlier.args@, data.span.hi)) by {
                    if let Some(earlier) = bracketed(segments[i]) {
                        if i < n - 1 {
                            assert(earlier.span.hi <= segments[n - 1].ident.span.lo);
                            assert(ends_before(earlier.args@, earlier.span.hi));
                        }
                    }
                }
            },
            None => {
                if let Some(end) = brackets_end(segments, n - 1) {
                    assert(segments[n - 1].ident.span.lo >= end);
                }
            },
        }
    }
}

/// Behind `<T as Trait>::` the position is behind the type and behind the parameters of the
/// segments within the angle brackets, and not behind the start of the next segment.
pub proof fn law_position_behind_type(
    qself: SelfText,
    segments: Seq<PathSegment>,
    skipped: int,
)
    requires
        in_source_order(segments),
        0 <= skipped < segments.len(),
        qself.hi < segments[skipped].ident.span.lo,
    ensures
        qself.hi < position_behind(qself, segments, skipped),
        stands_before(segments, skipped, position_behind(qself, segments, skipped)),
{
    lemma_brackets_end(segments, skipped);
    let pos = position_behind(qself, segments, skipped);
    if let Some(end) = brackets_end(segments, skipped) {
        assert forall|i: int| 0 <= i < skipped implies (#[trigger] bracketed(
            segments[i],
        ) matches Some(data) ==> ends_before(data.args@, pos)) by {
            if let Some(data) = bracketed(segments[i]) {
                assert(ends_before(data.args@, end));
            }
        }
    }
}

// ----- Generic parameters -----

/// The texts of the parameters are those of each of them.
#[verifier::rlimit(40)]
proof fn lemma_params_parts(
    context: &RewriteContext,
    params: Seq<GenericParam>,
    i: int,
    shape: Shape,
)
    requires
        0 <= i <= params.len(),
    ensures
        match params_parts(context, params, i, shape) {
            Ok(parts) => parts.len() == params.len() - i && forall|j: int|
                0 <= j < parts.len() ==> param_text(context, params[i + j], shape) == Ok::<
                    Seq<char>,
                    StopView,
                >(#[trigger] parts[j]),
            Err(stop) => exists|j: int|
                i <= j < params.len() && #[trigger] param_text(context, params[j], shape) == Err::<
                    Seq<char>,
                    StopView,
                >(stop),
        },
    decreases params.len() - i,
{
    if i < params.len() {
        lemma_params_parts(context, params, i + 1, shape);
        match param_text(context, params[i], shape) {
            Err(stop) => {
                assert(param_text(context, params[i], shape) == Err::<Seq<char>, StopView>(stop));
            },
            Ok(text) => {
                if let Ok(rest) = params_parts(context, params, i + 1, shape) {
                    let parts = seq![text] + rest;
                    assert forall|j: int| 0 <= j < parts.len() implies param_text(
                        context,
                        params[i + j],
                        shape,
                    ) == Ok::<Seq<char>, StopView>(#[trigger] parts[j]) by {
                        if j > 0 {
                            assert(parts[j] == rest[j - 1]);
                            assert(params[i + j] == params[i + 1 + (j - 1)]);
                        }
                    }
                }
            },
        }
    }
}

/// The parameters are separated by commas. There is no layout if there are no parameters or if
/// one of them has none.
#[verifier::rlimit(40)]
pub proof fn law_parameters_are_separated_by_commas(
    context: &RewriteContext,
    params: Seq<GenericParam>,
    shape: Shape,
)
    ensures
        params_text(context, params, shape) is Ok <==> params.len() > 0 && forall|i: int|
            0 <= i < params.len() ==> #[trigger] param_text(context, params[i], shape) is Ok,
        params_text(context, params, shape) matches Ok(text) ==> text == joined(
            Seq::new(params.len(), |i: int| param_text(context, params[i], shape)->Ok_0),
            ", "@,
        ),
{
    reveal_with_fuel(params_text, 2);
    if params.len() > 0 {
        lemma_params_parts(context, params, 0, shape);
        if let Ok(parts) = params_parts(context, params, 0, shape) {
            assert forall|i: int| 0 <= i < params.len() implies #[trigger] param_text(
                context,
                params[i],
                shape,
            ) is Ok by {
                assert(params[0 + i] == params[i]);
                assert(parts[i] == parts[i]);
            }
            assert(parts =~= Seq::new(
                params.len(),
                |i: int| param_text(context, params[i], shape)->Ok_0,
            )) by {
                assert forall|i: int| 0 <= i < params.len() implies parts[i] == param_text(
                    context,
                    params[i],
                    shape,
                )->Ok_0 by {
                    assert(params[0 + i] == params[i]);
                }
            }
        }
    }
}

// ----- Bounds -----

/// Whether it is known of all gaps between the bounds that there is no comment in them.
pub open spec fn uncommented(context: &RewriteContext, bounds: Seq<GenericBound>) -> bool {
    forall|i: int|
        0 <= i < bounds.len() ==> {
            &&& (#[trigger] gap_behind(context, bounds, i)) matches Ok(gap) && gap_commented(
                context,
                gap,
            ) == Ok::<bool, StopView>(false)
            &&& gap_before(context, bounds, i) matches Ok(gap) && gap_commented(context, gap)
                == Ok::<bool, StopView>(false)
        }
}

/// The `+` between two bounds on one line.
pub open spec fn plus_text(density: TypeDensity) -> Seq<char> {
    match density {
        TypeDensity::Wide => " + "@,
        TypeDensity::Compressed => "+"@,
    }
}

/// The bounds from `i` on, behind the bounds before them.
#[verifier::rlimit(40)]
proof fn lemma_bounds_on_one_line(
    context: &RewriteContext,
    bounds: Seq<GenericBound>,
    texts: Seq<Seq<char>>,
    shape: Shape,
    need_indent: bool,
    i: int,
    gap: Option<Span>,
    extendable: bool,
)
    requires
        uncommented(context, bounds),
        texts.len() == bounds.len(),
        forall|j: int|
            0 <= j < bounds.len() ==> #[trigger] bound_text(context, bounds[j], shape) == Ok::<
                Seq<char>,
                StopView,
            >(texts[j]),
        0 <= i <= bounds.len(),
        gap_commented(context, gap) == Ok::<bool, StopView>(false),
    ensures
        more_bounds_text(
            context,
            bounds,
            shape,
            need_indent,
            false,
            i,
            joined(texts.take(i), plus_text(context.config.type_punctuation_density)),
            gap,
            extendable,
        ) == Ok::<Seq<char>, StopView>(
            joined(texts, plus_text(context.config.type_punctuation_density)),
        ),
    decreases bounds.len() - i,
{
    let plus = plus_text(context.config.type_punctuation_density);
    if i == bounds.len() {
        assert(texts.take(i) =~= texts);
    } else {
        reveal_strlit(" ");
        reveal_strlit("+ ");
        reveal_strlit(" + ");
        assert(" "@ + "+ "@ =~= " + "@);
        assert(joiner_text(context.config, shape, false, false, false) == plus);
        assert(bound_text(context, bounds[i], shape) == Ok::<Seq<char>, StopView>(texts[i]));
        let next_gap = gap_behind(context, bounds, i)->Ok_0;
        assert(texts.take(i + 1).drop_last() =~= texts.take(i));
        assert(texts.take(i + 1).last() == texts[i]);
        let start = joined(texts.take(i), plus);
        if i == 0 {
            assert(start + texts[0] =~= joined(texts.take(1), plus));
        } else {
            assert(start + (plus + texts[i]) =~= joined(texts.take(i + 1), plus));
        }
        lemma_bounds_on_one_line(
            context,
            bounds,
            texts,
            shape,
            need_indent,
            i + 1,
            next_gap,
            bounds[i] is Outlives || is_extendable(texts[i]),
        );
    }
}

/// Bounds without comments between them that fit on one line, or that are not worth breaking,
/// are their texts with `+` between any two.
pub proof fn law_bounds_are_joined_by_plus(
    context: &RewriteContext,
    bounds: Seq<GenericBound>,
    texts: Seq<Seq<char>>,
    shape: Shape,
    need_indent: bool,
)
    requires
        uncommented(context, bounds),
        texts.len() == bounds.len(),
        forall|j: int|
            0 <= j < bounds.len() ==> #[trigger] bound_text(context, bounds[j], shape) == Ok::<
                Seq<char>,
                StopView,
            >(texts[j]),
    ensures
        ({
            let text = joined(texts, plus_text(context.config.type_punctuation_density));
            !breakable(bounds) || (!is_multiline(text) && byte_len(text) <= shape.width)
                ==> joined_bounds_text(context, bounds, shape, need_indent, false) == Ok::<
                Seq<char>,
                StopView,
            >(text)
        }),
{
    let plus = plus_text(context.config.type_punctuation_density);
    lemma_bounds_on_one_line(context, bounds, texts, shape, need_indent, 0, None, false);
    reveal_strlit("");
    assert(joined(texts.take(0), plus) =~= ""@);
    reveal_with_fuel(joined_bounds_text, 2);
}

/// Bounds are broken at most once: what is laid out on several lines is not tried again, though
/// it may still be too wide.
pub proof fn law_bounds_are_broken_at_most_once(
    context: &RewriteContext,
    bounds: Seq<GenericBound>,
    shape: Shape,
    need_indent: bool,
)
    ensures
        ({
            let flat = more_bounds_text(
                context,
                bounds,
                shape,
                need_indent,
                false,
                0,
                ""@,
                None,
                false,
            );
            let broken = more_bounds_text(
                context,
                bounds,
                shape,
                need_indent,
                true,
                0,
                ""@,
                None,
                false,
            );
            joined_bounds_text(context, bounds, shape, need_indent, false) == (match flat {
                Ok(text) => if breakable(bounds) && (is_multiline(text) || byte_len(text)
                    > shape.width) {
                    broken
                } else {
                    flat
                },
                Err(_) => flat,
            })
        }),
{
    reveal_with_fuel(joined_bounds_text, 3);
}

/// What stands before the bound at `i` if the bounds are broken: the bound starts a line of its
/// own, unless it joins the line of the bound before. It joins it if all traits come before all
/// lifetimes, and the bound before is a lifetime or a trait whose last line can be extended.
pub open spec fn break_text(
    config: Config,
    bounds: Seq<GenericBound>,
    texts: Seq<Seq<char>>,
    i: int,
    shape: Shape,
) -> Seq<char> {
    match config.type_punctuation_density {
        TypeDensity::Compressed => "+"@,
        TypeDensity::Wide => if in_order(bounds) && (bounds[i - 1] is Outlives || is_extendable(
            texts[i - 1],
        )) {
            " + "@
        } else {
            shape.indent.new_line(config) + "+ "@
        },
    }
}

/// The first `n` of the bounds, broken.
pub open spec fn broken_text(
    config: Config,
    bounds: Seq<GenericBound>,
    texts: Seq<Seq<char>>,
    n: int,
    shape: Shape,
) -> Seq<char>
    decreases n,
{
    if n <= 0 {
        ""@
    } else if n == 1 {
        texts[0]
    } else {
        broken_text(config, bounds, texts, n - 1, shape) + break_text(
            config,
            bounds,
            texts,
            n - 1,
            shape,
        ) + texts[n - 1]
    }
}

/// The broken bounds from `i` on, behind the bounds before them.
#[verifier::rlimit(40)]
proof fn lemma_bounds_broken(
    context: &RewriteContext,
    bounds: Seq<GenericBound>,
    texts: Seq<Seq<char>>,
    shape: Shape,
    need_indent: bool,
    each: Shape,
    i: int,
    gap: Option<Span>,
    extendable: bool,
)
    requires
        uncommented(context, bounds),
        bound_shape(context, shape, need_indent, true) == Some(each),
        texts.len() == bounds.len(),
        forall|j: int|
            0 <= j < bounds.len() ==> #[trigger] bound_text(context, bounds[j], each) == Ok::<
                Seq<char>,
                StopView,
            >(texts[j]),
        0 <= i <= bounds.len(),
        gap_commented(context, gap) == Ok::<bool, StopView>(false),
        i > 0 ==> extendable == (bounds[i - 1] is Outlives || is_extendable(texts[i - 1])),
    ensures
        more_bounds_text(
            context,
            bounds,
            shape,
            need_indent,
            true,
            i,
            broken_text(context.config, bounds, texts, i, each),
            gap,
            extendable,
        ) == Ok::<Seq<char>, StopView>(
            broken_text(context.config, bounds, texts, bounds.len() as int, each),
        ),
    decreases bounds.len() - i,
{
    if i < bounds.len() {
        let config = context.config;
        assert(bound_text(context, bounds[i], each) == Ok::<Seq<char>, StopView>(texts[i]));
        let next_gap = gap_behind(context, bounds, i)->Ok_0;
        let start = broken_text(config, bounds, texts, i, each);
        reveal_strlit("");
        reveal_strlit(" ");
        reveal_strlit("+ ");
        reveal_strlit(" + ");
        assert(" "@ + "+ "@ =~= " + "@);
        if i == 0 {
            assert(start + texts[0] =~= broken_text(config, bounds, texts, 1, each));
        } else {
            let joiner = break_text(config, bounds, texts, i, each);
            assert(joiner_text(config, each, !extendable || !in_order(bounds), false, false)
                == joiner);
            assert(start + (joiner + texts[i]) =~= broken_text(config, bounds, texts, i + 1, each));
        }
        lemma_bounds_broken(
            context,
            bounds,
            texts,
            shape,
            need_indent,
            each,
            i + 1,
            next_gap,
            bounds[i] is Outlives || is_extendable(texts[i]),
        );
    }
}

/// Bounds without comments between them that are broken are their texts, each behind the first
/// with a `+` before it, on a line of its own or on the line of the bound before.
#[verifier::rlimit(40)]
pub proof fn law_broken_bounds_start_with_plus(
    context: &RewriteContext,
    bounds: Seq<GenericBound>,
    texts: Seq<Seq<char>>,
    shape: Shape,
    need_indent: bool,
    each: Shape,
)
    requires
        uncommented(context, bounds),
        bound_shape(context, shape, need_indent, true) == Some(each),
        texts.len() == bounds.len(),
        forall|j: int|
            0 <= j < bounds.len() ==> #[trigger] bound_text(context, bounds[j], each) == Ok::<
                Seq<char>,
                StopView,
            >(texts[j]),
    ensures
        more_bounds_text(context, bounds, shape, need_indent, true, 0, ""@, None, false) == Ok::<
            Seq<char>,
            StopView,
        >(broken_text(context.config, bounds, texts, bounds.len() as int, each)),
        joined_bounds_text(context, bounds, shape, need_indent, true) == Ok::<Seq<char>, StopView>(
            broken_text(context.config, bounds, texts, bounds.len() as int, each),
        ),
{
    lemma_bounds_broken(context, bounds, texts, shape, need_indent, each, 0, None, false);
}

/// A bound that the source has in parentheses stays in parentheses.
#[verifier::rlimit(40)]
pub proof fn law_parentheses_are_kept(context: &RewriteContext, bound: GenericBound, shape: Shape)
    requires
        bound is Trait,
        context.source_of(bound.source()) matches Ok(source) && "("@.is_prefix_of(source)
            && ")"@.is_suffix_of(source),
    ensures
        bound_text(context, bound, shape) matches Ok(text) ==> "("@.is_prefix_of(text)
            && ")"@.is_suffix_of(text),
{
    if let Ok(text) = bound_text(context, bound, shape) {
        assert(exists|inner: Seq<char>| text == #[trigger] ("("@ + inner + ")"@));
        let inner = choose|inner: Seq<char>| text == #[trigger] ("("@ + inner + ")"@);
        reveal_strlit("(");
        reveal_strlit(")");
        assert(text.subrange(0, 1) =~= "("@);
        assert(text.subrange(text.len() - 1, text.len() as int) =~= ")"@);
    }
}

/// A text behind another keeps the `+` at its end.
proof fn lemma_suffix_of_sum(a: Seq<char>, b: Seq<char>)
    requires
        "+"@.is_suffix_of(b),
    ensures
        "+"@.is_suffix_of(a + b),
{
    let n = "+"@.len() as int;
    assert((a + b).subrange(a.len() + b.len() - n, (a.len() + b.len()) as int) =~= b.subrange(
        b.len() - n,
        b.len() as int,
    ));
}

/// A `+` that the source has behind the only bound of a trait object in a macro call is kept.
#[verifier::rlimit(40)]
pub proof fn law_plus_is_kept_in_macro_calls(
    context: &RewriteContext,
    bounds: Seq<GenericBound>,
    syntax: TraitObjectSyntax,
    span: Span,
    shape: Shape,
)
    requires
        context.inside_macro,
        bounds.len() == 1,
        context.source_of(span) matches Ok(source) && "+"@.is_suffix_of(source),
    ensures
        trait_object_text(context, bounds, syntax, span, shape) matches Ok(text)
            ==> "+"@.is_suffix_of(text),
{
    let bounds_shape = if syntax == TraitObjectSyntax::Dyn {
        shape.further(4)
    } else {
        Some(shape)
    };
    if let Some(inner) = bounds_shape {
        if let Ok(text) = bounds_text(context, bounds, inner) {
            if let Ok(plus) = kept_plus(context, 1, span, text) {
                assert("+"@.is_suffix_of(text + plus)) by {
                    if "+"@.is_suffix_of(plus) {
                        lemma_suffix_of_sum(text, plus);
                    }
                    assert("+"@.subrange(0, "+"@.len() as int) =~= "+"@);
                    assert(text + ""@ =~= text) by {
                        reveal_strlit("");
                    }
                }
                lemma_suffix_of_sum("dyn "@, text + plus);
                lemma_suffix_of_sum(""@, text + plus);
            }
        }
    }
}

// ----- Types -----

/// Whether it is known of a reference where its `&` and its `mut` stand, and that there is no
/// comment before its lifetime, before its `mut` and before the type that it refers to.
pub open spec fn reference_uncommented(
    context: &RewriteContext,
    lifetime: Option<Lifetime>,
    mt: MutTy,
    span: Span,
) -> bool {
    let clear = |lo: BytePos, hi: BytePos|
        context.commented(between(lo, hi)) == Ok::<bool, StopView>(false);
    &&& context.end_of(span, Token::Ampersand) matches Ok(lo)
    &&& lifetime matches Some(lifetime) ==> clear(lo, lifetime.ident.span.lo)
    &&& ({
        let lo = match lifetime {
            Some(lifetime) => lifetime.ident.span.hi,
            None => lo,
        };
        match mt.mutbl {
            Mutability::Mut => context.end_of(span, Token::Mut) matches Ok(hi) && hi >= 3 && clear(
                lo,
                (hi - 3) as BytePos,
            ) && clear(hi, mt.ty.span.lo),
            Mutability::Not => clear(lo, mt.ty.span.lo),
        }
    })
}

/// A reference without comments in it is the `&`, the lifetime and a space, the `mut` and a
/// space, and the type. There is no layout only if a lifetime leaves too little room, or if the
/// type has none in the room that is left.
#[verifier::rlimit(40)]
pub proof fn law_reference_in_one_piece(
    context: &RewriteContext,
    lifetime: Option<Lifetime>,
    mt: MutTy,
    span: Span,
    shape: Shape,
)
    requires
        reference_uncommented(context, lifetime, mt, span),
    ensures
        ({
            let start = "&"@ + (match lifetime {
                Some(lifetime) => lifetime.ident.text@ + " "@,
                None => ""@,
            }) + mutability_text(mt.mutbl);
            let used = display_width(last_line(start)) as int;
            reference_text(context, lifetime, mt, span, shape) == (if lifetime is Some && 2
                + byte_len(mutability_text(mt.mutbl)) > shape.width {
                Err(StopView::Failed)
            } else {
                match shape.inside(used, used) {
                    None => Err(StopView::Failed),
                    Some(inner) => match ty_text(context, *mt.ty, inner) {
                        Err(stop) => Err(stop),
                        Ok(ty) => Ok(start + ty),
                    },
                }
            })
        }),
{
    let name = match lifetime {
        Some(lifetime) => lifetime.ident.text@ + " "@,
        None => ""@,
    };
    reveal_strlit("");
    let named = match lifetime {
        Some(lifetime) => "&"@ + lifetime.ident.text@ + " "@,
        None => "&"@,
    };
    assert(named =~= "&"@ + name);
    let start = match mt.mutbl {
        Mutability::Mut => named + mutability_text(mt.mutbl),
        Mutability::Not => named,
    };
    assert(start =~= "&"@ + name + mutability_text(mt.mutbl));
}

/// What a reference or a pointer, or a reference to one and so on, finally refers to.
pub open spec fn referred(ty: Ty) -> Ty
    decreases ty,
{
    match ty.kind {
        TyKind::Rptr(_, mt) => referred(*mt.ty),
        TyKind::Ptr(mt) => referred(*mt.ty),
        _ => ty,
    }
}

/// A type may go beyond the end of its line if it finally refers to a tuple, in block style,
/// and as the only item of a list.
pub proof fn law_overflow_looks_through_references(context: &RewriteContext, ty: Ty, len: usize)
    ensures
        overflows(context, ty, len) <==> referred(ty).kind is Tup && context.block_style() && len
            == 1,
    decreases ty,
{
    match ty.kind {
        TyKind::Rptr(_, mt) => {
            law_overflow_looks_through_references(context, *mt.ty, len);
        },
        TyKind::Ptr(mt) => {
            law_overflow_looks_through_references(context, *mt.ty, len);
        },
        _ => {},
    }
}

} // verus!
