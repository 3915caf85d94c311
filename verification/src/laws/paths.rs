//! What the layouts of paths have to satisfy.

use crate::ast::{
    AngleBracketedArg, AngleBracketedArgs, GenericArgs, Ident, ParenthesizedArgs, Path,
    PathSegment, QSelf, Ty, TyKind,
};
use crate::model::{
    args_text, bracketed, brackets_end, fn_type_text, more_segments_text, param_key, path_text,
    position_behind, qualified_path_text, segment_text, segments_text, separator_text, ty_keys,
    ty_text, SelfText,
};
use crate::query::{Layout, QueryView, RewriteContext, StopView};
use crate::shape::{Indent, Shape};
use crate::span::{between, BytePos, Span};
use crate::text::{byte_len, joined, trimmed};
use crate::types::PathContext;
use vstd::prelude::*;

verus! {

/// Nothing fits within the shape.
pub open spec fn failed() -> Layout {
    Err(StopView::Failed)
}

/// Whether a layout is that of its part with texts before and behind it, and stops where the
/// part stops.
pub open spec fn encloses(
    whole: Layout,
    before: Seq<char>,
    part: Layout,
    behind: Seq<char>,
) -> bool {
    match part {
        Ok(text) => whole == Ok::<Seq<char>, StopView>(before + text + behind),
        Err(stop) => whole == Err::<Seq<char>, StopView>(stop),
    }
}

// ----- Arguments -----

/// In an expression, `::` stands before the arguments in angle brackets. Elsewhere it stands
/// there only in a macro call, and only if the source has it there.
pub proof fn law_separator(
    context: &RewriteContext,
    path_context: PathContext,
    ident: Ident,
    args: Span,
)
    ensures
        path_context == PathContext::Expr ==> separator_text(context, path_context, ident, args)
            == Ok::<Seq<char>, StopView>("::"@),
        path_context != PathContext::Expr && !context.inside_macro ==> separator_text(
            context,
            path_context,
            ident,
            args,
        ) == Ok::<Seq<char>, StopView>(""@),
        path_context != PathContext::Expr && context.inside_macro ==> match context.source_of(
            between(ident.span.hi, args.lo),
        ) {
            Ok(source) => {
                let t = trimmed(source);
                separator_text(context, path_context, ident, args) == Ok::<Seq<char>, StopView>(
                    if t.len() >= 2 && t[0] == ':' && t[1] == ':' {
                        "::"@
                    } else {
                        ""@
                    },
                )
            },
            Err(stop) => separator_text(context, path_context, ident, args) == Err::<
                Seq<char>,
                StopView,
            >(stop),
        },
{
    reveal_strlit("::");
    if let Ok(source) = context.source_of(between(ident.span.hi, args.lo)) {
        let t = trimmed(source);
        if t.len() >= 2 && t[0] == ':' && t[1] == ':' {
            assert(t.subrange(0, 2) =~= "::"@);
        }
        if "::"@.is_prefix_of(t) {
            assert(t.subrange(0, 2)[0] == ':' && t.subrange(0, 2)[1] == ':');
        }
    }
}

/// The query for arguments in angle brackets: all of them, in their order.
pub open spec fn brackets_query(
    data: AngleBracketedArgs,
    span_lo: BytePos,
    span_hi: BytePos,
    shape: Shape,
) -> QueryView {
    QueryView::AngleBrackets {
        ident: ""@,
        params: Seq::new(data.args@.len(), |i: int| param_key(data.args@[i])),
        shape,
        span: between(span_lo, span_hi),
    }
}

/// Arguments in angle brackets go behind the separator, and the position moves to the end of
/// the brackets. Empty brackets leave everything as it is.
pub proof fn law_bracketed_arguments(
    context: &RewriteContext,
    path_context: PathContext,
    ident: Ident,
    data: AngleBracketedArgs,
    span_lo: BytePos,
    span_hi: BytePos,
    shape: Shape,
    start: Seq<char>,
)
    ensures
        ({
            let args = GenericArgs::AngleBracketed(data);
            let whole = args_text(
                context,
                path_context,
                ident,
                args,
                span_lo,
                span_hi,
                shape,
                start,
            );
            let generics = context.text_for(brackets_query(data, span_lo, span_hi, shape));
            &&& data.args@.len() == 0 ==> whole == Ok::<(Seq<char>, BytePos), StopView>(
                (start, span_lo),
            )
            &&& data.args@.len() > 0 ==> match separator_text(
                context,
                path_context,
                ident,
                data.span,
            ) {
                Err(stop) => whole == Err::<(Seq<char>, BytePos), StopView>(stop),
                Ok(separator) => match generics {
                    Err(stop) => whole == Err::<(Seq<char>, BytePos), StopView>(stop),
                    Ok(generics) => whole == Ok::<(Seq<char>, BytePos), StopView>(
                        (start + separator + generics, data.span.hi),
                    ),
                },
            }
        }),
{
    assert(Seq::new(data.args@.len(), |i: int| param_key(data.args@[i])) =~= data.args@.map_values(
        |arg: AngleBracketedArg| param_key(arg),
    ));
    reveal_with_fuel(args_text, 2);
}

/// Arguments in parentheses are a function type behind what stands before them, and leave the
/// position as it is.
pub proof fn law_parenthesized_arguments(
    context: &RewriteContext,
    path_context: PathContext,
    ident: Ident,
    data: ParenthesizedArgs,
    span_lo: BytePos,
    span_hi: BytePos,
    shape: Shape,
    start: Seq<char>,
)
    ensures
        ({
            let whole = args_text(
                context,
                path_context,
                ident,
                GenericArgs::Parenthesized(data),
                span_lo,
                span_hi,
                shape,
                start,
            );
            match fn_type_text(
                context,
                ty_keys(data.inputs@),
                data.output,
                false,
                data.span,
                shape,
            ) {
                Err(stop) => whole == Err::<(Seq<char>, BytePos), StopView>(stop),
                Ok(text) => whole == Ok::<(Seq<char>, BytePos), StopView>((start + text, span_lo)),
            }
        }),
{
    reveal_with_fuel(args_text, 2);
}

// ----- Segments -----

/// A segment is its name, with its arguments behind it if it has any. In block style the
/// arguments start behind the name; in visual style all their lines do.
pub proof fn law_segment(
    context: &RewriteContext,
    path_context: PathContext,
    segment: PathSegment,
    span_lo: BytePos,
    span_hi: BytePos,
    shape: Shape,
)
    ensures
        ({
            let name = segment.ident.text@;
            let whole = segment_text(context, path_context, segment, span_lo, span_hi, shape);
            let behind = if context.block_style() {
                shape.further(byte_len(name) as int)
            } else {
                shape.shrunk(byte_len(name) as int)
            };
            match behind {
                None => whole == Err::<(Seq<char>, BytePos), StopView>(StopView::Failed),
                Some(inner) => match segment.args {
                    None => whole == Ok::<(Seq<char>, BytePos), StopView>((name, span_lo)),
                    Some(args) => whole == args_text(
                        context,
                        path_context,
                        segment.ident,
                        *args,
                        span_lo,
                        span_hi,
                        inner,
                        name,
                    ),
                },
            }
        }),
{
    reveal_with_fuel(segment_text, 2);
}

/// The room for the arguments behind the name of a segment.
pub open spec fn behind_name(
    context: &RewriteContext,
    segment: PathSegment,
    shape: Shape,
) -> Option<Shape> {
    if context.block_style() {
        shape.further(byte_len(segment.ident.text@) as int)
    } else {
        shape.shrunk(byte_len(segment.ident.text@) as int)
    }
}

/// A segment with arguments in angle brackets is its name and the brackets. In an expression
/// `::` stands between them, and outside of expressions and macro calls nothing does.
pub proof fn law_segment_with_brackets(
    context: &RewriteContext,
    path_context: PathContext,
    segment: PathSegment,
    data: AngleBracketedArgs,
    span_lo: BytePos,
    span_hi: BytePos,
    shape: Shape,
)
    requires
        bracketed(segment) == Some(data),
        path_context == PathContext::Expr || !context.inside_macro,
    ensures
        segment_text(context, path_context, segment, span_lo, span_hi, shape) matches Ok((text, pos))
            ==> {
            &&& behind_name(context, segment, shape) matches Some(inner)
            &&& context.text_for(brackets_query(data, span_lo, span_hi, inner)) matches Ok(generics)
            &&& text == segment.ident.text@ + (if path_context == PathContext::Expr {
                "::"@
            } else {
                ""@
            }) + generics
            &&& pos == data.span.hi
        },
{
    law_segment(context, path_context, segment, span_lo, span_hi, shape);
    law_separator(context, path_context, segment.ident, data.span);
    if let Some(inner) = behind_name(context, segment, shape) {
        law_bracketed_arguments(
            context,
            path_context,
            segment.ident,
            data,
            span_lo,
            span_hi,
            inner,
            segment.ident.text@,
        );
    }
}

/// The segments from `from` up to `to` that are not roots.
pub open spec fn named(segments: Seq<PathSegment>, from: int, to: int) -> Seq<PathSegment>
    decreases to - from,
{
    if !(0 <= from < to <= segments.len()) {
        Seq::empty()
    } else if segments[from].is_root {
        named(segments, from + 1, to)
    } else {
        seq![segments[from]] + named(segments, from + 1, to)
    }
}

/// Whether a text is the layout of a segment from some position on, within some shape.
#[verifier::opaque]
pub open spec fn lays_out(
    context: &RewriteContext,
    path_context: PathContext,
    segment: PathSegment,
    span_hi: BytePos,
    text: Seq<char>,
) -> bool {
    exists|lo: BytePos, shape: Shape|
        (#[trigger] segment_text(context, path_context, segment, lo, span_hi, shape)) matches Ok((
            t,
            _,
        )) && t == text
}

/// Whether texts are the layouts of segments, one of each.
pub open spec fn lay_out(
    context: &RewriteContext,
    path_context: PathContext,
    segments: Seq<PathSegment>,
    span_hi: BytePos,
    texts: Seq<Seq<char>>,
) -> bool {
    &&& texts.len() == segments.len()
    &&& forall|k: int|
        0 <= k < texts.len() ==> #[trigger] lays_out(
            context,
            path_context,
            segments[k],
            span_hi,
            texts[k],
        )
}

/// What a segment is laid out as is a layout of it.
proof fn lemma_lays_out(
    context: &RewriteContext,
    path_context: PathContext,
    segment: PathSegment,
    lo: BytePos,
    span_hi: BytePos,
    shape: Shape,
    text: Seq<char>,
    pos: BytePos,
)
    requires
        segment_text(context, path_context, segment, lo, span_hi, shape) == Ok::<
            (Seq<char>, BytePos),
            StopView,
        >((text, pos)),
    ensures
        lays_out(context, path_context, segment, span_hi, text),
{
    reveal(lays_out);
}

/// The layouts of a segment and of the segments behind it are those of all of them.
proof fn lemma_lay_out_more(
    context: &RewriteContext,
    path_context: PathContext,
    segment: PathSegment,
    segments: Seq<PathSegment>,
    span_hi: BytePos,
    text: Seq<char>,
    texts: Seq<Seq<char>>,
)
    requires
        lays_out(context, path_context, segment, span_hi, text),
        lay_out(context, path_context, segments, span_hi, texts),
    ensures
        lay_out(
            context,
            path_context,
            seq![segment] + segments,
            span_hi,
            seq![text] + texts,
        ),
{
    let (all, layouts) = (seq![segment] + segments, seq![text] + texts);
    assert forall|k: int| 0 <= k < layouts.len() implies #[trigger] lays_out(
        context,
        path_context,
        all[k],
        span_hi,
        layouts[k],
    ) by {
        if k > 0 {
            assert(all[k] == segments[k - 1]);
            assert(layouts[k] == texts[k - 1]);
            assert(lays_out(context, path_context, segments[k - 1], span_hi, texts[k - 1]));
        }
    }
}

/// What stands before several texts that are joined: nothing before the first of all.
pub open spec fn lead(first: bool, texts: Seq<Seq<char>>) -> Seq<char> {
    if first || texts.len() == 0 {
        Seq::empty()
    } else {
        "::"@
    }
}

/// A text and those behind it, joined.
proof fn lemma_joined_more(
    start: Seq<char>,
    before: Seq<char>,
    first: bool,
    text: Seq<char>,
    texts: Seq<Seq<char>>,
)
    requires
        before == start + (if first {
            Seq::empty()
        } else {
            "::"@
        }),
    ensures
        before + text + lead(false, texts) + joined(texts, "::"@) == start + lead(
            first,
            seq![text] + texts,
        ) + joined(seq![text] + texts, "::"@),
{
    super::basics::law_joined(seq![text], texts, "::"@);
    super::basics::law_joined(texts, texts, "::"@);
    if texts.len() == 0 {
        assert(seq![text] + texts =~= seq![text]);
        assert(texts =~= Seq::empty());
        assert(before + text + Seq::<char>::empty() + Seq::<char>::empty() =~= before + text);
    } else {
        assert(before + text + "::"@ + joined(texts, "::"@) =~= before + (text + "::"@ + joined(
            texts,
            "::"@,
        )));
    }
}

/// The segments from `i` on go behind the start, with `::` wherever they meet.
proof fn lemma_segments_joined(
    context: &RewriteContext,
    path_context: PathContext,
    start: Seq<char>,
    segments: Seq<PathSegment>,
    i: int,
    to: int,
    first: bool,
    span_lo: BytePos,
    span_hi: BytePos,
    shape: Shape,
) -> (texts: Seq<Seq<char>>)
    requires
        0 <= i <= to <= segments.len(),
        more_segments_text(
            context,
            path_context,
            start,
            segments,
            i,
            to,
            first,
            span_lo,
            span_hi,
            shape,
        ) is Ok,
    ensures
        lay_out(context, path_context, named(segments, i, to), span_hi, texts),
        more_segments_text(
            context,
            path_context,
            start,
            segments,
            i,
            to,
            first,
            span_lo,
            span_hi,
            shape,
        ) == Ok::<Seq<char>, StopView>(start + lead(first, texts) + joined(texts, "::"@)),
    decreases to - i,
{
    if i == to {
        let texts = Seq::<Seq<char>>::empty();
        assert(start + Seq::<char>::empty() + joined(texts, "::"@) =~= start);
        texts
    } else {
        law_next_segment(
            context,
            path_context,
            start,
            segments,
            i,
            to,
            first,
            span_lo,
            span_hi,
            shape,
        );
        if segments[i].is_root {
            lemma_segments_joined(
                context,
                path_context,
                start,
                segments,
                i + 1,
                to,
                first,
                span_lo,
                span_hi,
                shape,
            )
        } else {
            let before = start + (if first {
                Seq::empty()
            } else {
                "::"@
            });
            let inner = shape.shrunk(shape.taken_by(before))->0;
            let (text, pos) = segment_text(
                context,
                path_context,
                segments[i],
                span_lo,
                span_hi,
                inner,
            )->Ok_0;
            lemma_lays_out(
                context,
                path_context,
                segments[i],
                span_lo,
                span_hi,
                inner,
                text,
                pos,
            );
            let rest = lemma_segments_joined(
                context,
                path_context,
                before + text,
                segments,
                i + 1,
                to,
                false,
                pos,
                span_hi,
                shape,
            );
            lemma_lay_out_more(
                context,
                path_context,
                segments[i],
                named(segments, i + 1, to),
                span_hi,
                text,
                rest,
            );
            lemma_joined_more(start, before, first, text, rest);
            seq![text] + rest
        }
    }
}

/// The segments of a path go behind what stands before them, one layout for each segment that
/// is not a root, in their order, with `::` between any two and nowhere else.
pub proof fn law_segments_are_joined(
    context: &RewriteContext,
    path_context: PathContext,
    start: Seq<char>,
    segments: Seq<PathSegment>,
    from: int,
    to: int,
    span_lo: BytePos,
    span_hi: BytePos,
    shape: Shape,
) -> (texts: Seq<Seq<char>>)
    requires
        0 <= from <= to <= segments.len(),
        segments_text(
            context,
            path_context,
            start,
            segments,
            from,
            to,
            span_lo,
            span_hi,
            shape,
        ) is Ok,
    ensures
        lay_out(context, path_context, named(segments, from, to), span_hi, texts),
        segments_text(
            context,
            path_context,
            start,
            segments,
            from,
            to,
            span_lo,
            span_hi,
            shape,
        ) == Ok::<Seq<char>, StopView>(start + joined(texts, "::"@)),
{
    reveal_with_fuel(segments_text, 2);
    let texts = lemma_segments_joined(
        context,
        path_context,
        start,
        segments,
        from,
        to,
        true,
        span_lo,
        span_hi,
        shape.visual(0)->0,
    );
    assert(start + Seq::<char>::empty() + joined(texts, "::"@) =~= start + joined(texts, "::"@));
    texts
}

/// Among the layouts of the segments of a path in an expression, that of a segment with
/// arguments in angle brackets has `::` directly before the brackets.
pub proof fn law_expression_segments(
    context: &RewriteContext,
    segments: Seq<PathSegment>,
    span_hi: BytePos,
    texts: Seq<Seq<char>>,
    k: int,
    data: AngleBracketedArgs,
) -> (generics: Seq<char>)
    requires
        lay_out(context, PathContext::Expr, segments, span_hi, texts),
        0 <= k < segments.len(),
        bracketed(segments[k]) == Some(data),
    ensures
        texts[k] == segments[k].ident.text@ + "::"@ + generics,
        exists|lo: BytePos, inner: Shape|
            context.text_for(#[trigger] brackets_query(data, lo, span_hi, inner)) == Ok::<
                Seq<char>,
                StopView,
            >(generics),
{
    assert(lays_out(context, PathContext::Expr, segments[k], span_hi, texts[k]));
    reveal(lays_out);
    let (lo, shape) = choose|lo: BytePos, shape: Shape|
        (#[trigger] segment_text(
            context,
            PathContext::Expr,
            segments[k],
            lo,
            span_hi,
            shape,
        )) matches Ok((t, _)) && t == texts[k];
    law_segment_with_brackets(
        context,
        PathContext::Expr,
        segments[k],
        data,
        lo,
        span_hi,
        shape,
    );
    let inner = behind_name(context, segments[k], shape)->0;
    let query = brackets_query(data, lo, span_hi, inner);
    context.text_for(query)->Ok_0
}

/// Outside of macro calls, arguments are laid out in an expression as in a type, but for the
/// `::` before the brackets.
pub proof fn law_expression_differs_by_colons(
    context: &RewriteContext,
    ident: Ident,
    args: GenericArgs,
    span_lo: BytePos,
    span_hi: BytePos,
    shape: Shape,
    start: Seq<char>,
)
    requires
        !context.inside_macro,
    ensures
        ({
            let as_type = args_text(
                context,
                PathContext::Type,
                ident,
                args,
                span_lo,
                span_hi,
                shape,
                start,
            );
            let as_expr = args_text(
                context,
                PathContext::Expr,
                ident,
                args,
                span_lo,
                span_hi,
                shape,
                start,
            );
            let behind_colons = args_text(
                context,
                PathContext::Type,
                ident,
                args,
                span_lo,
                span_hi,
                shape,
                start + "::"@,
            );
            match args {
                GenericArgs::AngleBracketed(data) => if data.args@.len() > 0 {
                    as_expr == behind_colons
                } else {
                    as_expr == as_type
                },
                GenericArgs::Parenthesized(_) => as_expr == as_type,
            }
        }),
{
    match args {
        GenericArgs::AngleBracketed(data) => {
            law_separator(context, PathContext::Type, ident, data.span);
            law_separator(context, PathContext::Expr, ident, data.span);
            law_bracketed_arguments(
                context,
                PathContext::Type,
                ident,
                data,
                span_lo,
                span_hi,
                shape,
                start,
            );
            law_bracketed_arguments(
                context,
                PathContext::Expr,
                ident,
                data,
                span_lo,
                span_hi,
                shape,
                start,
            );
            law_bracketed_arguments(
                context,
                PathContext::Type,
                ident,
                data,
                span_lo,
                span_hi,
                shape,
                start + "::"@,
            );
            reveal_strlit("");
            if let Ok(generics) = context.text_for(
                brackets_query(data, span_lo, span_hi, shape),
            ) {
                assert(start + "::"@ + ""@ + generics =~= start + "::"@ + generics);
            }
        },
        GenericArgs::Parenthesized(data) => {
            law_parenthesized_arguments(
                context,
                PathContext::Type,
                ident,
                data,
                span_lo,
                span_hi,
                shape,
                start,
            );
            law_parenthesized_arguments(
                context,
                PathContext::Expr,
                ident,
                data,
                span_lo,
                span_hi,
                shape,
                start,
            );
        },
    }
}

/// Each segment is laid out behind what stands before it: all its lines start where the path
/// starts, moved by what the text before it takes up, and it stops the path where it stops
/// itself. Roots are left out.
#[verifier::rlimit(40)]
pub proof fn law_next_segment(
    context: &RewriteContext,
    path_context: PathContext,
    start: Seq<char>,
    segments: Seq<PathSegment>,
    i: int,
    to: int,
    first: bool,
    span_lo: BytePos,
    span_hi: BytePos,
    shape: Shape,
)
    requires
        0 <= i < to <= segments.len(),
    ensures
        ({
            let whole = more_segments_text(
                context,
                path_context,
                start,
                segments,
                i,
                to,
                first,
                span_lo,
                span_hi,
                shape,
            );
            let before = start + (if first {
                Seq::empty()
            } else {
                "::"@
            });
            let rest = |start: Seq<char>, first: bool, lo: BytePos|
                more_segments_text(
                    context,
                    path_context,
                    start,
                    segments,
                    i + 1,
                    to,
                    first,
                    lo,
                    span_hi,
                    shape,
                );
            if segments[i].is_root {
                whole == rest(start, first, span_lo)
            } else {
                match shape.shrunk(shape.taken_by(before)) {
                    None => whole == failed(),
                    Some(inner) => match segment_text(
                        context,
                        path_context,
                        segments[i],
                        span_lo,
                        span_hi,
                        inner,
                    ) {
                        Err(stop) => whole == Err::<Seq<char>, StopView>(stop),
                        Ok((text, pos)) => whole == rest(before + text, false, pos),
                    },
                }
            }
        }),
{
    reveal_with_fuel(more_segments_text, 2);
    assert(start + Seq::<char>::empty() =~= start);
}

/// A path starts with all its lines aligned with its start, and with its first segment, before
/// which no `::` stands. Where there are no segments, there is only what stands before them.
pub proof fn law_path_starts_aligned(
    context: &RewriteContext,
    path_context: PathContext,
    start: Seq<char>,
    segments: Seq<PathSegment>,
    from: int,
    to: int,
    span_lo: BytePos,
    span_hi: BytePos,
    shape: Shape,
)
    requires
        0 <= from <= to <= segments.len(),
    ensures
        segments_text(
            context,
            path_context,
            start,
            segments,
            from,
            to,
            span_lo,
            span_hi,
            shape,
        ) == more_segments_text(
            context,
            path_context,
            start,
            segments,
            from,
            to,
            true,
            span_lo,
            span_hi,
            (Shape {
                width: shape.width,
                indent: Indent {
                    block_indent: shape.indent.block_indent,
                    alignment: shape.offset,
                },
                offset: shape.offset,
            }),
        ),
        from == to ==> segments_text(
            context,
            path_context,
            start,
            segments,
            from,
            to,
            span_lo,
            span_hi,
            shape,
        ) == Ok::<Seq<char>, StopView>(start),
{
    reveal_with_fuel(segments_text, 2);
    reveal_with_fuel(more_segments_text, 2);
}

// ----- Paths -----

/// What a path starts with: `::` if its first segment is a root, but for an import.
pub open spec fn root_text(path_context: PathContext, path: Path) -> Seq<char> {
    if path.segments@.len() > 0 && path.segments@[0].is_root && path_context
        != PathContext::Import {
        "::"@
    } else {
        ""@
    }
}

/// A path without a type before it is its root and all its segments, in its own context.
pub proof fn law_plain_path(
    context: &RewriteContext,
    path_context: PathContext,
    path: Path,
    shape: Shape,
)
    ensures
        path_text(context, path_context, None, path, shape) == segments_text(
            context,
            path_context,
            root_text(path_context, path),
            path.segments@,
            0,
            path.segments@.len() as int,
            path.span.lo,
            path.span.hi,
            shape,
        ),
        qualified_path_text(context, path_context, None, path, shape) == path_text(
            context,
            path_context,
            None,
            path,
            shape,
        ),
{
    reveal_with_fuel(path_text, 2);
}

/// How many segments of a path with a type before it belong to the trait.
pub open spec fn in_trait(qself: QSelf, path: Path) -> int {
    if qself.position <= path.segments@.len() {
        qself.position as int
    } else {
        path.segments@.len() as int
    }
}

/// The text of a type before a path, and where the path goes on behind it.
pub open spec fn self_of(qself: QSelf, text: Seq<char>) -> SelfText {
    SelfText { text, position: qself.position, hi: qself.ty.span.hi }
}

/// A path with a type before it is `<`, the type, ` as ` and the segments of the trait, laid out
/// as a type, then `>::` and the other segments, laid out in the context of the path. Without
/// a trait, ` as ` is left out. The three columns of `>::` are kept free behind the trait.
#[verifier::rlimit(40)]
pub proof fn law_qualified_path(
    context: &RewriteContext,
    path_context: PathContext,
    qself: QSelf,
    path: Path,
    shape: Shape,
)
    ensures
        ({
            let whole = qualified_path_text(context, path_context, Some(qself), path, shape);
            let n = path.segments@.len() as int;
            let p = in_trait(qself, path);
            let behind = |start: Seq<char>, ty: Seq<char>|
                if qself.ty.span.hi == BytePos::MAX {
                    failed()
                } else {
                    segments_text(
                        context,
                        path_context,
                        start + ">::"@,
                        path.segments@,
                        p,
                        n,
                        position_behind(self_of(qself, ty), path.segments@, p),
                        path.span.hi,
                        shape,
                    )
                };
            match ty_text(context, *qself.ty, shape) {
                Err(stop) => whole == Err::<Seq<char>, StopView>(stop),
                Ok(ty) => if qself.position == 0 {
                    whole == behind("<"@ + ty, ty)
                } else if shape.width < 3 {
                    whole == failed()
                } else {
                    match segments_text(
                        context,
                        PathContext::Type,
                        "<"@ + ty + " as "@ + root_text(path_context, path),
                        path.segments@,
                        0,
                        p,
                        path.span.lo,
                        path.span.hi,
                        (Shape { width: (shape.width - 3) as usize, ..shape }),
                    ) {
                        Err(stop) => whole == Err::<Seq<char>, StopView>(stop),
                        Ok(start) => whole == behind(start, ty),
                    }
                },
            }
        }),
{
    reveal_with_fuel(path_text, 2);
}

/// A path with a type before it: its text is `<`, the type, ` as ` and the segments of the
/// trait, each laid out as in a type, then `>::`, and then the other segments, each laid out as
/// in the context of the path. The pieces are the layouts of the segments.
#[verifier::rlimit(40)]
pub proof fn law_qualified_path_in_pieces(
    context: &RewriteContext,
    path_context: PathContext,
    qself: QSelf,
    path: Path,
    shape: Shape,
) -> (pieces: (Seq<Seq<char>>, Seq<Seq<char>>))
    requires
        qualified_path_text(context, path_context, Some(qself), path, shape) is Ok,
    ensures
        ({
            let n = path.segments@.len() as int;
            let p = in_trait(qself, path);
            &&& ty_text(context, *qself.ty, shape) is Ok
            &&& lay_out(
                context,
                PathContext::Type,
                named(path.segments@, 0, p),
                path.span.hi,
                pieces.0,
            )
            &&& lay_out(
                context,
                path_context,
                named(path.segments@, p, n),
                path.span.hi,
                pieces.1,
            )
            &&& qualified_path_text(context, path_context, Some(qself), path, shape) == Ok::<
                Seq<char>,
                StopView,
            >(
                "<"@ + ty_text(context, *qself.ty, shape)->Ok_0 + (if qself.position > 0 {
                    " as "@ + root_text(path_context, path) + joined(pieces.0, "::"@)
                } else {
                    Seq::empty()
                }) + ">::"@ + joined(pieces.1, "::"@),
            )
        }),
{
    let p = in_trait(qself, path);
    let n = path.segments@.len() as int;
    let ty = ty_text(context, *qself.ty, shape)->Ok_0;
    let root = root_text(path_context, path);
    let start = lemma_qualified_start(context, path_context, qself, path, shape);
    let outer = law_segments_are_joined(
        context,
        path_context,
        start + ">::"@,
        path.segments@,
        p,
        n,
        position_behind(self_of(qself, ty), path.segments@, p),
        path.span.hi,
        shape,
    );
    if qself.position == 0 {
        assert("<"@ + ty =~= "<"@ + ty + Seq::<char>::empty());
        (Seq::empty(), outer)
    } else {
        let inner = law_segments_are_joined(
            context,
            PathContext::Type,
            "<"@ + ty + " as "@ + root,
            path.segments@,
            0,
            p,
            path.span.lo,
            path.span.hi,
            (Shape { width: (shape.width - 3) as usize, ..shape }),
        );
        assert("<"@ + ty + " as "@ + root + joined(inner, "::"@) =~= "<"@ + ty + (" as "@ + root
            + joined(inner, "::"@)));
        (inner, outer)
    }
}

/// What stands before the `>::` of a path with a type before it.
proof fn lemma_qualified_start(
    context: &RewriteContext,
    path_context: PathContext,
    qself: QSelf,
    path: Path,
    shape: Shape,
) -> (start: Seq<char>)
    requires
        qualified_path_text(context, path_context, Some(qself), path, shape) is Ok,
    ensures
        ty_text(context, *qself.ty, shape) is Ok,
        ({
            let ty = ty_text(context, *qself.ty, shape)->Ok_0;
            let p = in_trait(qself, path);
            &&& qself.position == 0 ==> p == 0 && start == "<"@ + ty
            &&& qself.position > 0 ==> shape.width >= 3 && segments_text(
                context,
                PathContext::Type,
                "<"@ + ty + " as "@ + root_text(path_context, path),
                path.segments@,
                0,
                p,
                path.span.lo,
                path.span.hi,
                (Shape { width: (shape.width - 3) as usize, ..shape }),
            ) == Ok::<Seq<char>, StopView>(start)
            &&& qualified_path_text(context, path_context, Some(qself), path, shape)
                == segments_text(
                context,
                path_context,
                start + ">::"@,
                path.segments@,
                p,
                path.segments@.len() as int,
                position_behind(self_of(qself, ty), path.segments@, p),
                path.span.hi,
                shape,
            )
        }),
{
    law_qualified_path(context, path_context, qself, path, shape);
    let ty = ty_text(context, *qself.ty, shape)->Ok_0;
    if qself.position == 0 {
        "<"@ + ty
    } else {
        segments_text(
            context,
            PathContext::Type,
            "<"@ + ty + " as "@ + root_text(path_context, path),
            path.segments@,
            0,
            in_trait(qself, path),
            path.span.lo,
            path.span.hi,
            (Shape { width: (shape.width - 3) as usize, ..shape }),
        )->Ok_0
    }
}

/// A path as a type is laid out as a path in the context of a type.
pub proof fn law_path_type(context: &RewriteContext, ty: Ty, shape: Shape)
    ensures
        ty.kind matches TyKind::Path(qself, path) ==> ty_text(context, ty, shape)
            == qualified_path_text(context, PathContext::Type, qself, path, shape),
{
    reveal_with_fuel(ty_text, 2);
}

/// The brackets that count for the position behind the type of a path are the last ones in the
/// trait: a segment with arguments in angle brackets replaces those before it, and one without
/// any leaves them.
pub proof fn law_last_brackets(
    segments: Seq<PathSegment>,
    n: int,
    segment: PathSegment,
    qself: SelfText,
)
    requires
        0 <= n < segments.len(),
        qself.hi < BytePos::MAX,
    ensures
        brackets_end(segments, 0) is None,
        brackets_end(segments, n + 1) == (match segments[n].args {
            Some(args) => match *args {
                GenericArgs::AngleBracketed(data) => if data.args@.len() > 0 {
                    Some(data.span.hi)
                } else {
                    brackets_end(segments, n)
                },
                GenericArgs::Parenthesized(_) => brackets_end(segments, n),
            },
            None => brackets_end(segments, n),
        }),
        position_behind(qself, segments, n) > qself.hi,
        brackets_end(segments, n) is None ==> position_behind(qself, segments, n) == qself.hi + 1,
        brackets_end(segments, n) matches Some(end) ==> position_behind(qself, segments, n) >= end
            && (position_behind(qself, segments, n) == end || position_behind(qself, segments, n)
            == qself.hi + 1),
        bracketed(segment) is Some <==> (segment.args matches Some(args)
            && *args matches GenericArgs::AngleBracketed(data) && data.args@.len() > 0),
        segment.args matches Some(args) ==> (*args matches GenericArgs::AngleBracketed(data)
            ==> data.args@.len() > 0 ==> bracketed(segment) == Some(data)),
{
    reveal_with_fuel(brackets_end, 2);
}

} // verus!
