//! What the layout of a type is.
//!
//! Each function here says for one piece of syntax what its text is within a shape, and when
//! there is none. The functions in [`crate::types`] compute it.

use crate::ast::{
    AngleBracketedArg, AngleBracketedArgs, AnonConst, AssocTyConstraint, AssocTyConstraintKind,
    BareFnTy, Extern, FnRetTy, GenericArg, GenericArgs, GenericBound, GenericParam,
    GenericParamKind, Ident, Lifetime, MutTy, Mutability, Param, Path, PathSegment, PolyTraitRef,
    QSelf, TraitBoundModifier, TraitObjectSyntax, Ty, TyKind, Unsafe, WherePredicate,
};
use crate::config::{colon, Config, IndentStyle, SeparatorTactic, TypeDensity};
use crate::lists::{list_tactic, DefinitiveListTactic, ListFormatting, ListItemView};
use crate::query::{
    ArgKey, ExprType, Layout, MacroPosition, PairPartsView, ParamKey, QueryView, RewriteContext,
    RhsKey, SeparatorPlace, StopView, Token,
};
use crate::shape::{less, Shape};
use crate::span::{between, BytePos, Span};
use crate::text::{
    byte_len, display_width, first_line, is_extendable, is_multiline, joined, last_line, trimmed,
    trimmed_end, trimmed_start,
};
use crate::types::PathContext;
use vstd::prelude::*;

verus! {

/// The text of the type in `<T as Trait>::Assoc`, how many segments belong within the angle
/// brackets, and where the type ends in the source.
pub struct SelfText {
    pub text: Seq<char>,
    pub position: usize,
    pub hi: BytePos,
}

/// A layout that may be missing. Only an open query stops what depends on it.
pub open spec fn optional(layout: Layout) -> Result<Option<Seq<char>>, StopView> {
    match layout {
        Ok(text) => Ok(Some(text)),
        Err(StopView::Failed) => Ok(None),
        Err(stop) => Err(stop),
    }
}

/// The `mut` of a reference, with the space behind it.
pub open spec fn mutability_text(mutability: Mutability) -> Seq<char> {
    match mutability {
        Mutability::Mut => "mut "@,
        Mutability::Not => ""@,
    }
}

/// The `unsafe` before a function, with the space behind it.
pub open spec fn unsafety_text(unsafety: Unsafe) -> Seq<char> {
    match unsafety {
        Unsafe::Yes => "unsafe "@,
        Unsafe::No => ""@,
    }
}

/// The `extern "abi"` before a function. The Rust ABI is left out, and the C ABI is named only
/// if the settings ask for it.
pub open spec fn extern_text(ext: Extern, explicit_abi: bool) -> Seq<char> {
    let abi = match ext {
        Extern::Absent => "Rust"@,
        Extern::Implicit => "C"@,
        Extern::Explicit(abi) => abi@,
    };
    if abi == "Rust"@ {
        ""@
    } else if abi == "C"@ && !explicit_abi {
        "extern "@
    } else {
        "extern \""@ + abi + "\" "@
    }
}

/// The equals sign before a default or in a constraint.
pub open spec fn equals_text(config: Config) -> Seq<char> {
    match config.type_punctuation_density {
        TypeDensity::Wide => " = "@,
        TypeDensity::Compressed => "="@,
    }
}

// ----- Paths -----

/// The text of a path, which starts with `<T as Trait>::` if there is a type to start with.
/// There is none if the position behind the type cannot be counted.
pub open spec fn path_text(
    context: &RewriteContext,
    path_context: PathContext,
    qself: Option<SelfText>,
    path: Path,
    shape: Shape,
) -> Layout
    decreases path, 1int,
{
    let segments = path.segments@;
    let root = if path.global() && path_context != PathContext::Import {
        "::"@
    } else {
        ""@
    };
    match qself {
        None => segments_text(
            context,
            path_context,
            root,
            segments,
            0,
            segments.len() as int,
            path.span.lo,
            path.span.hi,
            shape,
        ),
        Some(qself) => {
            let skipped: int = if qself.position <= segments.len() {
                qself.position as int
            } else {
                segments.len() as int
            };
            let start = if qself.position == 0 {
                Ok("<"@ + qself.text)
            } else {
                match shape.narrower(3) {
                    None => Err(StopView::Failed),
                    Some(narrower) => segments_text(
                        context,
                        PathContext::Type,
                        "<"@ + qself.text + " as "@ + root,
                        segments,
                        0,
                        skipped,
                        path.span.lo,
                        path.span.hi,
                        narrower,
                    ),
                }
            };
            match start {
                Err(stop) => Err(stop),
                Ok(start) => if qself.hi == BytePos::MAX {
                    Err(StopView::Failed)
                } else {
                    segments_text(
                        context,
                        path_context,
                        start + ">::"@,
                        segments,
                        skipped,
                        segments.len() as int,
                        position_behind(qself, segments, skipped),
                        path.span.hi,
                        shape,
                    )
                },
            }
        },
    }
}

/// The arguments in angle brackets behind a segment, if there are any.
pub open spec fn bracketed(segment: PathSegment) -> Option<AngleBracketedArgs> {
    match segment.args {
        Some(args) => match *args {
            GenericArgs::AngleBracketed(data) => if data.args@.len() > 0 {
                Some(data)
            } else {
                None
            },
            GenericArgs::Parenthesized(_) => None,
        },
        None => None,
    }
}

/// Where the last angle brackets among the first `n` segments end.
pub open spec fn brackets_end(segments: Seq<PathSegment>, n: int) -> Option<BytePos>
    decreases n,
{
    if !(0 < n <= segments.len()) {
        None
    } else {
        match bracketed(segments[n - 1]) {
            Some(data) => Some(data.span.hi),
            None => brackets_end(segments, n - 1),
        }
    }
}

/// The position from which on the segments behind `<T as Trait>::` stand, of which `skipped`
/// ones stand within the angle brackets: behind the type and behind the parameters of those.
pub open spec fn position_behind(
    qself: SelfText,
    segments: Seq<PathSegment>,
    skipped: int,
) -> BytePos {
    match brackets_end(segments, skipped) {
        Some(end) if end > qself.hi => end,
        _ => (qself.hi + 1) as BytePos,
    }
}

/// How many there are from one index up to another.
pub open spec fn left(from: int, to: int) -> int {
    if from <= to {
        to - from
    } else {
        0
    }
}

/// The text `start` with the segments from `from` up to `to` behind it.
pub open spec fn segments_text(
    context: &RewriteContext,
    path_context: PathContext,
    start: Seq<char>,
    segments: Seq<PathSegment>,
    from: int,
    to: int,
    span_lo: BytePos,
    span_hi: BytePos,
    shape: Shape,
) -> Layout
    decreases segments, left(from, to) + 1,
{
    match shape.visual(0) {
        None => Err(StopView::Failed),
        Some(shape) => more_segments_text(
            context,
            path_context,
            start,
            segments,
            from,
            to,
            true,
            span_lo,
            span_hi,
            shape,
        ),
    }
}

/// The text `start` with the segments from `i` up to `to` behind it: `::` before each but the
/// first, and nothing for a root.
pub open spec fn more_segments_text(
    context: &RewriteContext,
    path_context: PathContext,
    start: Seq<char>,
    segments: Seq<PathSegment>,
    i: int,
    to: int,
    first: bool,
    span_lo: BytePos,
    span_hi: BytePos,
    shape: Shape,
) -> Layout
    decreases segments, left(i, to),
{
    if !(0 <= i < to <= segments.len()) {
        Ok(start)
    } else if segments[i].is_root {
        more_segments_text(
            context,
            path_context,
            start,
            segments,
            i + 1,
            to,
            first,
            span_lo,
            span_hi,
            shape,
        )
    } else {
        let before = if first {
            start
        } else {
            start + "::"@
        };
        match shape.shrunk(shape.taken_by(before)) {
            None => Err(StopView::Failed),
            Some(segment_shape) => match segment_text(
                context,
                path_context,
                segments[i],
                span_lo,
                span_hi,
                segment_shape,
            ) {
                Err(stop) => Err(stop),
                Ok((text, span_lo)) => more_segments_text(
                    context,
                    path_context,
                    before + text,
                    segments,
                    i + 1,
                    to,
                    false,
                    span_lo,
                    span_hi,
                    shape,
                ),
            },
        }
    }
}

/// The text of a path segment, and the position from which on the next segment stands.
pub open spec fn segment_text(
    context: &RewriteContext,
    path_context: PathContext,
    segment: PathSegment,
    span_lo: BytePos,
    span_hi: BytePos,
    shape: Shape,
) -> Result<(Seq<char>, BytePos), StopView>
    decreases segment, 0int,
{
    let ident = segment.ident.text@;
    let args_shape = if context.block_style() {
        shape.further(byte_len(ident) as int)
    } else {
        shape.shrunk(byte_len(ident) as int)
    };
    match args_shape {
        None => Err(StopView::Failed),
        Some(args_shape) => match segment.args {
            None => Ok((ident, span_lo)),
            Some(args) => args_text(
                context,
                path_context,
                segment.ident,
                *args,
                span_lo,
                span_hi,
                args_shape,
                ident,
            ),
        },
    }
}

/// What an argument within angle brackets is, and which node.
pub open spec fn param_key(arg: AngleBracketedArg) -> ParamKey {
    match arg {
        AngleBracketedArg::Arg(GenericArg::Lifetime(lifetime)) => ParamKey::LifeTime(lifetime.id),
        AngleBracketedArg::Arg(GenericArg::Type(ty)) => ParamKey::Type(ty.id),
        AngleBracketedArg::Arg(GenericArg::Const(anon_const)) => ParamKey::Const(anon_const.id),
        AngleBracketedArg::Constraint(constraint) => ParamKey::Binding(constraint.id),
    }
}

/// Which nodes a list of types holds, and where they stand in the source.
pub open spec fn ty_keys(tys: Seq<Ty>) -> Seq<ArgKey> {
    tys.map_values(|ty: Ty| ArgKey { id: ty.id, span: ty.span })
}

/// Which nodes a list of parameters holds, and where they stand in the source.
pub open spec fn fn_param_keys(params: Seq<Param>) -> Seq<ArgKey> {
    params.map_values(|param: Param| ArgKey { id: param.id, span: param.span })
}

/// What stands between an identifier and its arguments in angle brackets: `::` in an
/// expression, and within a macro call wherever the source has it.
pub open spec fn separator_text(
    context: &RewriteContext,
    path_context: PathContext,
    ident: Ident,
    args: Span,
) -> Layout {
    if path_context == PathContext::Expr {
        Ok("::"@)
    } else if context.inside_macro {
        match context.source_of(between(ident.span.hi, args.lo)) {
            Err(stop) => Err(stop),
            Ok(source) => if "::"@.is_prefix_of(trimmed(source)) {
                Ok("::"@)
            } else {
                Ok(""@)
            },
        }
    } else {
        Ok(""@)
    }
}

/// The text `start` with generic arguments behind it, and the position from which on the next
/// segment stands: the end of the angle brackets, if there are arguments in any.
pub open spec fn args_text(
    context: &RewriteContext,
    path_context: PathContext,
    ident: Ident,
    args: GenericArgs,
    span_lo: BytePos,
    span_hi: BytePos,
    shape: Shape,
    start: Seq<char>,
) -> Result<(Seq<char>, BytePos), StopView>
    decreases args, 0int,
{
    match args {
        GenericArgs::AngleBracketed(data) => if data.args@.len() == 0 {
            Ok((start, span_lo))
        } else {
            let span = between(span_lo, span_hi);
            match separator_text(context, path_context, ident, data.span) {
                Err(stop) => Err(stop),
                Ok(separator) => match context.text_for(
                    QueryView::AngleBrackets {
                        ident: ""@,
                        params: data.args@.map_values(|arg: AngleBracketedArg| param_key(arg)),
                        shape,
                        span,
                    },
                ) {
                    Err(stop) => Err(stop),
                    Ok(generics) => Ok((start + separator + generics, data.span.hi)),
                },
            }
        },
        GenericArgs::Parenthesized(data) => match fn_type_text(
            context,
            ty_keys(data.inputs@),
            data.output,
            false,
            data.span,
            shape,
        ) {
            Err(stop) => Err(stop),
            Ok(text) => Ok((start + text, span_lo)),
        },
    }
}

// ----- Function types -----

/// Whether the arguments of a function go on one line or on a line each. They do not go on
/// one line if the return type takes up several.
pub open spec fn arg_tactic(
    items: Seq<ListItemView>,
    output: Seq<char>,
    shape: Shape,
) -> DefinitiveListTactic {
    if is_multiline(output) {
        DefinitiveListTactic::Vertical
    } else {
        list_tactic(items, less(shape.width as int, 2 + byte_len(output) as int))
    }
}

/// The shape of a return type.
pub open spec fn output_shape(context: &RewriteContext, shape: Shape) -> Option<Shape> {
    match context.config.indent_style {
        IndentStyle::Block => shape.further(4),
        IndentStyle::Visual => match shape.indented_by(4) {
            None => None,
            Some(shape) => shape.narrower(4),
        },
    }
}

/// The shape of the arguments of a function.
pub open spec fn args_shape(context: &RewriteContext, shape: Shape) -> Option<Shape> {
    if context.block_style() {
        match shape.unaligned().indent.deeper(context.config) {
            None => None,
            Some(indent) => Some(Shape::behind(0, indent).full_width(context.config)),
        }
    } else {
        shape.inside(2, 1)
    }
}

/// The text of arguments and a return type, as in `(A, B) -> C`.
pub open spec fn fn_type_text(
    context: &RewriteContext,
    args: Seq<ArgKey>,
    output: FnRetTy,
    variadic: bool,
    span: Span,
    shape: Shape,
) -> Layout
    decreases output, 0int,
{
    match output_shape(context, shape) {
        None => Err(StopView::Failed),
        Some(ty_shape) => {
            let output_text = match output {
                FnRetTy::Ty(ty) => match ty_text(context, *ty, ty_shape) {
                    Err(stop) => Err(stop),
                    Ok(text) => Ok(" -> "@ + text),
                },
                FnRetTy::Default(_) => Ok(""@),
            };
            match output_text {
                Err(stop) => Err(stop),
                Ok(output_text) => match args_shape(context, shape) {
                    None => Err(StopView::Failed),
                    Some(list_shape) => match arg_list_text(
                        context,
                        args,
                        output_text,
                        variadic,
                        span,
                        shape,
                        list_shape,
                    ) {
                        Err(stop) => Err(stop),
                        Ok(args) => Ok(with_output(context, args, output_text, shape, list_shape)),
                    },
                },
            }
        },
    }
}

/// The text of the arguments of a function, with the parentheses. Between the parentheses of
/// an empty list stands what the source has there, which can only be a comment.
pub open spec fn arg_list_text(
    context: &RewriteContext,
    args: Seq<ArgKey>,
    output: Seq<char>,
    variadic: bool,
    span: Span,
    shape: Shape,
    list_shape: Shape,
) -> Layout {
    match context.end_of(span, Token::OpenParen) {
        Err(stop) => Err(stop),
        Ok(lo) => if args.len() == 0 {
            match context.start_of(span, Token::CloseParen) {
                Err(stop) => Err(stop),
                Ok(hi) => match context.text_for(
                    QueryView::SpanToSnippet { span: between(lo, hi) },
                ) {
                    Err(stop) => Err(stop),
                    Ok(source) => Ok(
                        "("@ + comment_alone(context, trimmed(source), shape, list_shape) + ")"@,
                    ),
                },
            }
        } else {
            match context.items_for(
                QueryView::ItemizeList {
                    args,
                    terminator: ")"@,
                    separator: ","@,
                    shape: list_shape,
                    lo,
                    hi: span.hi,
                    leave_last: false,
                },
            ) {
                Err(stop) => Err(stop),
                Ok(items) => {
                    let tactic = arg_tactic(items, output, shape);
                    match context.text_for(
                        QueryView::WriteList {
                            items,
                            formatting: arg_formatting(context, tactic, variadic, list_shape),
                        },
                    ) {
                        Err(stop) => Err(stop),
                        Ok(list) => Ok(
                            if tactic == DefinitiveListTactic::Horizontal || !context.block_style() {
                                "("@ + list + ")"@
                            } else {
                                "("@ + list_shape.indent.new_line(context.config) + list
                                    + shape.unaligned().indent.new_line(context.config) + ")"@
                            },
                        ),
                    }
                },
            }
        },
    }
}

/// The comment between the parentheses of an empty list. A comment that runs to the end of
/// its line goes on a line of its own.
pub open spec fn comment_alone(
    context: &RewriteContext,
    comment: Seq<char>,
    shape: Shape,
    list_shape: Shape,
) -> Seq<char> {
    if "//"@.is_prefix_of(comment) {
        list_shape.indent.new_line(context.config) + comment + shape.unaligned().indent.new_line(
            context.config,
        )
    } else {
        comment
    }
}

/// How the arguments of a function are written. A comma may follow the last one only in block
/// style, and not if it is `...`.
pub open spec fn arg_formatting(
    context: &RewriteContext,
    tactic: DefinitiveListTactic,
    variadic: bool,
    list_shape: Shape,
) -> ListFormatting {
    ListFormatting {
        shape: list_shape,
        tactic,
        trailing_separator: if !context.block_style() || variadic {
            SeparatorTactic::Never
        } else {
            context.config.trailing_comma
        },
        ends_with_newline: tactic.breaks_at_end(context.config.indent_style),
        preserve_newline: true,
    }
}

/// Arguments and a return type, on one line if it is wide enough.
pub open spec fn with_output(
    context: &RewriteContext,
    args: Seq<char>,
    output: Seq<char>,
    shape: Shape,
    list_shape: Shape,
) -> Seq<char> {
    if output.len() == 0 || display_width(last_line(args)) + display_width(first_line(output))
        <= shape.width {
        args + output
    } else {
        args + "\n"@ + list_shape.indent.text(context.config) + trimmed_start(output)
    }
}

/// The text of a function pointer type.
pub open spec fn bare_fn_text(
    context: &RewriteContext,
    bare_fn: BareFnTy,
    span: Span,
    shape: Shape,
) -> Layout
    decreases bare_fn, 0int,
{
    match optional(params_text(context, bare_fn.generic_params@, shape)) {
        Err(stop) => Err(stop),
        Ok(lifetimes) => {
            let start = (match lifetimes {
                Some(lifetimes) => "for<"@ + lifetimes + "> "@,
                None => ""@,
            }) + unsafety_text(bare_fn.unsafety) + extern_text(
                bare_fn.ext,
                context.config.force_explicit_abi,
            ) + "fn"@;
            let n = byte_len(start) as int;
            let args_shape = if context.block_style() {
                shape.further(n)
            } else {
                match shape.visual(n) {
                    None => None,
                    Some(shape) => shape.narrower(n),
                }
            };
            match args_shape {
                None => Err(StopView::Failed),
                Some(args_shape) => match fn_type_text(
                    context,
                    fn_param_keys(bare_fn.decl.inputs@),
                    bare_fn.decl.output,
                    bare_fn.decl.variadic(),
                    span,
                    args_shape,
                ) {
                    Err(stop) => Err(stop),
                    Ok(text) => Ok(start + text),
                },
            }
        },
    }
}

// ----- Generic parameters -----

/// The texts of the parameters from `i` on.
pub open spec fn params_parts(
    context: &RewriteContext,
    params: Seq<GenericParam>,
    i: int,
    shape: Shape,
) -> Result<Seq<Seq<char>>, StopView>
    decreases params, params.len() - i,
{
    if !(0 <= i < params.len()) {
        Ok(Seq::empty())
    } else {
        match param_text(context, params[i], shape) {
            Err(stop) => Err(stop),
            Ok(text) => match params_parts(context, params, i + 1, shape) {
                Err(stop) => Err(stop),
                Ok(rest) => Ok(seq![text] + rest),
            },
        }
    }
}

/// The parameters separated by commas. There is no text if there are none.
pub open spec fn params_text(
    context: &RewriteContext,
    params: Seq<GenericParam>,
    shape: Shape,
) -> Layout
    decreases params, params.len() + 1,
{
    if params.len() == 0 {
        Err(StopView::Failed)
    } else {
        match params_parts(context, params, 0, shape) {
            Err(stop) => Err(stop),
            Ok(parts) => Ok(joined(parts, ", "@)),
        }
    }
}

/// The attributes before a parameter.
pub open spec fn attributes_text(
    context: &RewriteContext,
    param: GenericParam,
    shape: Shape,
) -> Layout {
    match optional(context.text_for(QueryView::Attributes { param: param.id, shape })) {
        Err(stop) => Err(stop),
        Ok(None) => Ok(""@),
        Ok(Some(attributes)) => if attributes.len() == 0 {
            Ok(""@)
        } else {
            Ok(attributes + " "@)
        },
    }
}

/// The text of a constant.
pub open spec fn const_text(
    context: &RewriteContext,
    anon_const: AnonConst,
    shape: Shape,
) -> Layout {
    context.text_for(
        QueryView::Expr { expr: anon_const.id, expr_type: ExprType::SubExpression, shape },
    )
}

/// The text of a generic parameter.
pub open spec fn param_text(context: &RewriteContext, param: GenericParam, shape: Shape) -> Layout
    decreases param, 2int,
{
    match attributes_text(context, param, shape) {
        Err(stop) => Err(stop),
        Ok(start) => match param_name_text(context, param, start, shape) {
            Err(stop) => Err(stop),
            Ok(start) => {
                let with_bounds = if param.bounds@.len() == 0 {
                    Ok(start)
                } else {
                    match bounds_text(context, param.bounds@, shape) {
                        Err(stop) => Err(stop),
                        Ok(bounds) => Ok(start + colon(context.config) + bounds),
                    }
                };
                match with_bounds {
                    Err(stop) => Err(stop),
                    Ok(start) => param_default_text(context, param, start, shape),
                }
            },
        },
    }
}

/// The text `start` with the name of a parameter behind it, and with the type and the value of
/// one that is a constant.
pub open spec fn param_name_text(
    context: &RewriteContext,
    param: GenericParam,
    start: Seq<char>,
    shape: Shape,
) -> Layout
    decreases param, 1int,
{
    match param.kind {
        GenericParamKind::Const { ty, default } => match ty_text(context, *ty, shape) {
            Err(stop) => Err(stop),
            Ok(ty) => {
                let start = start + "const "@ + param.ident.text@ + ": "@ + ty;
                match default {
                    None => Ok(start),
                    Some(default) => {
                        let start = start + equals_text(context.config);
                        match shape.inside(byte_len(start) as int, 0) {
                            None => Err(StopView::Failed),
                            Some(shape) => match const_text(context, default, shape) {
                                Err(stop) => Err(stop),
                                Ok(value) => Ok(start + value),
                            },
                        }
                    },
                }
            },
        },
        _ => Ok(start + param.ident.text@),
    }
}

/// The text `start` with the default of a type parameter behind it.
pub open spec fn param_default_text(
    context: &RewriteContext,
    param: GenericParam,
    start: Seq<char>,
    shape: Shape,
) -> Layout
    decreases param, 1int,
{
    match param.kind {
        GenericParamKind::Type { default: Some(default) } => {
            let start = start + equals_text(context.config);
            let n = byte_len(start) as int;
            match shape.inside(n, n) {
                None => Err(StopView::Failed),
                Some(shape) => match ty_text(context, *default, shape) {
                    Err(stop) => Err(stop),
                    Ok(default) => Ok(start + default),
                },
            }
        },
        _ => Ok(start),
    }
}

// ----- Bounds -----

/// What stands before a trait in a bound.
pub open spec fn modifier_text(modifier: TraitBoundModifier) -> Seq<char> {
    match modifier {
        TraitBoundModifier::Plain => ""@,
        TraitBoundModifier::Maybe => "?"@,
        TraitBoundModifier::MaybeConst => "?const "@,
        TraitBoundModifier::MaybeConstMaybe => "?const ?"@,
    }
}

/// The shape of the trait behind a modifier.
pub open spec fn modified_shape(modifier: TraitBoundModifier, shape: Shape) -> Option<Shape> {
    match modifier {
        TraitBoundModifier::Plain => Some(shape),
        TraitBoundModifier::Maybe => shape.further(1),
        TraitBoundModifier::MaybeConst => shape.further(7),
        TraitBoundModifier::MaybeConstMaybe => shape.further(8),
    }
}

/// The text of a trait, with `for<'a>` before it if it has lifetimes of its own.
pub open spec fn poly_trait_ref_text(
    context: &RewriteContext,
    poly_trait_ref: PolyTraitRef,
    shape: Shape,
) -> Layout
    decreases poly_trait_ref, 0int,
{
    match optional(params_text(context, poly_trait_ref.bound_generic_params@, shape)) {
        Err(stop) => Err(stop),
        Ok(None) => path_text(
            context,
            PathContext::Type,
            None,
            poly_trait_ref.trait_ref.path,
            shape,
        ),
        Ok(Some(lifetimes)) => match shape.further(byte_len(lifetimes) as int + 6) {
            None => Err(StopView::Failed),
            Some(shape) => match path_text(
                context,
                PathContext::Type,
                None,
                poly_trait_ref.trait_ref.path,
                shape,
            ) {
                Err(stop) => Err(stop),
                Ok(path) => Ok("for<"@ + lifetimes + "> "@ + path),
            },
        },
    }
}

/// The text of a bound, in parentheses if the source has it in parentheses.
pub open spec fn bound_text(context: &RewriteContext, bound: GenericBound, shape: Shape) -> Layout
    decreases bound, 0int,
{
    match bound {
        GenericBound::Outlives(lifetime) => Ok(lifetime.ident.text@),
        GenericBound::Trait(poly_trait_ref, modifier) => match context.source_of(bound.source()) {
            Err(stop) => Err(stop),
            Ok(source) => match modified_shape(modifier, shape) {
                None => Err(StopView::Failed),
                Some(shape) => match poly_trait_ref_text(context, poly_trait_ref, shape) {
                    Err(stop) => Err(stop),
                    Ok(text) => if "("@.is_prefix_of(source) && ")"@.is_suffix_of(source) {
                        Ok("("@ + (modifier_text(modifier) + text) + ")"@)
                    } else {
                        Ok(modifier_text(modifier) + text)
                    },
                },
            },
        },
    }
}

/// The bounds separated by `+`, or nothing if there are none.
pub open spec fn bounds_text(
    context: &RewriteContext,
    bounds: Seq<GenericBound>,
    shape: Shape,
) -> Layout
    decreases bounds, bounds.len() + 3,
{
    if bounds.len() == 0 {
        Ok(""@)
    } else {
        joined_bounds_text(context, bounds, shape, true, false)
    }
}

/// Whether all traits come before all lifetimes.
pub open spec fn in_order(bounds: Seq<GenericBound>) -> bool {
    forall|i: int, j: int|
        0 <= i < j < bounds.len() ==> !((#[trigger] bounds[i]) is Outlives && (
        #[trigger] bounds[j]) is Trait)
}

/// Whether bounds that do not fit on one line are worth breaking: there are several, or there
/// is a single trait whose path has several segments or several arguments.
pub open spec fn breakable(bounds: Seq<GenericBound>) -> bool {
    bounds.len() > 1 || (bounds.len() == 1 && match bounds[0] {
        GenericBound::Trait(poly_trait_ref, _) => {
            let segments = poly_trait_ref.trait_ref.path.segments@;
            segments.len() > 1 || (segments.len() == 1 && has_several_args(segments[0]))
        },
        GenericBound::Outlives(_) => false,
    })
}

/// Whether a segment has more than one argument in angle brackets.
pub open spec fn has_several_args(segment: PathSegment) -> bool {
    match segment.args {
        Some(args) => match *args {
            GenericArgs::AngleBracketed(data) => data.args@.len() > 1,
            GenericArgs::Parenthesized(_) => false,
        },
        None => false,
    }
}

/// The bounds separated by `+`. If they do not fit on one line and are worth breaking, each
/// bound that cannot join the line before it starts a line of its own.
pub open spec fn joined_bounds_text(
    context: &RewriteContext,
    bounds: Seq<GenericBound>,
    shape: Shape,
    need_indent: bool,
    force_newline: bool,
) -> Layout
    decreases
            bounds,
            bounds.len() + if force_newline {
                1int
            } else {
                2int
            },
{
    match more_bounds_text(context, bounds, shape, need_indent, force_newline, 0, ""@, None, false) {
        Err(stop) => Err(stop),
        Ok(text) => if !force_newline && (is_multiline(text) || byte_len(text) > shape.width)
            && breakable(bounds) {
            joined_bounds_text(context, bounds, shape, need_indent, true)
        } else {
            Ok(text)
        },
    }
}

/// The shape of each of several bounds.
pub open spec fn bound_shape(
    context: &RewriteContext,
    shape: Shape,
    need_indent: bool,
    force_newline: bool,
) -> Option<Shape> {
    if need_indent && force_newline {
        match shape.indented_by(context.config.tab_spaces as int) {
            None => None,
            Some(shape) => Some(shape.full_width(context.config)),
        }
    } else {
        Some(shape)
    }
}

/// The part of the source between a bound and the `+` behind it.
pub open spec fn gap_behind(
    context: &RewriteContext,
    bounds: Seq<GenericBound>,
    i: int,
) -> Result<Option<Span>, StopView> {
    if i < bounds.len() - 1 {
        match context.start_of(
            between(bounds[i + 1].source().lo, bounds[i].source().hi),
            Token::Plus,
        ) {
            Err(stop) => Err(stop),
            Ok(hi) => Ok(Some(between(bounds[i].source().hi, hi))),
        }
    } else {
        Ok(None)
    }
}

/// The part of the source between a bound and the `+` before it.
pub open spec fn gap_before(
    context: &RewriteContext,
    bounds: Seq<GenericBound>,
    i: int,
) -> Result<Option<Span>, StopView> {
    if i > 0 {
        match context.end_of(
            between(bounds[i - 1].source().hi, bounds[i].source().lo),
            Token::Plus,
        ) {
            Err(stop) => Err(stop),
            Ok(lo) => Ok(Some(between(lo, bounds[i].source().lo))),
        }
    } else {
        Ok(None)
    }
}

/// Whether there is a comment in a gap.
pub open spec fn gap_commented(context: &RewriteContext, gap: Option<Span>) -> Result<
    bool,
    StopView,
> {
    match gap {
        Some(span) => context.commented(span),
        None => Ok(false),
    }
}

/// The `+` between two bounds and the white space around it, of which none is left on a side
/// where a comment goes.
pub open spec fn joiner_text(
    config: Config,
    shape: Shape,
    on_new_line: bool,
    comment_before: bool,
    comment_behind: bool,
) -> Seq<char> {
    let joiner = match config.type_punctuation_density {
        TypeDensity::Compressed => "+"@,
        TypeDensity::Wide => (if on_new_line {
            shape.indent.new_line(config)
        } else {
            " "@
        }) + "+ "@,
    };
    let joiner = if comment_behind {
        trimmed_end(joiner)
    } else {
        joiner
    };
    if comment_before {
        trimmed_start(joiner)
    } else {
        joiner
    }
}

/// Two texts, with the comments of the source between them if there are any.
pub open spec fn combined_text(
    context: &RewriteContext,
    prev: Seq<char>,
    next: Seq<char>,
    gap: Option<Span>,
    has_comment: bool,
    shape: Shape,
) -> Layout {
    match gap {
        Some(span) if has_comment => context.text_for(
            QueryView::CombineWithComments { prev, next, span, shape, allow_extend: true },
        ),
        _ => Ok(prev + next),
    }
}

/// The text `start` with the bounds from `i` on behind it. `gap` is the part of the source
/// between the bound before and the `+` behind it, and `extendable` says whether the next
/// bound can join the line of the bound before.
pub open spec fn more_bounds_text(
    context: &RewriteContext,
    bounds: Seq<GenericBound>,
    shape: Shape,
    need_indent: bool,
    force_newline: bool,
    i: int,
    start: Seq<char>,
    gap: Option<Span>,
    extendable: bool,
) -> Layout
    decreases bounds, bounds.len() - i,
{
    if !(0 <= i < bounds.len()) {
        Ok(start)
    } else {
        match (gap_behind(context, bounds, i), gap_before(context, bounds, i)) {
            (Err(stop), _) => Err(stop),
            (_, Err(stop)) => Err(stop),
            (Ok(next_gap), Ok(leading)) => match (
                gap_commented(context, leading),
                gap_commented(context, gap),
            ) {
                (Err(stop), _) => Err(stop),
                (_, Err(stop)) => Err(stop),
                (Ok(comment_behind), Ok(comment_before)) => match bound_shape(
                    context,
                    shape,
                    need_indent,
                    force_newline,
                ) {
                    None => Err(StopView::Failed),
                    Some(each) => match bound_text(context, bounds[i], each) {
                        Err(stop) => Err(stop),
                        Ok(bound) => {
                            let joiner = joiner_text(
                                context.config,
                                each,
                                force_newline && (!extendable || !in_order(bounds)),
                                comment_before,
                                comment_behind,
                            );
                            let piece = if i == 0 {
                                Ok(bound)
                            } else {
                                combined_text(context, joiner, bound, leading, comment_behind, each)
                            };
                            match piece {
                                Err(stop) => Err(stop),
                                Ok(piece) => match combined_text(
                                    context,
                                    start,
                                    piece,
                                    gap,
                                    comment_before,
                                    each,
                                ) {
                                    Err(stop) => Err(stop),
                                    Ok(text) => more_bounds_text(
                                        context,
                                        bounds,
                                        shape,
                                        need_indent,
                                        force_newline,
                                        i + 1,
                                        text,
                                        next_gap,
                                        bounds[i] is Outlives || is_extendable(bound),
                                    ),
                                },
                            }
                        },
                    },
                },
            },
        }
    }
}

// ----- Types -----

/// The text `start`, which is the `&` of a reference, with the lifetime behind it, and the
/// position where the lifetime ends.
pub open spec fn reference_lifetime_text(
    context: &RewriteContext,
    lifetime: Option<Lifetime>,
    mutability: Mutability,
    start: Seq<char>,
    lo: BytePos,
    shape: Shape,
) -> Result<(Seq<char>, BytePos), StopView> {
    match lifetime {
        None => Ok((start, lo)),
        Some(lifetime) => if 2 + byte_len(mutability_text(mutability)) > shape.width {
            Err(StopView::Failed)
        } else {
            let gap = between(lo, lifetime.ident.span.lo);
            match context.commented(gap) {
                Err(stop) => Err(stop),
                Ok(has_comment) => match combined_text(
                    context,
                    start,
                    lifetime.ident.text@,
                    Some(gap),
                    has_comment,
                    shape,
                ) {
                    Err(stop) => Err(stop),
                    Ok(text) => Ok((text + " "@, lifetime.ident.span.hi)),
                },
            }
        },
    }
}

/// The text `start` of a reference with the `mut` behind it, and the position where it ends.
/// There is none if the `mut` would have to start before the source does.
pub open spec fn reference_mut_text(
    context: &RewriteContext,
    mutability: Mutability,
    start: Seq<char>,
    lo: BytePos,
    span: Span,
    shape: Shape,
) -> Result<(Seq<char>, BytePos), StopView> {
    match mutability {
        Mutability::Not => Ok((start, lo)),
        Mutability::Mut => match context.end_of(span, Token::Mut) {
            Err(stop) => Err(stop),
            Ok(hi) => if hi < 3 {
                Err(StopView::Failed)
            } else {
                let gap = between(lo, (hi - 3) as BytePos);
                match context.commented(gap) {
                    Err(stop) => Err(stop),
                    Ok(has_comment) => match combined_text(
                        context,
                        if has_comment {
                            trimmed_end(start)
                        } else {
                            start
                        },
                        mutability_text(mutability),
                        Some(gap),
                        has_comment,
                        shape,
                    ) {
                        Err(stop) => Err(stop),
                        Ok(text) => Ok((text, hi)),
                    },
                }
            },
        },
    }
}

/// The text of a reference.
pub open spec fn reference_text(
    context: &RewriteContext,
    lifetime: Option<Lifetime>,
    mt: MutTy,
    span: Span,
    shape: Shape,
) -> Layout
    decreases mt, 0int,
{
    match context.end_of(span, Token::Ampersand) {
        Err(stop) => Err(stop),
        Ok(lo) => match reference_lifetime_text(context, lifetime, mt.mutbl, "&"@, lo, shape) {
            Err(stop) => Err(stop),
            Ok((text, lo)) => match reference_mut_text(context, mt.mutbl, text, lo, span, shape) {
                Err(stop) => Err(stop),
                Ok((text, lo)) => {
                    let gap = between(lo, mt.ty.span.lo);
                    match context.commented(gap) {
                        Err(stop) => Err(stop),
                        Ok(true) => match ty_text(context, *mt.ty, shape) {
                            Err(stop) => Err(stop),
                            Ok(ty) => combined_text(
                                context,
                                trimmed_end(text),
                                ty,
                                Some(gap),
                                true,
                                shape,
                            ),
                        },
                        Ok(false) => {
                            let used = display_width(last_line(text)) as int;
                            match shape.inside(used, used) {
                                None => Err(StopView::Failed),
                                Some(shape) => match ty_text(context, *mt.ty, shape) {
                                    Err(stop) => Err(stop),
                                    Ok(ty) => Ok(text + ty),
                                },
                            }
                        },
                    }
                },
            },
        },
    }
}

/// The text of a trait object. Within a macro call, a `+` behind a single bound is kept.
pub open spec fn trait_object_text(
    context: &RewriteContext,
    bounds: Seq<GenericBound>,
    syntax: TraitObjectSyntax,
    span: Span,
    shape: Shape,
) -> Layout
    decreases bounds, bounds.len() + 4,
{
    let is_dyn = syntax == TraitObjectSyntax::Dyn;
    let bounds_shape = if is_dyn {
        shape.further(4)
    } else {
        Some(shape)
    };
    match bounds_shape {
        None => Err(StopView::Failed),
        Some(shape) => match bounds_text(context, bounds, shape) {
            Err(stop) => Err(stop),
            Ok(text) => match kept_plus(context, bounds.len() as int, span, text) {
                Err(stop) => Err(stop),
                Ok(plus) => Ok(
                    (if is_dyn {
                        "dyn "@
                    } else {
                        ""@
                    }) + (text + plus),
                ),
            },
        },
    }
}

/// The `+` that the source has behind the only bound of a trait object in a macro call, if the
/// text of the bound does not end with one already.
pub open spec fn kept_plus(
    context: &RewriteContext,
    count: int,
    span: Span,
    text: Seq<char>,
) -> Layout {
    if context.inside_macro && count == 1 {
        match context.source_of(span) {
            Err(stop) => Err(stop),
            Ok(source) => if "+"@.is_suffix_of(source) && !"+"@.is_suffix_of(text) {
                Ok("+"@)
            } else {
                Ok(""@)
            },
        }
    } else {
        Ok(""@)
    }
}

/// The text of a type within a shape, with texts before and behind it.
pub open spec fn enclosed_text(
    context: &RewriteContext,
    open: Seq<char>,
    ty: Ty,
    close: Seq<char>,
    shape: Option<Shape>,
) -> Layout
    decreases ty, 1int,
{
    match shape {
        None => Err(StopView::Failed),
        Some(shape) => match ty_text(context, ty, shape) {
            Err(stop) => Err(stop),
            Ok(text) => Ok(open + text + close),
        },
    }
}

/// The text of a type in parentheses. In block style it goes on lines of its own if it does not
/// fit on one.
pub open spec fn paren_text(context: &RewriteContext, ty: Ty, shape: Shape) -> Layout
    decreases ty, 2int,
{
    match context.config.indent_style {
        IndentStyle::Visual => enclosed_text(context, "("@, ty, ")"@, shape.inside(2, 1)),
        IndentStyle::Block => match optional(
            enclosed_text(context, "("@, ty, ")"@, shape.narrower(2)),
        ) {
            Err(stop) => Err(stop),
            Ok(flat) => if flat is Some && !is_multiline(flat->0) {
                Ok(flat->0)
            } else {
                match shape.indented_by(context.config.tab_spaces as int) {
                    None => Err(StopView::Failed),
                    Some(inner) => {
                        let inner = inner.full_width(context.config);
                        enclosed_text(
                            context,
                            "("@ + inner.start_line(context.config),
                            ty,
                            shape.indent.new_line(context.config) + ")"@,
                            Some(inner),
                        )
                    },
                }
            },
        },
    }
}

/// The text of a type within a shape.
pub open spec fn ty_text(context: &RewriteContext, ty: Ty, shape: Shape) -> Layout
    decreases ty, 0int,
{
    match ty.kind {
        TyKind::TraitObject(bounds, syntax) => trait_object_text(
            context,
            bounds@,
            syntax,
            ty.span,
            shape,
        ),
        TyKind::Ptr(mt) => {
            let prefix = match mt.mutbl {
                Mutability::Mut => "*mut "@,
                Mutability::Not => "*const "@,
            };
            enclosed_text(context, prefix, *mt.ty, ""@, shape.further(byte_len(prefix) as int))
        },
        TyKind::Rptr(lifetime, mt) => reference_text(context, lifetime, mt, ty.span, shape),
        TyKind::Paren(inner) => paren_text(context, *inner, shape),
        TyKind::Slice(inner) => enclosed_text(context, "["@, *inner, "]"@, shape.inside(4, 1)),
        TyKind::Tup(items) => context.text_for(
            QueryView::Tuple {
                types: items@.map_values(|item: Ty| item.id),
                span: ty.span,
                shape,
                is_singleton: items@.len() == 1,
            },
        ),
        TyKind::Path(qself, path) => match qself {
            None => path_text(context, PathContext::Type, None, path, shape),
            Some(qself) => match ty_text(context, *qself.ty, shape) {
                Err(stop) => Err(stop),
                Ok(text) => path_text(
                    context,
                    PathContext::Type,
                    Some(SelfText { text, position: qself.position, hi: qself.ty.span.hi }),
                    path,
                    shape,
                ),
            },
        },
        TyKind::Array(inner, len) => context.text_for(
            QueryView::Pair {
                ty: inner.id,
                expr: len.id,
                parts: PairPartsView {
                    prefix: "["@,
                    before_infix: ""@,
                    infix: "; "@,
                    behind_infix: ""@,
                    suffix: "]"@,
                },
                shape,
                separator_place: SeparatorPlace::Back,
            },
        ),
        TyKind::Infer => if shape.width >= 1 {
            Ok("_"@)
        } else {
            Err(StopView::Failed)
        },
        TyKind::BareFn(bare_fn) => bare_fn_text(context, *bare_fn, ty.span, shape),
        TyKind::Never => Ok("!"@),
        TyKind::MacCall(mac) => context.text_for(
            QueryView::Macro {
                mac,
                extra_ident: None,
                shape,
                position: MacroPosition::Expression,
            },
        ),
        TyKind::ImplicitSelf => Ok(""@),
        TyKind::ImplTrait(bounds) => if bounds@.len() == 0 {
            Ok("impl"@)
        } else {
            match joined_bounds_text(context, bounds@, shape, false, false) {
                Err(stop) => Err(stop),
                Ok(text) => if text.len() == 0 {
                    Ok("impl"@)
                } else {
                    Ok("impl "@ + text)
                },
            }
        },
        TyKind::CVarArgs => Ok("..."@),
        TyKind::Error => context.source_of(ty.span),
        TyKind::Typeof(anon_const) => context.text_for(
            QueryView::Call {
                callee: "typeof"@,
                exprs: seq![anon_const.id],
                span: ty.span,
                shape,
            },
        ),
    }
}

// ----- What holds types -----

/// The text of a path, with the type that it may start with.
pub open spec fn qualified_path_text(
    context: &RewriteContext,
    path_context: PathContext,
    qself: Option<QSelf>,
    path: Path,
    shape: Shape,
) -> Layout {
    match qself {
        None => path_text(context, path_context, None, path, shape),
        Some(qself) => match ty_text(context, *qself.ty, shape) {
            Err(stop) => Err(stop),
            Ok(text) => path_text(
                context,
                path_context,
                Some(SelfText { text, position: qself.position, hi: qself.ty.span.hi }),
                path,
                shape,
            ),
        },
    }
}

/// The text of a generic argument.
pub open spec fn generic_arg_text(context: &RewriteContext, arg: GenericArg, shape: Shape) -> Layout {
    match arg {
        GenericArg::Lifetime(lifetime) => Ok(lifetime.ident.text@),
        GenericArg::Type(ty) => ty_text(context, *ty, shape),
        GenericArg::Const(anon_const) => const_text(context, anon_const, shape),
    }
}

/// The text of what an associated type is constrained to.
pub open spec fn constraint_kind_text(
    context: &RewriteContext,
    kind: AssocTyConstraintKind,
    shape: Shape,
) -> Layout {
    match kind {
        AssocTyConstraintKind::Equality { ty } => ty_text(context, *ty, shape),
        AssocTyConstraintKind::Bound { bounds } => bounds_text(context, bounds@, shape),
    }
}

/// The text of the constraint on an associated type.
pub open spec fn constraint_text(
    context: &RewriteContext,
    constraint: AssocTyConstraint,
    shape: Shape,
) -> Layout {
    let ident = constraint.ident.text@;
    let segment = match constraint.gen_args {
        None => Ok((ident, constraint.span.lo)),
        Some(args) => args_text(
            context,
            PathContext::Type,
            constraint.ident,
            *args,
            constraint.span.lo,
            constraint.span.hi,
            shape,
            ident,
        ),
    };
    match segment {
        Err(stop) => Err(stop),
        Ok((segment, _)) => {
            let start = segment + match constraint.kind {
                AssocTyConstraintKind::Bound { .. } => ": "@,
                AssocTyConstraintKind::Equality { .. } => equals_text(context.config),
            };
            let n = byte_len(start) as int;
            match shape.inside(n, n) {
                None => Err(StopView::Failed),
                Some(shape) => match constraint_kind_text(context, constraint.kind, shape) {
                    Err(stop) => Err(stop),
                    Ok(text) => Ok(start + text),
                },
            }
        },
    }
}

/// The text of a lifetime and the lifetimes that it outlives.
pub open spec fn bounded_lifetime_text(
    context: &RewriteContext,
    lifetime: Lifetime,
    bounds: Seq<GenericBound>,
    shape: Shape,
) -> Layout {
    let name = lifetime.ident.text@;
    if bounds.len() == 0 {
        Ok(name)
    } else {
        match shape.narrower(
            (display_width(last_line(name)) + byte_len(colon(context.config))) as int,
        ) {
            None => Err(StopView::Failed),
            Some(shape) => match joined_bounds_text(context, bounds, shape, true, false) {
                Err(stop) => Err(stop),
                Ok(text) => Ok(name + colon(context.config) + text),
            },
        }
    }
}

/// The text of a where predicate.
pub open spec fn where_predicate_text(
    context: &RewriteContext,
    predicate: WherePredicate,
    shape: Shape,
) -> Layout {
    match predicate {
        WherePredicate::BoundPredicate(data) => match ty_text(context, *data.bounded_ty, shape) {
            Err(stop) => Err(stop),
            Ok(ty) => match optional(params_text(context, data.bound_generic_params@, shape)) {
                Err(stop) => Err(stop),
                Ok(lifetimes) => context.text_for(
                    QueryView::AssignRhs {
                        lhs: (match lifetimes {
                            Some(lifetimes) => "for<"@ + lifetimes + "> "@,
                            None => ""@,
                        }) + ty + trimmed_end(colon(context.config)),
                        rhs: RhsKey::Bounds(data.id),
                        shape,
                    },
                ),
            },
        },
        WherePredicate::RegionPredicate(data) => bounded_lifetime_text(
            context,
            data.lifetime,
            data.bounds@,
            shape,
        ),
        WherePredicate::EqPredicate(data) => match ty_text(context, *data.lhs_ty, shape) {
            Err(stop) => Err(stop),
            Ok(lhs) => context.text_for(
                QueryView::AssignRhs {
                    lhs: lhs + " ="@,
                    rhs: RhsKey::Type(data.rhs_ty.id),
                    shape,
                },
            ),
        },
    }
}

/// Whether a type, or what it refers to, is a tuple that may go beyond the end of its line: in
/// block style, the only item of a list.
pub open spec fn overflows(context: &RewriteContext, ty: Ty, len: usize) -> bool
    decreases ty,
{
    match ty.kind {
        TyKind::Tup(_) => context.block_style() && len == 1,
        TyKind::Rptr(_, mt) => overflows(context, *mt.ty, len),
        TyKind::Ptr(mt) => overflows(context, *mt.ty, len),
        _ => false,
    }
}

} // verus!
