//! Lays out types.

use crate::ast::{
    AngleBracketedArg, AnonConst, AssocTyConstraint, AssocTyConstraintKind, BareFnTy, Extern,
    FnRetTy, GenericArg, GenericArgs, GenericBound, GenericParam, GenericParamKind, Ident, Lifetime,
    MutTy, Mutability, NodeId, Param, Path, PathSegment, PolyTraitRef, QSelf, TraitBoundModifier, TraitRef,
    TraitObjectSyntax, Ty, TyKind, Unsafe, WherePredicate,
};
use crate::config::{colon, colon_spaces, Config, IndentStyle, SeparatorTactic, TypeDensity};
use crate::lists::{
    definitive_tactic, items_view, DefinitiveListTactic, ListFormatting, ListItem,
};
use crate::model::{
    arg_list_text, arg_tactic, args_text, attributes_text, bare_fn_text, bound_text,
    bounded_lifetime_text, bounds_text, brackets_end, breakable, combined_text, const_text, constraint_kind_text,
    constraint_text, enclosed_text, equals_text, extern_text, fn_param_keys, fn_type_text,
    gap_before, gap_behind, gap_commented, generic_arg_text, has_several_args, in_order,
    joined_bounds_text, joiner_text, more_bounds_text, more_segments_text, mutability_text,
    optional, overflows, param_default_text, param_key, param_name_text, param_text, params_parts,
    params_text, paren_text, path_text, poly_trait_ref_text, qualified_path_text,
    reference_lifetime_text, reference_mut_text, reference_text, segment_text, segments_text,
    separator_text, trait_object_text, ty_keys, ty_text, unsafety_text, where_predicate_text,
    with_output, SelfText,
};
use crate::query::{
    layout, ArgKey, ExprType, Layout, MacroPosition, PairParts, ParamKey, Query, RewriteContext,
    RhsKey, SeparatorPlace, Stop, StopView, Token,
};
use crate::shape::Shape;
use crate::span::{mk_sp, BytePos, Span};
use crate::text::{
    byte_length, contains_newline, ends_with, first_line_width, is_extendable, join, joined,
    last_line_extendable, last_line_width, starts_with, trim, trim_end, trim_start,
};
use vstd::prelude::*;

verus! {

/// Where a path stands.
#[derive(Clone, Copy, Debug, PartialEq, Eq, Structural)]
pub enum PathContext {
    Expr,
    Type,
    Import,
}

/// What is there, or a failure if nothing is.
fn or_fail<T>(value: Option<T>) -> (r: Result<T, Stop>)
    ensures
        match value {
            Some(value) => r == Ok::<T, Stop>(value),
            None => r == Err::<T, Stop>(Stop::Failed),
        },
{
    match value {
        Some(value) => Ok(value),
        None => Err(Stop::Failed),
    }
}

/// A layout that may be missing.
fn if_any(r: Result<String, Stop>) -> (opt: Result<Option<String>, Stop>)
    ensures
        match opt {
            Ok(Some(text)) => optional(layout(r)) == Ok::<Option<Seq<char>>, StopView>(
                Some(text@),
            ),
            Ok(None) => optional(layout(r)) == Ok::<Option<Seq<char>>, StopView>(None),
            Err(stop) => optional(layout(r)) == Err::<Option<Seq<char>>, StopView>(stop@),
        },
{
    match r {
        Ok(text) => Ok(Some(text)),
        Err(Stop::Failed) => Ok(None),
        Err(stop) => Err(stop),
    }
}

/// Several texts, one after the other.
fn concat(a: &str, b: &str, c: &str) -> (text: String)
    ensures
        text@ == a@ + b@ + c@,
{
    let mut text = a.to_owned();
    text.append(b);
    text.append(c);
    text
}

/// The `mut` of a reference, with the space behind it.
pub fn format_mutability(mutability: Mutability) -> (text: &'static str)
    ensures
        text@ == mutability_text(mutability),
{
    match mutability {
        Mutability::Mut => "mut ",
        Mutability::Not => "",
    }
}

/// The `unsafe` before a function, with the space behind it.
pub fn format_unsafety(unsafety: Unsafe) -> (text: &'static str)
    ensures
        text@ == unsafety_text(unsafety),
{
    match unsafety {
        Unsafe::Yes => "unsafe ",
        Unsafe::No => "",
    }
}

/// The `extern "abi"` before a function, with the space behind it.
pub fn format_extern(ext: &Extern, explicit_abi: bool) -> (text: String)
    ensures
        text@ == extern_text(*ext, explicit_abi),
{
    let abi = match ext {
        Extern::Absent => "Rust".to_owned(),
        Extern::Implicit => "C".to_owned(),
        Extern::Explicit(abi) => abi.clone(),
    };
    if abi == "Rust".to_owned() {
        "".to_owned()
    } else if abi == "C".to_owned() && !explicit_abi {
        "extern ".to_owned()
    } else {
        concat("extern \"", &abi, "\" ")
    }
}

/// The equals sign before a default or in a constraint.
fn equals(config: &Config) -> (text: &'static str)
    ensures
        text@ == equals_text(*config),
{
    match config.type_punctuation_density {
        TypeDensity::Compressed => "=",
        TypeDensity::Wide => " = ",
    }
}

/// The colon before the bounds of a type.
pub fn type_bound_colon(context: &RewriteContext) -> (text: &'static str)
    ensures
        text@ == colon(context.config),
{
    colon_spaces(&context.config)
}

/// Whether the arguments of a function go on one line or on a line each. If the return type
/// takes up several lines, the arguments do too.
pub fn get_tactics(item_vec: &[ListItem], output: &str, shape: Shape) -> (tactic:
    DefinitiveListTactic)
    ensures
        tactic == arg_tactic(items_view(item_vec@), output@, shape),
{
    if contains_newline(output) {
        DefinitiveListTactic::Vertical
    } else {
        // 2 is for the case of ',\n'
        let budget: usize = match byte_length(output).checked_add(2) {
            Some(taken) => shape.width.saturating_sub(taken),
            None => 0,
        };
        definitive_tactic(item_vec, budget)
    }
}

/// Whether all traits come before all lifetimes.
pub fn is_generic_bounds_in_order(generic_bounds: &[GenericBound]) -> (b: bool)
    ensures
        b == in_order(generic_bounds@),
{
    let mut seen_lifetime = false;
    let mut i: usize = 0;
    while i < generic_bounds.len()
        invariant
            i <= generic_bounds.len(),
            seen_lifetime == (exists|k: int|
                0 <= k < i && (#[trigger] generic_bounds@[k]) is Outlives),
            forall|k: int, l: int|
                0 <= k < l < i ==> !((#[trigger] generic_bounds@[k]) is Outlives && (
                #[trigger] generic_bounds@[l]) is Trait),
        decreases generic_bounds.len() - i,
    {
        match &generic_bounds[i] {
            GenericBound::Outlives(_) => {
                assert(generic_bounds@[i as int] is Outlives);
                seen_lifetime = true;
            },
            GenericBound::Trait(_, _) => {
                assert(generic_bounds@[i as int] is Trait);
                if seen_lifetime {
                    return false;
                }
            },
        }
        i = i + 1;
    }
    true
}

/// Whether a type, or what it refers to, is a tuple that may go beyond the end of its line.
pub fn can_be_overflowed_type(context: &RewriteContext, ty: &Ty, len: usize) -> (b: bool)
    ensures
        b == overflows(context, *ty, len),
    decreases *ty,
{
    match &ty.kind {
        TyKind::Tup(_) => context.use_block_indent() && len == 1,
        TyKind::Rptr(_, mutty) => can_be_overflowed_type(context, &mutty.ty, len),
        TyKind::Ptr(mutty) => can_be_overflowed_type(context, &mutty.ty, len),
        _ => false,
    }
}


// ----- Paths -----

/// Lays out a path. Does not wrap on simple segments.
pub fn rewrite_path(
    context: &RewriteContext,
    path_context: PathContext,
    qself: Option<&QSelf>,
    path: &Path,
    shape: Shape,
) -> (r: Result<String, Stop>)
    requires
        context.valid(),
    ensures
        layout(r) == qualified_path_text(
            context,
            path_context,
            match qself {
                Some(qself) => Some(*qself),
                None => None,
            },
            *path,
            shape,
        ),
{
    match qself {
        None => rewrite_path_behind(context, path_context, None, path, shape),
        Some(qself) => {
            let fmt_ty = qself.ty.rewrite(context, shape)?;
            rewrite_path_behind(
                context,
                path_context,
                Some((fmt_ty, qself.position, qself.ty.span.hi)),
                path,
                shape,
            )
        },
    }
}

/// The text, the position and the end of the type that a path starts with.
pub open spec fn self_text(qself: Option<(String, usize, BytePos)>) -> Option<SelfText> {
    match qself {
        Some((text, position, hi)) => Some(SelfText { text: text@, position, hi }),
        None => None,
    }
}

/// Lays out a path behind the type that it may start with, of which the text is given.
fn rewrite_path_behind(
    context: &RewriteContext,
    path_context: PathContext,
    qself: Option<(String, usize, BytePos)>,
    path: &Path,
    shape: Shape,
) -> (r: Result<String, Stop>)
    requires
        context.valid(),
    ensures
        layout(r) == path_text(context, path_context, self_text(qself), *path, shape),
    decreases *path, 1int,
{
    let len: usize = path.segments.len();
    let root = if path.is_global() && path_context != PathContext::Import {
        "::"
    } else {
        ""
    };
    match qself {
        None => rewrite_path_segments(
            path_context,
            root.to_owned(),
            &path.segments,
            0,
            len,
            path.span.lo,
            path.span.hi,
            context,
            shape,
        ),
        Some((fmt_ty, position, ty_hi)) => {
            let skip_count: usize = if position <= len {
                position
            } else {
                len
            };
            let mut result = "<".to_owned();
            result.append(&fmt_ty);
            if position > 0 {
                result.append(" as ");
                result.append(root);
                // 3 = ">::".len()
                let shape = or_fail(shape.sub_width(3))?;
                result = rewrite_path_segments(
                    PathContext::Type,
                    result,
                    &path.segments,
                    0,
                    skip_count,
                    path.span.lo,
                    path.span.hi,
                    context,
                    shape,
                )?;
            }
            result.append(">::");
            let mut span_lo: BytePos = or_fail(ty_hi.checked_add(1))?;
            if let Some(end) = last_brackets_end(&path.segments, skip_count) {
                if end > span_lo {
                    span_lo = end;
                }
            }
            rewrite_path_segments(
                path_context,
                result,
                &path.segments,
                skip_count,
                len,
                span_lo,
                path.span.hi,
                context,
                shape,
            )
        },
    }
}

/// Where the last angle brackets among the first `n` segments end.
fn last_brackets_end(segments: &Vec<PathSegment>, n: usize) -> (end: Option<BytePos>)
    requires
        n <= segments@.len(),
    ensures
        end == brackets_end(segments@, n as int),
{
    let mut end: Option<BytePos> = None;
    let mut i: usize = 0;
    while i < n
        invariant
            i <= n <= segments@.len(),
            end == brackets_end(segments@, i as int),
        decreases n - i,
    {
        if let Some(args) = &segments[i].args {
            if let GenericArgs::AngleBracketed(data) = &**args {
                if data.args.len() > 0 {
                    end = Some(data.span.hi);
                }
            }
        }
        i = i + 1;
    }
    end
}

/// Appends the segments from `from` up to `to` to the buffer.
pub fn rewrite_path_segments(
    path_context: PathContext,
    buffer: String,
    segments: &Vec<PathSegment>,
    from: usize,
    to: usize,
    span_lo: BytePos,
    span_hi: BytePos,
    context: &RewriteContext,
    shape: Shape,
) -> (r: Result<String, Stop>)
    requires
        context.valid(),
        from <= to <= segments@.len(),
    ensures
        layout(r) == segments_text(
            context,
            path_context,
            buffer@,
            segments@,
            from as int,
            to as int,
            span_lo,
            span_hi,
            shape,
        ),
    decreases segments@, to - from + 1,
{
    let mut result = buffer;
    let mut lo: BytePos = span_lo;
    let mut first = true;
    let line = or_fail(shape.visual_indent(0))?;
    let mut i: usize = from;
    while i < to
        invariant
            context.valid(),
            from <= i <= to <= segments@.len(),
            segments_text(
                context,
                path_context,
                buffer@,
                segments@,
                from as int,
                to as int,
                span_lo,
                span_hi,
                shape,
            ) == more_segments_text(
                context,
                path_context,
                result@,
                segments@,
                i as int,
                to as int,
                first,
                lo,
                span_hi,
                line,
            ),
        decreases to - i,
    {
        let segment = &segments[i];
        i = i + 1;
        // Indicates a global path, shouldn't be rendered.
        if segment.is_root {
            continue;
        }
        if first {
            first = false;
        } else {
            result.append("::");
        }
        let new_shape = or_fail(line.shrink_left(line.extra_offset(&result)))?;
        let segment_string = rewrite_segment(
            path_context,
            segment,
            &mut lo,
            span_hi,
            context,
            new_shape,
        )?;
        result.append(&segment_string);
    }
    Ok(result)
}

/// Lays out a path segment.
///
/// `span_lo` stands behind the parameters of the segments before and not behind the start of
/// this one; `span_hi` is the end of the path. If the segment has parameters in angle
/// brackets, `span_lo` moves to the end of the brackets, so that the same holds of the next
/// segment.
pub fn rewrite_segment(
    path_context: PathContext,
    segment: &PathSegment,
    span_lo: &mut BytePos,
    span_hi: BytePos,
    context: &RewriteContext,
    shape: Shape,
) -> (r: Result<String, Stop>)
    requires
        context.valid(),
    ensures
        match r {
            Ok(text) => segment_text(
                context,
                path_context,
                *segment,
                *old(span_lo),
                span_hi,
                shape,
            ) == Ok::<(Seq<char>, BytePos), StopView>((text@, *final(span_lo))),
            Err(stop) => segment_text(
                context,
                path_context,
                *segment,
                *old(span_lo),
                span_hi,
                shape,
            ) == Err::<(Seq<char>, BytePos), StopView>(stop@) && *final(span_lo) == *old(span_lo),
        },
    decreases *segment, 0int,
{
    let result = segment.ident.text.clone();
    let ident_len: usize = byte_length(&result);
    let shape = if context.use_block_indent() {
        or_fail(shape.offset_left(ident_len))?
    } else {
        or_fail(shape.shrink_left(ident_len))?
    };
    match &segment.args {
        Some(args) => append_rewrite_args(
            path_context,
            &segment.ident,
            args,
            span_lo,
            span_hi,
            context,
            shape,
            result,
        ),
        None => Ok(result),
    }
}

/// The separator between an identifier and its arguments in angle brackets.
fn args_separator(
    context: &RewriteContext,
    path_context: PathContext,
    ident: &Ident,
    args: Span,
) -> (r: Result<String, Stop>)
    ensures
        layout(r) == separator_text(context, path_context, *ident, args),
{
    if path_context == PathContext::Expr {
        Ok("::".to_owned())
    } else if context.inside_macro {
        let separator_snippet = context.snippet(mk_sp(ident.span.hi, args.lo))?;
        if starts_with(trim(&separator_snippet), "::") {
            Ok("::".to_owned())
        } else {
            Ok("".to_owned())
        }
    } else {
        Ok("".to_owned())
    }
}

/// What the arguments within angle brackets are, and which nodes.
fn param_keys(args: &Vec<AngleBracketedArg>) -> (keys: Vec<ParamKey>)
    ensures
        keys@ == args@.map_values(|arg: AngleBracketedArg| param_key(arg)),
{
    let mut keys: Vec<ParamKey> = Vec::new();
    let mut i: usize = 0;
    while i < args.len()
        invariant
            i <= args.len(),
            keys@.len() == i,
            forall|j: int| 0 <= j < i ==> keys@[j] == param_key(#[trigger] args@[j]),
        decreases args.len() - i,
    {
        let param = match &args[i] {
            AngleBracketedArg::Arg(generic_arg) => SegmentParam::from_generic_arg(generic_arg),
            AngleBracketedArg::Constraint(constraint) => SegmentParam::Binding(constraint),
        };
        keys.push(param.key());
        i = i + 1;
    }
    assert(keys@ =~= args@.map_values(|arg: AngleBracketedArg| param_key(arg)));
    keys
}

/// Appends generic arguments to the result. Where they stand in angle brackets, `span_lo`
/// moves behind the closing bracket.
pub fn append_rewrite_args(
    path_context: PathContext,
    ident: &Ident,
    args: &GenericArgs,
    span_lo: &mut BytePos,
    span_hi: BytePos,
    context: &RewriteContext,
    shape: Shape,
    result: String,
) -> (r: Result<String, Stop>)
    requires
        context.valid(),
    ensures
        match r {
            Ok(text) => args_text(
                context,
                path_context,
                *ident,
                *args,
                *old(span_lo),
                span_hi,
                shape,
                result@,
            ) == Ok::<(Seq<char>, BytePos), StopView>((text@, *final(span_lo))),
            Err(stop) => args_text(
                context,
                path_context,
                *ident,
                *args,
                *old(span_lo),
                span_hi,
                shape,
                result@,
            ) == Err::<(Seq<char>, BytePos), StopView>(stop@) && *final(span_lo) == *old(span_lo),
        },
    decreases *args, 0int,
{
    let mut result = result;
    match args {
        GenericArgs::AngleBracketed(data) => {
            if data.args.len() == 0 {
                return Ok(result);
            }
            let separator = args_separator(context, path_context, ident, data.span)?;
            result.append(&separator);
            let span = mk_sp(*span_lo, span_hi);
            let generics_str = context.text(
                Query::AngleBrackets {
                    ident: "".to_owned(),
                    params: param_keys(&data.args),
                    shape,
                    span,
                },
            )?;
            // Update position of last bracket.
            *span_lo = data.span.hi;
            result.append(&generics_str);
        },
        GenericArgs::Parenthesized(data) => {
            let text = format_function_type(
                arg_keys(&data.inputs),
                &data.output,
                false,
                data.span,
                context,
                shape,
            )?;
            result.append(&text);
        },
    }
    Ok(result)
}

/// A parameter within angle brackets.
#[derive(Debug)]
pub enum SegmentParam<'a> {
    Const(&'a AnonConst),
    LifeTime(&'a Lifetime),
    Type(&'a Ty),
    Binding(&'a AssocTyConstraint),
}

impl<'a> SegmentParam<'a> {
    /// The argument as a parameter within angle brackets.
    pub open spec fn of(arg: &'a GenericArg) -> SegmentParam<'a> {
        match *arg {
            GenericArg::Lifetime(lt) => SegmentParam::LifeTime(&lt),
            GenericArg::Type(ty) => SegmentParam::Type(&*ty),
            GenericArg::Const(anon_const) => SegmentParam::Const(&anon_const),
        }
    }

    /// What the parameter is, and which node.
    pub open spec fn node(self) -> ParamKey {
        match self {
            SegmentParam::Const(anon_const) => ParamKey::Const(anon_const.id),
            SegmentParam::LifeTime(lt) => ParamKey::LifeTime(lt.id),
            SegmentParam::Type(ty) => ParamKey::Type(ty.id),
            SegmentParam::Binding(binding) => ParamKey::Binding(binding.id),
        }
    }

    /// Where the parameter stands in the source.
    pub open spec fn source(self) -> Span {
        match self {
            SegmentParam::Const(anon_const) => anon_const.span,
            SegmentParam::LifeTime(lt) => lt.ident.span,
            SegmentParam::Type(ty) => ty.span,
            SegmentParam::Binding(binding) => binding.span,
        }
    }

    /// The text of the parameter.
    pub open spec fn text(self, context: &RewriteContext, shape: Shape) -> Layout {
        match self {
            SegmentParam::Const(anon_const) => const_text(context, *anon_const, shape),
            SegmentParam::LifeTime(lt) => Ok(lt.ident.text@),
            SegmentParam::Type(ty) => ty_text(context, *ty, shape),
            SegmentParam::Binding(binding) => constraint_text(context, *binding, shape),
        }
    }

    /// The argument as a parameter within angle brackets.
    pub fn from_generic_arg(arg: &'a GenericArg) -> (param: SegmentParam<'a>)
        ensures
            param == SegmentParam::of(arg),
    {
        match arg {
            GenericArg::Lifetime(lt) => SegmentParam::LifeTime(lt),
            GenericArg::Type(ty) => SegmentParam::Type(ty),
            GenericArg::Const(anon_const) => SegmentParam::Const(anon_const),
        }
    }

    /// What the parameter is, and which node.
    pub fn key(&self) -> (key: ParamKey)
        ensures
            key == self.node(),
    {
        match self {
            SegmentParam::Const(anon_const) => ParamKey::Const(anon_const.id),
            SegmentParam::LifeTime(lt) => ParamKey::LifeTime(lt.id),
            SegmentParam::Type(ty) => ParamKey::Type(ty.id),
            SegmentParam::Binding(binding) => ParamKey::Binding(binding.id),
        }
    }

    /// Where the parameter stands in the source.
    pub fn span(&self) -> (span: Span)
        ensures
            span == self.source(),
    {
        match self {
            SegmentParam::Const(anon_const) => anon_const.span,
            SegmentParam::LifeTime(lt) => lt.ident.span,
            SegmentParam::Type(ty) => ty.span,
            SegmentParam::Binding(binding) => binding.span,
        }
    }

    /// Lays out the parameter.
    pub fn rewrite(&self, context: &RewriteContext, shape: Shape) -> (r: Result<String, Stop>)
        requires
            context.valid(),
        ensures
            layout(r) == self.text(context, shape),
    {
        match self {
            SegmentParam::Const(anon_const) => anon_const.rewrite(context, shape),
            SegmentParam::LifeTime(lt) => lt.rewrite(context, shape),
            SegmentParam::Type(ty) => ty.rewrite(context, shape),
            SegmentParam::Binding(assoc_ty_constraint) => {
                let ident = assoc_ty_constraint.ident.text.clone();
                let mut result = match &assoc_ty_constraint.gen_args {
                    Some(gen_args) => {
                        let mut span_lo: BytePos = assoc_ty_constraint.span.lo;
                        append_rewrite_args(
                            PathContext::Type,
                            &assoc_ty_constraint.ident,
                            gen_args,
                            &mut span_lo,
                            assoc_ty_constraint.span.hi,
                            context,
                            shape,
                            ident,
                        )?
                    },
                    None => ident,
                };
                match &assoc_ty_constraint.kind {
                    AssocTyConstraintKind::Bound { .. } => result.append(": "),
                    AssocTyConstraintKind::Equality { .. } => result.append(
                        equals(&context.config),
                    ),
                }
                let len: usize = byte_length(&result);
                let shape = or_fail(shape.within(len, len))?;
                let rewrite = assoc_ty_constraint.kind.rewrite(context, shape)?;
                result.append(&rewrite);
                Ok(result)
            },
        }
    }
}

impl AssocTyConstraintKind {
    /// Lays out what an associated type is constrained to.
    pub fn rewrite(&self, context: &RewriteContext, shape: Shape) -> (r: Result<String, Stop>)
        requires
            context.valid(),
        ensures
            layout(r) == constraint_kind_text(context, *self, shape),
    {
        match self {
            AssocTyConstraintKind::Equality { ty } => ty.rewrite(context, shape),
            AssocTyConstraintKind::Bound { bounds } => rewrite_bounds(bounds, context, shape),
        }
    }
}

impl GenericArg {
    /// Lays out a generic argument.
    pub fn rewrite(&self, context: &RewriteContext, shape: Shape) -> (r: Result<String, Stop>)
        requires
            context.valid(),
        ensures
            layout(r) == generic_arg_text(context, *self, shape),
    {
        match self {
            GenericArg::Lifetime(lt) => lt.rewrite(context, shape),
            GenericArg::Type(ty) => ty.rewrite(context, shape),
            GenericArg::Const(anon_const) => anon_const.rewrite(context, shape),
        }
    }
}

impl AnonConst {
    /// Lays out a constant, which is an expression.
    pub fn rewrite(&self, context: &RewriteContext, shape: Shape) -> (r: Result<String, Stop>)
        ensures
            layout(r) == const_text(context, *self, shape),
    {
        context.text(Query::Expr { expr: self.id, expr_type: ExprType::SubExpression, shape })
    }
}

impl Lifetime {
    /// Lays out a lifetime, which is always written as in the source.
    pub fn rewrite(&self, context: &RewriteContext, shape: Shape) -> (r: Result<String, Stop>)
        ensures
            layout(r) == Ok::<Seq<char>, StopView>(self.ident.text@),
    {
        Ok(self.ident.text.clone())
    }
}

// ----- Function types -----

/// Which nodes a list of types holds, and where they stand in the source.
fn arg_keys(tys: &Vec<Ty>) -> (keys: Vec<ArgKey>)
    ensures
        keys@ == ty_keys(tys@),
{
    let mut keys: Vec<ArgKey> = Vec::new();
    let mut i: usize = 0;
    while i < tys.len()
        invariant
            i <= tys.len(),
            keys@.len() == i,
            forall|j: int|
                0 <= j < i ==> keys@[j] == (ArgKey {
                    id: (#[trigger] tys@[j]).id,
                    span: tys@[j].span,
                }),
        decreases tys.len() - i,
    {
        keys.push(ArgKey { id: tys[i].id, span: tys[i].span });
        i = i + 1;
    }
    assert(keys@ =~= ty_keys(tys@));
    keys
}

/// Which nodes a list of parameters holds, and where they stand in the source.
fn fn_arg_keys(params: &Vec<Param>) -> (keys: Vec<ArgKey>)
    ensures
        keys@ == fn_param_keys(params@),
{
    let mut keys: Vec<ArgKey> = Vec::new();
    let mut i: usize = 0;
    while i < params.len()
        invariant
            i <= params.len(),
            keys@.len() == i,
            forall|j: int|
                0 <= j < i ==> keys@[j] == (ArgKey {
                    id: (#[trigger] params@[j]).id,
                    span: params@[j].span,
                }),
        decreases params.len() - i,
    {
        keys.push(ArgKey { id: params[i].id, span: params[i].span });
        i = i + 1;
    }
    assert(keys@ =~= fn_param_keys(params@));
    keys
}

/// Lays out arguments and a return type.
pub fn format_function_type(
    inputs: Vec<ArgKey>,
    output: &FnRetTy,
    variadic: bool,
    span: Span,
    context: &RewriteContext,
    shape: Shape,
) -> (r: Result<String, Stop>)
    requires
        context.valid(),
    ensures
        layout(r) == fn_type_text(context, inputs@, *output, variadic, span, shape),
    decreases *output, 0int,
{
    let ty_shape = match context.config.indent_style {
        // 4 = " -> "
        IndentStyle::Block => or_fail(shape.offset_left(4))?,
        IndentStyle::Visual => or_fail(shape.block_left(4))?,
    };
    let mut output_str = String::new();
    match output {
        FnRetTy::Ty(ty) => {
            let type_str = ty.rewrite(context, ty_shape)?;
            output_str.append(" -> ");
            output_str.append(&type_str);
            assert(output_str@ =~= " -> "@ + type_str@);
        },
        FnRetTy::Default(_) => {
            proof {
                reveal_strlit("");
                assert(output_str@ =~= ""@);
            }
        },
    }
    let list_shape = if context.use_block_indent() {
        Shape::indented(
            or_fail(shape.block().indent.block_indent(&context.config))?,
            &context.config,
        )
    } else {
        // 2 for (), 1 for (
        or_fail(shape.within(2, 1))?
    };
    let args = format_args(inputs, &output_str, variadic, span, context, shape, list_shape)?;
    Ok(append_output(args, &output_str, context, shape, list_shape))
}

/// Lays out the arguments of a function and the parentheses around them.
fn format_args(
    inputs: Vec<ArgKey>,
    output: &str,
    variadic: bool,
    span: Span,
    context: &RewriteContext,
    shape: Shape,
    list_shape: Shape,
) -> (r: Result<String, Stop>)
    requires
        context.valid(),
    ensures
        layout(r) == arg_list_text(
            context,
            inputs@,
            output@,
            variadic,
            span,
            shape,
            list_shape,
        ),
{
    let list_lo: BytePos = context.span_after(span, Token::OpenParen)?;
    if inputs.len() == 0 {
        let list_hi: BytePos = context.span_before(span, Token::CloseParen)?;
        let snippet = context.text(Query::SpanToSnippet { span: mk_sp(list_lo, list_hi) })?;
        let comment = trim(&snippet);
        if starts_with(comment, "//") {
            let inner = concat(
                &list_shape.indent.to_string_with_newline(&context.config),
                comment,
                &shape.block().indent.to_string_with_newline(&context.config),
            );
            Ok(concat("(", &inner, ")"))
        } else {
            Ok(concat("(", comment, ")"))
        }
    } else {
        let items = context.items(
            Query::ItemizeList {
                args: inputs,
                terminator: ")".to_owned(),
                separator: ",".to_owned(),
                shape: list_shape,
                lo: list_lo,
                hi: span.hi,
                leave_last: false,
            },
        )?;
        let tactic = get_tactics(items.as_slice(), output, shape);
        let trailing_separator = if !context.use_block_indent() || variadic {
            SeparatorTactic::Never
        } else {
            context.config.trailing_comma
        };
        let formatting = ListFormatting {
            shape: list_shape,
            tactic,
            trailing_separator,
            ends_with_newline: tactic.ends_with_newline(context.config.indent_style),
            preserve_newline: true,
        };
        let list_str = context.text(Query::WriteList { items, formatting })?;
        if tactic == DefinitiveListTactic::Horizontal || !context.use_block_indent() {
            Ok(concat("(", &list_str, ")"))
        } else {
            let mut args = concat(
                "(",
                &list_shape.indent.to_string_with_newline(&context.config),
                &list_str,
            );
            args.append(&shape.block().indent.to_string_with_newline(&context.config));
            args.append(")");
            Ok(args)
        }
    }
}

/// Appends a return type to the arguments of a function.
fn append_output(
    args: String,
    output: &str,
    context: &RewriteContext,
    shape: Shape,
    list_shape: Shape,
) -> (text: String)
    requires
        context.valid(),
    ensures
        text@ == with_output(context, args@, output@, shape, list_shape),
{
    let fits = output.is_empty() || match last_line_width(&args).checked_add(
        first_line_width(output),
    ) {
        Some(width) => width <= shape.width,
        None => false,
    };
    let mut text = args;
    if fits {
        text.append(output);
    } else {
        text.append("\n");
        text.append(&list_shape.indent.to_string(&context.config));
        text.append(trim_start(output));
    }
    text
}

/// Lays out a function pointer type.
pub fn rewrite_bare_fn(
    bare_fn: &BareFnTy,
    span: Span,
    context: &RewriteContext,
    shape: Shape,
) -> (r: Result<String, Stop>)
    requires
        context.valid(),
    ensures
        layout(r) == bare_fn_text(context, *bare_fn, span, shape),
    decreases *bare_fn, 0int,
{
    let lifetimes = if_any(rewrite_generic_params(
        context,
        shape,
        bare_fn.generic_params.as_slice(),
    ))?;
    let mut result = match lifetimes {
        Some(lifetime_str) => concat("for<", &lifetime_str, "> "),
        None => "".to_owned(),
    };
    result.append(format_unsafety(bare_fn.unsafety));
    result.append(&format_extern(&bare_fn.ext, context.config.force_explicit_abi));
    result.append("fn");
    let len: usize = byte_length(&result);
    let func_ty_shape = if context.use_block_indent() {
        or_fail(shape.offset_left(len))?
    } else {
        or_fail(or_fail(shape.visual_indent(len))?.sub_width(len))?
    };
    let rewrite = format_function_type(
        fn_arg_keys(&bare_fn.decl.inputs),
        &bare_fn.decl.output,
        bare_fn.decl.c_variadic(),
        span,
        context,
        func_ty_shape,
    )?;
    result.append(&rewrite);
    Ok(result)
}

// ----- Generic parameters -----

/// Returns the parameters separated by commas. Fails if there are no parameters or if one
/// cannot be laid out.
pub fn rewrite_generic_params(
    context: &RewriteContext,
    shape: Shape,
    generic_params: &[GenericParam],
) -> (r: Result<String, Stop>)
    requires
        context.valid(),
    ensures
        layout(r) == params_text(context, generic_params@, shape),
    decreases generic_params@, generic_params@.len() + 1,
{
    if generic_params.len() == 0 {
        return Err(Stop::Failed);
    }
    let mut parts: Vec<String> = Vec::new();
    let mut i: usize = 0;
    while i < generic_params.len()
        invariant
            context.valid(),
            i <= generic_params.len(),
            params_text(context, generic_params@, shape) == (match params_parts(
                context,
                generic_params@,
                i as int,
                shape,
            ) {
                Ok(rest) => Ok::<Seq<char>, StopView>(
                    joined(parts@.map_values(|p: String| p@) + rest, ", "@),
                ),
                Err(stop) => Err(stop),
            }),
        decreases generic_params.len() - i,
    {
        let part = generic_params[i].rewrite(context, shape)?;
        let ghost before = parts@;
        parts.push(part);
        proof {
            if let Ok(rest) = params_parts(context, generic_params@, i + 1, shape) {
                assert(before.map_values(|p: String| p@) + (seq![part@] + rest)
                    =~= parts@.map_values(|p: String| p@) + rest);
            }
        }
        i = i + 1;
    }
    assert(parts@.map_values(|p: String| p@) + Seq::<Seq<char>>::empty() =~= parts@.map_values(
        |p: String| p@,
    ));
    Ok(join(&parts, ", "))
}

impl GenericParam {
    /// Lays out the attributes before a parameter, with a space behind them.
    fn rewrite_attributes(&self, context: &RewriteContext, shape: Shape) -> (r: Result<
        String,
        Stop,
    >)
        ensures
            layout(r) == attributes_text(context, *self, shape),
    {
        match if_any(context.text(Query::Attributes { param: self.id, shape }))? {
            Some(rw) => if rw.as_str().is_empty() {
                Ok("".to_owned())
            } else {
                let mut rw = rw;
                rw.append(" ");
                Ok(rw)
            },
            None => Ok("".to_owned()),
        }
    }

    /// Lays out a generic parameter.
    pub fn rewrite(&self, context: &RewriteContext, shape: Shape) -> (r: Result<String, Stop>)
        requires
            context.valid(),
        ensures
            layout(r) == param_text(context, *self, shape),
        decreases *self, 2int,
    {
        let attributes = self.rewrite_attributes(context, shape)?;
        let mut result = self.append_name(attributes, context, shape)?;
        if self.bounds.len() > 0 {
            result.append(type_bound_colon(context));
            let bounds = rewrite_bounds(&self.bounds, context, shape)?;
            result.append(&bounds);
        }
        self.append_default(result, context, shape)
    }

    /// Appends the name of a parameter, and the type and the value of one that is a constant.
    fn append_name(&self, result: String, context: &RewriteContext, shape: Shape) -> (r: Result<
        String,
        Stop,
    >)
        requires
            context.valid(),
        ensures
            layout(r) == param_name_text(context, *self, result@, shape),
        decreases *self, 1int,
    {
        let mut result = result;
        match &self.kind {
            GenericParamKind::Const { ty, default } => {
                result.append("const ");
                result.append(&self.ident.text);
                result.append(": ");
                let ty_str = ty.rewrite(context, shape)?;
                result.append(&ty_str);
                if let Some(default) = default {
                    result.append(equals(&context.config));
                    let shape = or_fail(shape.within(byte_length(&result), 0))?;
                    let rewrite = default.rewrite(context, shape)?;
                    result.append(&rewrite);
                }
            },
            _ => result.append(&self.ident.text),
        }
        Ok(result)
    }

    /// Appends the default of a type parameter.
    fn append_default(&self, result: String, context: &RewriteContext, shape: Shape) -> (r: Result<
        String,
        Stop,
    >)
        requires
            context.valid(),
        ensures
            layout(r) == param_default_text(context, *self, result@, shape),
        decreases *self, 1int,
    {
        let mut result = result;
        match &self.kind {
            GenericParamKind::Type { default: Some(def) } => {
                result.append(equals(&context.config));
                let len: usize = byte_length(&result);
                let shape = or_fail(shape.within(len, len))?;
                let rewrite = def.rewrite(context, shape)?;
                result.append(&rewrite);
            },
            _ => {},
        }
        Ok(result)
    }
}

// ----- Bounds -----

impl PolyTraitRef {
    /// Lays out a trait and the lifetimes that it introduces.
    pub fn rewrite(&self, context: &RewriteContext, shape: Shape) -> (r: Result<String, Stop>)
        requires
            context.valid(),
        ensures
            layout(r) == poly_trait_ref_text(context, *self, shape),
        decreases *self, 0int,
    {
        match if_any(rewrite_generic_params(
            context,
            shape,
            self.bound_generic_params.as_slice(),
        ))? {
            Some(lifetime_str) => {
                // 6 is "for<> ".len()
                let extra_offset: usize = or_fail(byte_length(&lifetime_str).checked_add(6))?;
                let shape = or_fail(shape.offset_left(extra_offset))?;
                let path_str = self.trait_ref.rewrite(context, shape)?;
                let mut result = concat("for<", &lifetime_str, "> ");
                result.append(&path_str);
                Ok(result)
            },
            None => self.trait_ref.rewrite(context, shape),
        }
    }
}

impl TraitRef {
    /// Lays out the path of a trait.
    pub fn rewrite(&self, context: &RewriteContext, shape: Shape) -> (r: Result<String, Stop>)
        requires
            context.valid(),
        ensures
            layout(r) == path_text(context, PathContext::Type, None, self.path, shape),
        decreases *self, 0int,
    {
        rewrite_path_behind(context, PathContext::Type, None, &self.path, shape)
    }
}

impl GenericBound {
    /// Lays out a bound.
    pub fn rewrite(&self, context: &RewriteContext, shape: Shape) -> (r: Result<String, Stop>)
        requires
            context.valid(),
        ensures
            layout(r) == bound_text(context, *self, shape),
        decreases *self, 0int,
    {
        match self {
            GenericBound::Trait(poly_trait_ref, modifier) => {
                let snippet = context.snippet(self.span())?;
                let has_paren = starts_with(&snippet, "(") && ends_with(&snippet, ")");
                let (prefix, shape) = match *modifier {
                    TraitBoundModifier::Plain => ("", shape),
                    TraitBoundModifier::Maybe => ("?", or_fail(shape.offset_left(1))?),
                    TraitBoundModifier::MaybeConst => ("?const ", or_fail(shape.offset_left(7))?),
                    TraitBoundModifier::MaybeConstMaybe => (
                        "?const ?",
                        or_fail(shape.offset_left(8))?,
                    ),
                };
                let rewrite = poly_trait_ref.rewrite(context, shape)?;
                let mut text = prefix.to_owned();
                text.append(&rewrite);
                if has_paren {
                    Ok(concat("(", &text, ")"))
                } else {
                    Ok(text)
                }
            },
            GenericBound::Outlives(lifetime) => lifetime.rewrite(context, shape),
        }
    }
}

/// Lays out the bounds of a type.
pub fn rewrite_bounds(bounds: &Vec<GenericBound>, context: &RewriteContext, shape: Shape) -> (r:
    Result<String, Stop>)
    requires
        context.valid(),
    ensures
        layout(r) == bounds_text(context, bounds@, shape),
    decreases bounds@, bounds@.len() + 4,
{
    if bounds.len() == 0 {
        return Ok("".to_owned());
    }
    join_bounds(context, shape, bounds.as_slice(), true)
}

/// Lays out several bounds with `+` between them.
pub fn join_bounds(
    context: &RewriteContext,
    shape: Shape,
    items: &[GenericBound],
    need_indent: bool,
) -> (r: Result<String, Stop>)
    requires
        context.valid(),
        items@.len() > 0,
    ensures
        layout(r) == joined_bounds_text(context, items@, shape, need_indent, false),
    decreases items@, items@.len() + 3,
{
    join_bounds_inner(context, shape, items, need_indent, false)
}

/// Whether the next bound can join the line on which a bound ends.
fn is_bound_extendable(s: &str, b: &GenericBound) -> (extendable: bool)
    ensures
        extendable == (b is Outlives || is_extendable(s@)),
{
    match b {
        GenericBound::Outlives(_) => true,
        GenericBound::Trait(_, _) => last_line_extendable(s),
    }
}

/// Whether a segment has more than one argument in angle brackets.
fn is_segment_with_multi_items_array(seg: &PathSegment) -> (b: bool)
    ensures
        b == has_several_args(*seg),
{
    match &seg.args {
        Some(args_in) => match &**args_in {
            GenericArgs::AngleBracketed(args) => args.args.len() > 1,
            GenericArgs::Parenthesized(_) => false,
        },
        None => false,
    }
}

/// Whether bounds that do not fit on one line are worth breaking.
fn can_break(items: &[GenericBound]) -> (b: bool)
    ensures
        b == breakable(items@),
{
    if items.len() > 1 {
        true
    } else if items.len() == 0 {
        false
    } else {
        match &items[0] {
            GenericBound::Trait(poly_trait_ref, _) => {
                let segments = &poly_trait_ref.trait_ref.path.segments;
                segments.len() > 1 || (segments.len() == 1 && is_segment_with_multi_items_array(
                    &segments[0],
                ))
            },
            GenericBound::Outlives(_) => false,
        }
    }
}

/// The part of the source between a bound and the `+` behind it.
fn span_behind(context: &RewriteContext, items: &[GenericBound], i: usize) -> (r: Result<
    Option<Span>,
    Stop,
>)
    requires
        i < items@.len(),
    ensures
        match r {
            Ok(gap) => gap_behind(context, items@, i as int) == Ok::<Option<Span>, StopView>(gap),
            Err(stop) => gap_behind(context, items@, i as int) == Err::<Option<Span>, StopView>(
                stop@,
            ),
        },
{
    if i < items.len() - 1 {
        let hi: BytePos = context.span_before(
            mk_sp(items[i + 1].span().lo(), items[i].span().hi()),
            Token::Plus,
        )?;
        Ok(Some(mk_sp(items[i].span().hi(), hi)))
    } else {
        Ok(None)
    }
}

/// The part of the source between a bound and the `+` before it.
fn span_ahead(context: &RewriteContext, items: &[GenericBound], i: usize) -> (r: Result<
    Option<Span>,
    Stop,
>)
    requires
        i < items@.len(),
    ensures
        match r {
            Ok(gap) => gap_before(context, items@, i as int) == Ok::<Option<Span>, StopView>(gap),
            Err(stop) => gap_before(context, items@, i as int) == Err::<Option<Span>, StopView>(
                stop@,
            ),
        },
{
    if i > 0 {
        let lo: BytePos = context.span_after(
            mk_sp(items[i - 1].span().hi(), items[i].span().lo()),
            Token::Plus,
        )?;
        Ok(Some(mk_sp(lo, items[i].span().lo())))
    } else {
        Ok(None)
    }
}

/// Whether there is a comment in a gap between bounds.
fn has_comment(context: &RewriteContext, gap: Option<Span>) -> (r: Result<bool, Stop>)
    ensures
        match r {
            Ok(b) => gap_commented(context, gap) == Ok::<bool, StopView>(b),
            Err(stop) => gap_commented(context, gap) == Err::<bool, StopView>(stop@),
        },
{
    match gap {
        Some(span) => context.contains_comment(span),
        None => Ok(false),
    }
}

/// The `+` between two bounds and the white space around it.
fn joiner(
    config: &Config,
    shape: Shape,
    on_new_line: bool,
    comment_before: bool,
    comment_behind: bool,
) -> (text: String)
    requires
        config.valid(),
    ensures
        text@ == joiner_text(*config, shape, on_new_line, comment_before, comment_behind),
{
    let joiner = match config.type_punctuation_density {
        TypeDensity::Compressed => "+".to_owned(),
        TypeDensity::Wide => {
            let mut whitespace = if on_new_line {
                shape.indent.to_string_with_newline(config)
            } else {
                " ".to_owned()
            };
            whitespace.append("+ ");
            whitespace
        },
    };
    let joiner = if comment_behind {
        trim_end(&joiner)
    } else {
        &joiner
    };
    if comment_before {
        trim_start(joiner).to_owned()
    } else {
        joiner.to_owned()
    }
}

/// Puts two texts together, with the comments of the source between them.
fn combine(
    context: &RewriteContext,
    prev: &str,
    next: &str,
    gap: Option<Span>,
    has_comment: bool,
    shape: Shape,
) -> (r: Result<String, Stop>)
    ensures
        layout(r) == combined_text(context, prev@, next@, gap, has_comment, shape),
{
    match gap {
        Some(span) if has_comment => context.text(
            Query::CombineWithComments {
                prev: prev.to_owned(),
                next: next.to_owned(),
                span,
                shape,
                allow_extend: true,
            },
        ),
        _ => {
            let mut text = prev.to_owned();
            text.append(next);
            Ok(text)
        },
    }
}

/// Lays out several bounds with `+` between them. If `force_newline` is set, each bound that
/// cannot join the line before it starts a line of its own. If it is not, that is tried when
/// the bounds do not fit on one line.
pub fn join_bounds_inner(
    context: &RewriteContext,
    shape: Shape,
    items: &[GenericBound],
    need_indent: bool,
    force_newline: bool,
) -> (r: Result<String, Stop>)
    requires
        context.valid(),
        items@.len() > 0,
    ensures
        layout(r) == joined_bounds_text(context, items@, shape, need_indent, force_newline),
    decreases
            items@,
            items@.len() + if force_newline {
                1int
            } else {
                2int
            },
{
    let generic_bounds_in_order = is_generic_bounds_in_order(items);
    let mut strs = "".to_owned();
    let mut prev_trailing_span: Option<Span> = None;
    let mut prev_extendable = false;
    let mut i: usize = 0;
    let ghost whole = more_bounds_text(
        context,
        items@,
        shape,
        need_indent,
        force_newline,
        0,
        ""@,
        None,
        false,
    );
    while i < items.len()
        invariant
            context.valid(),
            i <= items.len(),
            generic_bounds_in_order == in_order(items@),
            whole == more_bounds_text(
                context,
                items@,
                shape,
                need_indent,
                force_newline,
                i as int,
                strs@,
                prev_trailing_span,
                prev_extendable,
            ),
            whole is Err ==> joined_bounds_text(context, items@, shape, need_indent, force_newline)
                == whole,
        decreases items.len() - i,
    {
        let item = &items[i];
        let trailing_span = span_behind(context, items, i)?;
        let leading_span = span_ahead(context, items, i)?;
        let has_leading_comment = has_comment(context, leading_span)?;
        let prev_has_trailing_comment = has_comment(context, prev_trailing_span)?;
        let shape = if need_indent && force_newline {
            or_fail(shape.block_indent(context.config.tab_spaces))?.with_max_width(&context.config)
        } else {
            shape
        };
        let bound_str = item.rewrite(context, shape)?;
        let joiner = joiner(
            &context.config,
            shape,
            force_newline && (!prev_extendable || !generic_bounds_in_order),
            prev_has_trailing_comment,
            has_leading_comment,
        );
        let extendable = is_bound_extendable(&bound_str, item);
        let trailing_str = if i == 0 {
            bound_str
        } else {
            combine(context, &joiner, &bound_str, leading_span, has_leading_comment, shape)?
        };
        strs =
        combine(
            context,
            &strs,
            &trailing_str,
            prev_trailing_span,
            prev_has_trailing_comment,
            shape,
        )?;
        prev_trailing_span = trailing_span;
        prev_extendable = extendable;
        i = i + 1;
    }
    // Breaking the bounds is tried only once, and only if they do not fit on one line.
    if !force_newline && (contains_newline(&strs) || byte_length(&strs) > shape.width) && can_break(
        items,
    ) {
        join_bounds_inner(context, shape, items, need_indent, true)
    } else {
        Ok(strs)
    }
}


// ----- Types -----

/// Appends a lifetime to the `&` of a reference, and moves `cmnt_lo` behind it.
fn append_lifetime(
    result: String,
    lifetime: &Option<Lifetime>,
    mutability: Mutability,
    cmnt_lo: BytePos,
    context: &RewriteContext,
    shape: Shape,
) -> (r: Result<(String, BytePos), Stop>)
    ensures
        match r {
            Ok((text, pos)) => reference_lifetime_text(
                context,
                *lifetime,
                mutability,
                result@,
                cmnt_lo,
                shape,
            ) == Ok::<(Seq<char>, BytePos), StopView>((text@, pos)),
            Err(stop) => reference_lifetime_text(
                context,
                *lifetime,
                mutability,
                result@,
                cmnt_lo,
                shape,
            ) == Err::<(Seq<char>, BytePos), StopView>(stop@),
        },
{
    match lifetime {
        None => Ok((result, cmnt_lo)),
        Some(lifetime) => {
            let mut_len: usize = byte_length(format_mutability(mutability));
            let taken: usize = or_fail(mut_len.checked_add(2))?;
            if taken > shape.width {
                return Err(Stop::Failed);
            }
            let lt_str = lifetime.rewrite(context, shape)?;
            let before_lt_span = mk_sp(cmnt_lo, lifetime.ident.span.lo);
            let has_comment = context.contains_comment(before_lt_span)?;
            let mut result = combine(
                context,
                &result,
                &lt_str,
                Some(before_lt_span),
                has_comment,
                shape,
            )?;
            result.append(" ");
            Ok((result, lifetime.ident.span.hi))
        },
    }
}

/// Appends the `mut` of a reference, and moves `cmnt_lo` behind it.
fn append_mut(
    result: String,
    mutability: Mutability,
    cmnt_lo: BytePos,
    span: Span,
    context: &RewriteContext,
    shape: Shape,
) -> (r: Result<(String, BytePos), Stop>)
    ensures
        match r {
            Ok((text, pos)) => reference_mut_text(
                context,
                mutability,
                result@,
                cmnt_lo,
                span,
                shape,
            ) == Ok::<(Seq<char>, BytePos), StopView>((text@, pos)),
            Err(stop) => reference_mut_text(context, mutability, result@, cmnt_lo, span, shape)
                == Err::<(Seq<char>, BytePos), StopView>(stop@),
        },
{
    match mutability {
        Mutability::Not => Ok((result, cmnt_lo)),
        Mutability::Mut => {
            let mut_hi: BytePos = context.span_after(span, Token::Mut)?;
            let mut_lo: BytePos = or_fail(mut_hi.checked_sub(3))?;
            let before_mut_span = mk_sp(cmnt_lo, mut_lo);
            let has_comment = context.contains_comment(before_mut_span)?;
            let start = if has_comment {
                trim_end(&result)
            } else {
                &result
            };
            let text = combine(
                context,
                start,
                format_mutability(mutability),
                Some(before_mut_span),
                has_comment,
                shape,
            )?;
            Ok((text, mut_hi))
        },
    }
}

/// Which nodes a list of types holds.
fn type_ids(tys: &Vec<Ty>) -> (ids: Vec<NodeId>)
    ensures
        ids@ == tys@.map_values(|ty: Ty| ty.id),
{
    let mut ids: Vec<NodeId> = Vec::new();
    let mut i: usize = 0;
    while i < tys.len()
        invariant
            i <= tys.len(),
            ids@.len() == i,
            forall|j: int| 0 <= j < i ==> ids@[j] == (#[trigger] tys@[j]).id,
        decreases tys.len() - i,
    {
        ids.push(tys[i].id);
        i = i + 1;
    }
    assert(ids@ =~= tys@.map_values(|ty: Ty| ty.id));
    ids
}

/// Lays out a reference.
fn rewrite_reference(
    lifetime: &Option<Lifetime>,
    mt: &MutTy,
    span: Span,
    context: &RewriteContext,
    shape: Shape,
) -> (r: Result<String, Stop>)
    requires
        context.valid(),
    ensures
        layout(r) == reference_text(context, *lifetime, *mt, span, shape),
    decreases *mt, 0int,
{
    let ref_hi: BytePos = context.span_after(span, Token::Ampersand)?;
    let (result, cmnt_lo) = append_lifetime(
        "&".to_owned(),
        lifetime,
        mt.mutbl,
        ref_hi,
        context,
        shape,
    )?;
    let (result, cmnt_lo) = append_mut(result, mt.mutbl, cmnt_lo, span, context, shape)?;
    let before_ty_span = mk_sp(cmnt_lo, mt.ty.span.lo);
    if context.contains_comment(before_ty_span)? {
        let ty_str = mt.ty.rewrite(context, shape)?;
        combine(context, trim_end(&result), &ty_str, Some(before_ty_span), true, shape)
    } else {
        let used_width: usize = last_line_width(&result);
        let shape = or_fail(shape.within(used_width, used_width))?;
        let ty_str = mt.ty.rewrite(context, shape)?;
        let mut result = result;
        result.append(&ty_str);
        Ok(result)
    }
}

/// Lays out a trait object.
fn rewrite_trait_object(
    bounds: &Vec<GenericBound>,
    syntax: TraitObjectSyntax,
    span: Span,
    context: &RewriteContext,
    shape: Shape,
) -> (r: Result<String, Stop>)
    requires
        context.valid(),
    ensures
        layout(r) == trait_object_text(context, bounds@, syntax, span, shape),
    decreases bounds@, bounds@.len() + 5,
{
    // we have to consider 'dyn' keyword is used or not!!!
    let is_dyn = syntax == TraitObjectSyntax::Dyn;
    // 4 is length of 'dyn '
    let shape = if is_dyn {
        or_fail(shape.offset_left(4))?
    } else {
        shape
    };
    let mut res = rewrite_bounds(bounds, context, shape)?;
    // We may have falsely removed a trailing `+` inside macro call.
    let plus = if context.inside_macro && bounds.len() == 1 {
        let snippet = context.snippet(span)?;
        if ends_with(&snippet, "+") && !ends_with(&res, "+") {
            "+"
        } else {
            ""
        }
    } else {
        ""
    };
    res.append(plus);
    let mut text = (if is_dyn {
        "dyn "
    } else {
        ""
    }).to_owned();
    text.append(&res);
    Ok(text)
}

impl Ty {
    /// Lays out the type within a shape, with texts before and behind it.
    fn rewrite_enclosed(
        &self,
        open: &str,
        close: &str,
        context: &RewriteContext,
        shape: Option<Shape>,
    ) -> (r: Result<String, Stop>)
        requires
            context.valid(),
        ensures
            layout(r) == enclosed_text(context, open@, *self, close@, shape),
        decreases *self, 1int,
    {
        let shape = or_fail(shape)?;
        let ty_str = self.rewrite(context, shape)?;
        Ok(concat(open, &ty_str, close))
    }

    /// Lays out the type in parentheses.
    fn rewrite_paren(&self, context: &RewriteContext, shape: Shape) -> (r: Result<String, Stop>)
        requires
            context.valid(),
        ensures
            layout(r) == paren_text(context, *self, shape),
        decreases *self, 2int,
    {
        if context.config.indent_style == IndentStyle::Visual {
            return self.rewrite_enclosed("(", ")", context, shape.within(2, 1));
        }
        // 2 = ()
        let flat = if_any(self.rewrite_enclosed("(", ")", context, shape.sub_width(2)))?;
        if let Some(s) = flat {
            if !contains_newline(&s) {
                return Ok(s);
            }
        }
        let mut close = shape.indent.to_string_with_newline(&context.config);
        close.append(")");
        let inner = or_fail(shape.block_indent(context.config.tab_spaces))?.with_max_width(
            &context.config,
        );
        let mut open = "(".to_owned();
        open.append(&inner.to_string_with_newline(&context.config));
        self.rewrite_enclosed(&open, &close, context, Some(inner))
    }

    /// Lays out the type.
    pub fn rewrite(&self, context: &RewriteContext, shape: Shape) -> (r: Result<String, Stop>)
        requires
            context.valid(),
        ensures
            layout(r) == ty_text(context, *self, shape),
        decreases *self, 0int,
    {
        match &self.kind {
            TyKind::TraitObject(bounds, tobj_syntax) => rewrite_trait_object(
                bounds,
                *tobj_syntax,
                self.span,
                context,
                shape,
            ),
            TyKind::Ptr(mt) => {
                let prefix = match mt.mutbl {
                    Mutability::Mut => "*mut ",
                    Mutability::Not => "*const ",
                };
                mt.ty.rewrite_enclosed(prefix, "", context, shape.offset_left(byte_length(prefix)))
            },
            TyKind::Rptr(lifetime, mt) => rewrite_reference(
                lifetime,
                mt,
                self.span,
                context,
                shape,
            ),
            TyKind::Paren(ty) => ty.rewrite_paren(context, shape),
            TyKind::Slice(ty) => ty.rewrite_enclosed("[", "]", context, shape.within(4, 1)),
            TyKind::Tup(items) => context.text(
                Query::Tuple {
                    types: type_ids(items),
                    span: self.span,
                    shape,
                    is_singleton: items.len() == 1,
                },
            ),
            TyKind::Path(q_self, path) => match q_self {
                None => rewrite_path_behind(context, PathContext::Type, None, path, shape),
                Some(q_self) => {
                    let fmt_ty = q_self.ty.rewrite(context, shape)?;
                    rewrite_path_behind(
                        context,
                        PathContext::Type,
                        Some((fmt_ty, q_self.position, q_self.ty.span.hi)),
                        path,
                        shape,
                    )
                },
            },
            TyKind::Array(ty, repeats) => context.text(
                Query::Pair {
                    ty: ty.id,
                    expr: repeats.id,
                    parts: PairParts {
                        prefix: "[".to_owned(),
                        before_infix: "".to_owned(),
                        infix: "; ".to_owned(),
                        behind_infix: "".to_owned(),
                        suffix: "]".to_owned(),
                    },
                    shape,
                    separator_place: SeparatorPlace::Back,
                },
            ),
            TyKind::Infer => if shape.width >= 1 {
                Ok("_".to_owned())
            } else {
                Err(Stop::Failed)
            },
            TyKind::BareFn(bare_fn) => rewrite_bare_fn(bare_fn, self.span, context, shape),
            TyKind::Never => Ok("!".to_owned()),
            TyKind::MacCall(mac) => context.text(
                Query::Macro {
                    mac: *mac,
                    extra_ident: None,
                    shape,
                    position: MacroPosition::Expression,
                },
            ),
            TyKind::ImplicitSelf => Ok("".to_owned()),
            TyKind::ImplTrait(it) => {
                // Empty trait is not a parser error.
                if it.len() == 0 {
                    return Ok("impl".to_owned());
                }
                let it_str = join_bounds(context, shape, it.as_slice(), false)?;
                if it_str.as_str().is_empty() {
                    Ok("impl".to_owned())
                } else {
                    let mut text = "impl ".to_owned();
                    text.append(&it_str);
                    Ok(text)
                }
            },
            TyKind::CVarArgs => Ok("...".to_owned()),
            TyKind::Error => context.snippet(self.span),
            TyKind::Typeof(anon_const) => {
                let exprs: Vec<NodeId> = vec![anon_const.id];
                assert(exprs@ =~= seq![anon_const.id]);
                context.text(
                    Query::Call { callee: "typeof".to_owned(), exprs, span: self.span, shape },
                )
            },
        }
    }
}

// ----- Where clauses -----

/// Lays out a lifetime and the lifetimes that it outlives.
pub fn rewrite_bounded_lifetime(
    lt: &Lifetime,
    bounds: &[GenericBound],
    context: &RewriteContext,
    shape: Shape,
) -> (r: Result<String, Stop>)
    requires
        context.valid(),
    ensures
        layout(r) == bounded_lifetime_text(context, *lt, bounds@, shape),
{
    let result = lt.rewrite(context, shape)?;
    if bounds.len() == 0 {
        Ok(result)
    } else {
        let colon = type_bound_colon(context);
        let overhead: usize = or_fail(last_line_width(&result).checked_add(byte_length(colon)))?;
        let shape = or_fail(shape.sub_width(overhead))?;
        let joined = join_bounds(context, shape, bounds, true)?;
        Ok(concat(&result, colon, &joined))
    }
}

impl WherePredicate {
    /// Lays out a where predicate.
    pub fn rewrite(&self, context: &RewriteContext, shape: Shape) -> (r: Result<String, Stop>)
        requires
            context.valid(),
        ensures
            layout(r) == where_predicate_text(context, *self, shape),
    {
        match self {
            WherePredicate::BoundPredicate(data) => {
                let type_str = data.bounded_ty.rewrite(context, shape)?;
                let colon = trim_end(type_bound_colon(context));
                let mut lhs = match if_any(
                    rewrite_generic_params(context, shape, data.bound_generic_params.as_slice()),
                )? {
                    Some(lifetime_str) => concat("for<", &lifetime_str, "> "),
                    None => "".to_owned(),
                };
                lhs.append(&type_str);
                lhs.append(colon);
                context.text(Query::AssignRhs { lhs, rhs: RhsKey::Bounds(data.id), shape })
            },
            WherePredicate::RegionPredicate(data) => rewrite_bounded_lifetime(
                &data.lifetime,
                data.bounds.as_slice(),
                context,
                shape,
            ),
            WherePredicate::EqPredicate(data) => {
                let mut lhs_ty_str = data.lhs_ty.rewrite(context, shape)?;
                lhs_ty_str.append(" =");
                context.text(
                    Query::AssignRhs { lhs: lhs_ty_str, rhs: RhsKey::Type(data.rhs_ty.id), shape },
                )
            },
        }
    }
}

} // verus!
