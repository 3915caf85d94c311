//! What the layouts of function types have to satisfy.

use super::paths::{encloses, failed};
use crate::ast::{BareFnTy, Extern, FnDecl, FnRetTy, Mutability, Ty, TyKind, Unsafe};
use crate::config::{Config, IndentStyle, SeparatorTactic, TypeDensity};
use crate::lists::{DefinitiveListTactic, ListFormatting, ListItemView};
use crate::model::{
    arg_list_text, arg_tactic, args_shape, bare_fn_text, comment_alone, equals_text, extern_text,
    fn_param_keys, fn_type_text, mutability_text, output_shape, params_text, ty_text,
    unsafety_text, with_output,
};
use crate::query::{ArgKey, Layout, QueryView, RewriteContext, StopView, Token};
use crate::shape::{Indent, Shape};
use crate::span::{between, BytePos, Span};
use crate::text::{byte_len, display_width, first_line, last_line, trimmed, trimmed_start};
use vstd::prelude::*;

verus! {

// ----- Words -----

/// The words before a type or a function, with a space behind each.
pub proof fn law_words(config: Config)
    ensures
        mutability_text(Mutability::Mut) == "mut "@,
        mutability_text(Mutability::Not) == ""@,
        unsafety_text(Unsafe::Yes) == "unsafe "@,
        unsafety_text(Unsafe::No) == ""@,
        config.type_punctuation_density == TypeDensity::Wide ==> equals_text(config) == " = "@,
        config.type_punctuation_density == TypeDensity::Compressed ==> equals_text(config) == "="@,
{
}

/// An ABI is named, unless it is that of Rust. That of C is named only if the settings ask for
/// it, and it is the same whether the source names it or not.
pub proof fn law_extern(ext: Extern, explicit_abi: bool)
    ensures
        ext is Absent ==> extern_text(ext, explicit_abi) == ""@,
        ext is Implicit ==> extern_text(ext, explicit_abi) == (if explicit_abi {
            "extern \""@ + "C"@ + "\" "@
        } else {
            "extern "@
        }),
        ext matches Extern::Explicit(abi) ==> extern_text(ext, explicit_abi) == (if abi@
            == "Rust"@ {
            ""@
        } else if abi@ == "C"@ && !explicit_abi {
            "extern "@
        } else {
            "extern \""@ + abi@ + "\" "@
        }),
{
    reveal_strlit("Rust");
    reveal_strlit("C");
    assert("Rust"@.len() != "C"@.len());
}

// ----- Arguments -----

/// A return type has four columns before it. In visual style its lines are indented by as much.
pub proof fn law_return_type_shape(context: &RewriteContext, shape: Shape)
    ensures
        context.config.indent_style == IndentStyle::Block ==> output_shape(context, shape)
            == shape.further(4),
        context.config.indent_style == IndentStyle::Visual ==> match shape.indented_by(4) {
            None => output_shape(context, shape) is None,
            Some(s) => if s.width < 4 {
                output_shape(context, shape) is None
            } else {
                output_shape(context, shape) == Some(
                    Shape { width: (s.width - 4) as usize, ..s },
                )
            },
        },
{
}

/// In block style the arguments have whole lines, one level deeper than the line of the
/// function. In visual style they have what the parentheses leave, aligned behind the first.
pub proof fn law_arguments_shape(context: &RewriteContext, shape: Shape)
    ensures
        context.config.indent_style == IndentStyle::Block ==> {
            let deeper = shape.indent.block_indent + context.config.tab_spaces;
            &&& args_shape(context, shape) is Some <==> deeper <= usize::MAX
            &&& args_shape(context, shape) matches Some(s) ==> s.indent.block_indent == deeper
                && s.indent.alignment == 0 && s.offset == 0 && s.width == (if deeper
                <= context.config.max_width {
                context.config.max_width - deeper
            } else {
                0
            })
        },
        context.config.indent_style == IndentStyle::Visual ==> args_shape(context, shape)
            == shape.inside(2, 1),
{
}

/// A comment alone between parentheses stays as it is, unless it runs to the end of its line.
/// Then it gets a line of its own, and the parenthesis behind it does too.
pub proof fn law_comment_alone(
    context: &RewriteContext,
    comment: Seq<char>,
    shape: Shape,
    list_shape: Shape,
)
    ensures
        ({
            let text = comment_alone(context, comment, shape, list_shape);
            if comment.len() >= 2 && comment[0] == '/' && comment[1] == '/' {
                text == list_shape.indent.new_line(context.config) + comment + (Indent {
                    block_indent: shape.indent.block_indent,
                    alignment: 0,
                }).new_line(context.config)
            } else {
                text == comment
            }
        }),
{
    reveal_strlit("//");
    if comment.len() >= 2 && comment[0] == '/' && comment[1] == '/' {
        assert(comment.subrange(0, 2) =~= "//"@);
    }
    if "//"@.is_prefix_of(comment) {
        assert(comment.subrange(0, 2)[0] == '/' && comment.subrange(0, 2)[1] == '/');
    }
}

/// Without arguments, what the source has between the parentheses is kept, without the white
/// space around it.
pub proof fn law_no_arguments(
    context: &RewriteContext,
    output: Seq<char>,
    variadic: bool,
    span: Span,
    shape: Shape,
    list_shape: Shape,
    lo: BytePos,
    hi: BytePos,
)
    requires
        context.end_of(span, Token::OpenParen) == Ok::<BytePos, StopView>(lo),
        context.start_of(span, Token::CloseParen) == Ok::<BytePos, StopView>(hi),
    ensures
        ({
            let whole = arg_list_text(
                context,
                Seq::empty(),
                output,
                variadic,
                span,
                shape,
                list_shape,
            );
            match context.text_for(QueryView::SpanToSnippet { span: between(lo, hi) }) {
                Err(stop) => whole == Err::<Seq<char>, StopView>(stop),
                Ok(source) => whole == Ok::<Seq<char>, StopView>(
                    "("@ + comment_alone(context, trimmed(source), shape, list_shape) + ")"@,
                ),
            }
        }),
{
}

/// How arguments are to be written: with a comma behind the last one only in block style, as
/// the settings ask for it, and never behind `...`.
pub open spec fn writes_arguments(
    formatting: ListFormatting,
    context: &RewriteContext,
    tactic: DefinitiveListTactic,
    variadic: bool,
    list_shape: Shape,
) -> bool {
    &&& formatting.shape == list_shape
    &&& formatting.tactic == tactic
    &&& formatting.preserve_newline
    &&& formatting.ends_with_newline <==> context.config.indent_style == IndentStyle::Block
        && tactic == DefinitiveListTactic::Vertical
    &&& variadic ==> formatting.trailing_separator == SeparatorTactic::Never
    &&& context.config.indent_style == IndentStyle::Visual ==> formatting.trailing_separator
        == SeparatorTactic::Never
    &&& !variadic && context.config.indent_style == IndentStyle::Block
        ==> formatting.trailing_separator == context.config.trailing_comma
}

/// Arguments are split up from behind the opening parenthesis on, and written as a list. In
/// block style a list that does not go on one line gets lines of its own between the
/// parentheses; elsewhere the parentheses go around it.
pub proof fn law_arguments(
    context: &RewriteContext,
    args: Seq<ArgKey>,
    output: Seq<char>,
    variadic: bool,
    span: Span,
    shape: Shape,
    list_shape: Shape,
    lo: BytePos,
    items: Seq<ListItemView>,
    formatting: ListFormatting,
)
    requires
        args.len() > 0,
        context.end_of(span, Token::OpenParen) == Ok::<BytePos, StopView>(lo),
        context.items_for(
            QueryView::ItemizeList {
                args,
                terminator: ")"@,
                separator: ","@,
                shape: list_shape,
                lo,
                hi: span.hi,
                leave_last: false,
            },
        ) == Ok::<Seq<ListItemView>, StopView>(items),
        writes_arguments(
            formatting,
            context,
            arg_tactic(items, output, shape),
            variadic,
            list_shape,
        ),
    ensures
        ({
            let whole = arg_list_text(context, args, output, variadic, span, shape, list_shape);
            let list = context.text_for(QueryView::WriteList { items, formatting });
            if context.config.indent_style == IndentStyle::Block && arg_tactic(
                items,
                output,
                shape,
            ) == DefinitiveListTactic::Vertical {
                encloses(
                    whole,
                    "("@ + list_shape.indent.new_line(context.config),
                    list,
                    (Indent {
                        block_indent: shape.indent.block_indent,
                        alignment: 0,
                    }).new_line(context.config) + ")"@,
                )
            } else {
                encloses(whole, "("@, list, ")"@)
            }
        }),
{
    let whole = arg_list_text(context, args, output, variadic, span, shape, list_shape);
    let tactic = arg_tactic(items, output, shape);
    assert(formatting == crate::model::arg_formatting(context, tactic, variadic, list_shape));
    if let Ok(list) = context.text_for(QueryView::WriteList { items, formatting }) {
        let before = list_shape.indent.new_line(context.config);
        let behind = shape.unaligned().indent.new_line(context.config);
        assert("("@ + before + list + behind + ")"@ =~= "("@ + before + list + (behind + ")"@));
    }
}

/// Arguments that cannot be found in the source, or that cannot be split up, are asked for.
pub proof fn law_arguments_are_asked_for(
    context: &RewriteContext,
    args: Seq<ArgKey>,
    output: Seq<char>,
    variadic: bool,
    span: Span,
    shape: Shape,
    list_shape: Shape,
)
    ensures
        ({
            let whole = arg_list_text(context, args, output, variadic, span, shape, list_shape);
            match context.end_of(span, Token::OpenParen) {
                Err(stop) => whole == Err::<Seq<char>, StopView>(stop),
                Ok(lo) => {
                    &&& args.len() == 0 ==> (context.start_of(span, Token::CloseParen) matches Err(
                        stop,
                    ) ==> whole == Err::<Seq<char>, StopView>(stop))
                    &&& args.len() > 0 ==> (context.items_for(
                        QueryView::ItemizeList {
                            args,
                            terminator: ")"@,
                            separator: ","@,
                            shape: list_shape,
                            lo,
                            hi: span.hi,
                            leave_last: false,
                        },
                    ) matches Err(stop) ==> whole == Err::<Seq<char>, StopView>(stop))
                },
            }
        }),
{
}

// ----- Function types -----

/// A return type goes behind the arguments. Where the line is too short for the last line of
/// the arguments and the first line of the return type, it goes on a line of its own, indented
/// like the arguments.
pub proof fn law_return_type_behind_arguments(
    context: &RewriteContext,
    args: Seq<char>,
    output: Seq<char>,
    shape: Shape,
    list_shape: Shape,
)
    ensures
        ({
            let text = with_output(context, args, output, shape, list_shape);
            &&& output.len() == 0 ==> text == args
            &&& output.len() > 0 && display_width(last_line(args)) + display_width(
                first_line(output),
            ) <= shape.width ==> text == args + output
            &&& output.len() > 0 && display_width(last_line(args)) + display_width(
                first_line(output),
            ) > shape.width ==> text == args + list_shape.indent.new_line(context.config)
                + trimmed_start(output)
        }),
{
    reveal_strlit("\n");
    assert("\n"@ =~= seq!['\n']);
    assert(args + output =~= args || output.len() > 0);
    assert(args + "\n"@ + list_shape.indent.text(context.config) + trimmed_start(output) =~= args
        + list_shape.indent.new_line(context.config) + trimmed_start(output));
}

/// A function type is its arguments and, if it has one, ` -> ` and its return type. The
/// arguments know the return type, which they have to leave room for.
pub proof fn law_function_type(
    context: &RewriteContext,
    args: Seq<ArgKey>,
    output: FnRetTy,
    variadic: bool,
    span: Span,
    shape: Shape,
)
    ensures
        ({
            let whole = fn_type_text(context, args, output, variadic, span, shape);
            let behind = |arrow: Seq<char>|
                match args_shape(context, shape) {
                    None => failed(),
                    Some(list_shape) => match arg_list_text(
                        context,
                        args,
                        arrow,
                        variadic,
                        span,
                        shape,
                        list_shape,
                    ) {
                        Err(stop) => Err(stop),
                        Ok(list) => Ok(with_output(context, list, arrow, shape, list_shape)),
                    },
                };
            match output_shape(context, shape) {
                None => whole == failed(),
                Some(inner) => match output {
                    FnRetTy::Default(_) => whole == behind(""@),
                    FnRetTy::Ty(ty) => match ty_text(context, *ty, inner) {
                        Err(stop) => whole == Err::<Seq<char>, StopView>(stop),
                        Ok(ty) => whole == behind(" -> "@ + ty),
                    },
                },
            }
        }),
{
    reveal_with_fuel(fn_type_text, 2);
}

/// Whether a function takes any number of arguments is decided by its last parameter.
pub proof fn law_variadic(decl: FnDecl)
    ensures
        decl.inputs@.len() == 0 ==> !decl.variadic(),
        decl.inputs@.len() > 0 ==> (decl.variadic() <==> decl.inputs@[decl.inputs@.len()
            - 1].ty.kind == TyKind::CVarArgs),
{
}

// ----- Function pointers -----

/// The `for<..>` before something with parameters of its own, if they have a layout.
pub open spec fn binder(params: Layout) -> Seq<char> {
    match params {
        Ok(params) => "for<"@ + params + "> "@,
        Err(_) => ""@,
    }
}

/// What a function pointer starts with: the `for<..>`, `unsafe` if it is unsafe, the ABI and
/// `fn`.
pub open spec fn pointer_start(
    context: &RewriteContext,
    bare_fn: BareFnTy,
    params: Layout,
) -> Seq<char> {
    binder(params) + (if bare_fn.unsafety == Unsafe::Yes {
        "unsafe "@
    } else {
        ""@
    }) + extern_text(bare_fn.ext, context.config.force_explicit_abi) + "fn"@
}

/// A function pointer is its `for<..>`, `unsafe`, ABI and `fn`, and then its function type,
/// which starts behind these. In visual style all lines of the function type are aligned there.
#[verifier::rlimit(40)]
pub proof fn law_function_pointer(
    context: &RewriteContext,
    bare_fn: BareFnTy,
    span: Span,
    shape: Shape,
)
    ensures
        ({
            let whole = bare_fn_text(context, bare_fn, span, shape);
            let params = params_text(context, bare_fn.generic_params@, shape);
            let start = pointer_start(context, bare_fn, params);
            let n = byte_len(start) as int;
            let behind = |inner: Shape|
                fn_type_text(
                    context,
                    fn_param_keys(bare_fn.decl.inputs@),
                    bare_fn.decl.output,
                    bare_fn.decl.variadic(),
                    span,
                    inner,
                );
            &&& params matches Err(StopView::Ask(query)) ==> whole == Err::<Seq<char>, StopView>(
                StopView::Ask(query),
            )
            &&& !(params matches Err(StopView::Ask(_))) ==> {
                &&& n > shape.width || shape.offset + n > usize::MAX ==> whole == failed()
                &&& n <= shape.width && shape.offset + n <= usize::MAX ==> encloses(
                    whole,
                    start,
                    behind(
                        Shape {
                            width: (shape.width - n) as usize,
                            indent: if context.config.indent_style == IndentStyle::Block {
                                shape.indent
                            } else {
                                Indent {
                                    block_indent: shape.indent.block_indent,
                                    alignment: (shape.offset + n) as usize,
                                }
                            },
                            offset: (shape.offset + n) as usize,
                        },
                    ),
                    Seq::empty(),
                )
            }
        }),
{
    reveal_with_fuel(bare_fn_text, 2);
    let params = params_text(context, bare_fn.generic_params@, shape);
    let start = pointer_start(context, bare_fn, params);
    assert forall|text: Seq<char>| #[trigger] (start + text + Seq::<char>::empty()) == start
        + text by {
        assert(start + text + Seq::<char>::empty() =~= start + text);
    }
}

/// The layout of a function pointer starts with `for<..>` if its parameters have a layout, then
/// `unsafe` exactly if it is unsafe, then its ABI, then `fn`.
pub proof fn law_function_pointer_start(
    context: &RewriteContext,
    bare_fn: BareFnTy,
    span: Span,
    shape: Shape,
)
    ensures
        bare_fn_text(context, bare_fn, span, shape) matches Ok(text) ==> {
            let lifetimes = match params_text(context, bare_fn.generic_params@, shape) {
                Ok(params) => "for<"@ + params + "> "@,
                Err(_) => ""@,
            };
            let unsafety = if bare_fn.unsafety == Unsafe::Yes {
                "unsafe "@
            } else {
                ""@
            };
            let start = lifetimes + unsafety + extern_text(
                bare_fn.ext,
                context.config.force_explicit_abi,
            ) + "fn"@;
            start.is_prefix_of(text)
        },
{
    law_function_pointer(context, bare_fn, span, shape);
    if let Ok(text) = bare_fn_text(context, bare_fn, span, shape) {
        let start = pointer_start(
            context,
            bare_fn,
            params_text(context, bare_fn.generic_params@, shape),
        );
        assert(exists|rest: Seq<char>| text == #[trigger] (start + rest) + Seq::<char>::empty());
        let rest = choose|rest: Seq<char>| text == #[trigger] (start + rest) + Seq::<char>::empty();
        assert(text.subrange(0, start.len() as int) =~= start);
    }
}

/// A function pointer as a type is laid out as such.
pub proof fn law_function_pointer_type(context: &RewriteContext, ty: Ty, shape: Shape)
    ensures
        ty.kind matches TyKind::BareFn(bare_fn) ==> ty_text(context, ty, shape) == bare_fn_text(
            context,
            *bare_fn,
            ty.span,
            shape,
        ),
{
    reveal_with_fuel(ty_text, 2);
}

} // verus!
