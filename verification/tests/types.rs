use type_format::ast::{
    AngleBracketedArg, AngleBracketedArgs, AnonConst, AssocTyConstraint, AssocTyConstraintKind,
    BareFnTy, Extern, FnDecl, FnRetTy, GenericArg, GenericArgs, GenericBound, GenericParam,
    GenericParamKind, Ident, Lifetime, MutTy, Mutability, Param, ParenthesizedArgs, Path,
    PathSegment, PolyTraitRef, QSelf, TraitBoundModifier, TraitObjectSyntax, TraitRef, Ty, TyKind,
    Unsafe, WhereBoundPredicate, WhereEqPredicate, WherePredicate, WhereRegionPredicate,
};
use type_format::config::{Config, IndentStyle, SeparatorTactic, TypeDensity};
use type_format::lists::{DefinitiveListTactic, ListItem, ListItemCommentStyle};
use type_format::query::{
    Answer, Answers, ArgKey, ExprType, MacroPosition, PairParts, ParamKey, Query, RewriteContext,
    RhsKey, SeparatorPlace, Stop, Token,
};
use type_format::shape::{Indent, Shape};
use type_format::span::Span;
use type_format::types::{
    append_rewrite_args, can_be_overflowed_type, format_extern, format_function_type,
    is_generic_bounds_in_order, join_bounds, join_bounds_inner, rewrite_bare_fn,
    rewrite_bounded_lifetime, rewrite_bounds, rewrite_generic_params, rewrite_path,
    rewrite_path_segments, rewrite_segment, PathContext, SegmentParam,
};

// ----- Settings and shapes -----

fn config() -> Config {
    Config {
        max_width: 100,
        tab_spaces: 4,
        hard_tabs: false,
        indent_style: IndentStyle::Block,
        type_punctuation_density: TypeDensity::Wide,
        trailing_comma: SeparatorTactic::Vertical,
        force_explicit_abi: true,
        space_before_colon: false,
        space_after_colon: true,
    }
}

fn context() -> RewriteContext {
    RewriteContext { config: config(), inside_macro: false, answers: Answers::new() }
}

fn visual_context() -> RewriteContext {
    let mut context = context();
    context.config.indent_style = IndentStyle::Visual;
    context
}

fn shape(width: usize, block_indent: usize, alignment: usize, offset: usize) -> Shape {
    Shape { width, indent: Indent { block_indent, alignment }, offset }
}

fn wide() -> Shape {
    shape(100, 0, 0, 0)
}

fn no_span() -> Span {
    Span { lo: 0, hi: 0 }
}

// ----- Syntax -----

fn span(lo: u32, hi: u32) -> Span {
    Span { lo, hi }
}

fn ident(text: &str) -> Ident {
    Ident { text: text.to_owned(), span: no_span() }
}

fn lifetime(text: &str) -> Lifetime {
    Lifetime { id: 900, ident: ident(text) }
}

fn segment(text: &str) -> PathSegment {
    PathSegment { is_root: false, ident: ident(text), args: None }
}

fn root() -> PathSegment {
    PathSegment { is_root: true, ident: ident(""), args: None }
}

fn path(names: &[&str]) -> Path {
    Path { span: no_span(), segments: names.iter().map(|name| segment(name)).collect() }
}

fn ty(kind: TyKind) -> Ty {
    Ty { id: 1, kind, span: no_span() }
}

fn name(text: &str) -> Ty {
    ty(TyKind::Path(None, path(&[text])))
}

fn ty_with_id(id: u32, text: &str) -> Ty {
    let mut ty = name(text);
    ty.id = id;
    ty
}

fn poly(names: &[&str]) -> PolyTraitRef {
    PolyTraitRef {
        bound_generic_params: vec![],
        trait_ref: TraitRef { path: path(names) },
        span: no_span(),
    }
}

fn bound(text: &str) -> GenericBound {
    GenericBound::Trait(poly(&[text]), TraitBoundModifier::Plain)
}

fn bound_at(text: &str, lo: u32, hi: u32) -> GenericBound {
    let mut poly = poly(&[text]);
    poly.span = span(lo, hi);
    GenericBound::Trait(poly, TraitBoundModifier::Plain)
}

fn outlives(text: &str) -> GenericBound {
    GenericBound::Outlives(lifetime(text))
}

fn lifetime_param(text: &str) -> GenericParam {
    GenericParam { id: 70, ident: ident(text), bounds: vec![], kind: GenericParamKind::Lifetime }
}

fn type_param(text: &str, default: Option<Ty>) -> GenericParam {
    GenericParam {
        id: 71,
        ident: ident(text),
        bounds: vec![],
        kind: GenericParamKind::Type { default: default.map(Box::new) },
    }
}

fn angle(args: Vec<AngleBracketedArg>) -> GenericArgs {
    GenericArgs::AngleBracketed(AngleBracketedArgs { span: span(3, 9), args })
}

fn param(id: u32, kind: TyKind) -> Param {
    Param { id, span: no_span(), ty: Box::new(ty(kind)) }
}

// ----- Answers -----

/// Records answers until there is a layout or none can be had.
fn settle(
    context: &mut RewriteContext,
    respond: &dyn Fn(&Query) -> Answer,
    rewrite: &dyn Fn(&RewriteContext) -> Result<String, Stop>,
) -> Option<String> {
    for _ in 0..1000 {
        match rewrite(context) {
            Ok(text) => return Some(text),
            Err(Stop::Failed) => return None,
            Err(Stop::Ask(query)) => {
                assert!(context.answers.find(&query).is_none());
                let answer = respond(&query);
                context.answers.record(query, answer);
            }
        }
    }
    panic!("too many queries");
}

/// No comments, no parentheses, no attributes.
fn plain(query: &Query) -> Answer {
    match query {
        Query::Snippet { .. } => Answer::Source(String::new()),
        Query::SpanToSnippet { .. } => Answer::Text(Some(String::new())),
        Query::ContainsComment { .. } => Answer::Flag(false),
        Query::SpanBefore { .. } => Answer::Position(5),
        Query::SpanAfter { .. } => Answer::Position(6),
        Query::Attributes { .. } => Answer::Text(Some(String::new())),
        Query::Expr { expr, .. } => Answer::Text(Some(format!("e{}", expr))),
        Query::AngleBrackets { params, .. } => {
            let params: Vec<String> = params
                .iter()
                .map(|param| match param {
                    ParamKey::Const(id) => format!("c{}", id),
                    ParamKey::LifeTime(id) => format!("l{}", id),
                    ParamKey::Type(id) => format!("t{}", id),
                    ParamKey::Binding(id) => format!("b{}", id),
                })
                .collect();
            Answer::Text(Some(format!("<{}>", params.join(", "))))
        }
        Query::ItemizeList { args, .. } => Answer::Items(
            args.iter()
                .map(|arg| ListItem {
                    pre_comment: None,
                    pre_comment_style: ListItemCommentStyle::Absent,
                    item: Some(format!("a{}", arg.id)),
                    post_comment: None,
                    new_lines: false,
                })
                .collect(),
        ),
        Query::WriteList { items, formatting } => {
            let separator = match formatting.tactic {
                DefinitiveListTactic::Horizontal => ", ".to_owned(),
                DefinitiveListTactic::Vertical => {
                    format!(",\n{}", " ".repeat(formatting.shape.indent.block_indent))
                }
            };
            let items: Vec<String> =
                items.iter().map(|item| item.item.clone().unwrap()).collect();
            Answer::Text(Some(items.join(&separator)))
        }
        other => panic!("{:?}", other),
    }
}

fn rewrite_in(context: &mut RewriteContext, ty: &Ty, shape: Shape) -> Option<String> {
    settle(context, &plain, &|context| ty.rewrite(context, shape))
}

fn rewrite(ty: &Ty, shape: Shape) -> Option<String> {
    rewrite_in(&mut context(), ty, shape)
}

fn asked(r: Result<String, Stop>) -> Query {
    match r {
        Err(Stop::Ask(query)) => query,
        other => panic!("{:?}", other),
    }
}

// ----- Small types -----

#[test]
fn types_without_parts() {
    assert_eq!(rewrite(&ty(TyKind::Never), wide()), Some("!".to_owned()));
    assert_eq!(rewrite(&ty(TyKind::ImplicitSelf), wide()), Some("".to_owned()));
    assert_eq!(rewrite(&ty(TyKind::CVarArgs), wide()), Some("...".to_owned()));
    assert_eq!(rewrite(&ty(TyKind::Infer), shape(1, 0, 0, 0)), Some("_".to_owned()));
    assert_eq!(rewrite(&ty(TyKind::Infer), shape(0, 0, 0, 0)), None);
}

#[test]
fn slices() {
    let slice = ty(TyKind::Slice(Box::new(name("u8"))));
    assert_eq!(rewrite(&slice, wide()), Some("[u8]".to_owned()));
    // Four columns are set aside for the brackets.
    assert_eq!(rewrite(&slice, shape(6, 0, 0, 0)), Some("[u8]".to_owned()));
    assert_eq!(rewrite(&slice, shape(5, 0, 0, 0)), None);
    assert_eq!(rewrite(&slice, shape(3, 0, 0, 0)), None);
}

#[test]
fn slice_shape() {
    let mac = ty(TyKind::MacCall(40));
    let slice = ty(TyKind::Slice(Box::new(mac)));
    match asked(slice.rewrite(&context(), shape(50, 4, 2, 7))) {
        Query::Macro { mac: 40, shape: inner, .. } => assert_eq!(inner, shape(46, 4, 3, 3)),
        other => panic!("{:?}", other),
    }
}

#[test]
fn pointers() {
    let ptr = |mutbl| ty(TyKind::Ptr(MutTy { ty: Box::new(name("T")), mutbl }));
    assert_eq!(rewrite(&ptr(Mutability::Mut), wide()), Some("*mut T".to_owned()));
    assert_eq!(rewrite(&ptr(Mutability::Not), wide()), Some("*const T".to_owned()));
    assert_eq!(rewrite(&ptr(Mutability::Not), shape(8, 0, 0, 0)), Some("*const T".to_owned()));
    assert_eq!(rewrite(&ptr(Mutability::Not), shape(7, 0, 0, 0)), None);
}

#[test]
fn what_could_not_be_parsed_stays() {
    let mut context = context();
    let mut error = ty(TyKind::Error);
    error.span = span(3, 8);
    let respond = |query: &Query| match query {
        Query::Snippet { span: Span { lo: 3, hi: 8 } } => Answer::Source("a ? b".to_owned()),
        other => panic!("{:?}", other),
    };
    assert_eq!(
        settle(&mut context, &respond, &|c| error.rewrite(c, wide())),
        Some("a ? b".to_owned())
    );
}

#[test]
fn tuples_arrays_macros_and_typeof_are_asked_for() {
    let mut tuple = ty(TyKind::Tup(vec![ty_with_id(11, "A"), ty_with_id(12, "B")]));
    tuple.span = span(2, 6);
    match asked(tuple.rewrite(&context(), wide())) {
        Query::Tuple { types, span: s, shape: w, is_singleton } => {
            assert_eq!((types, s, w, is_singleton), (vec![11, 12], span(2, 6), wide(), false));
        }
        other => panic!("{:?}", other),
    }
    let single = ty(TyKind::Tup(vec![ty_with_id(11, "A")]));
    assert!(matches!(
        asked(single.rewrite(&context(), wide())),
        Query::Tuple { is_singleton: true, .. }
    ));
    let array = ty(TyKind::Array(
        Box::new(ty_with_id(13, "A")),
        AnonConst { id: 14, span: no_span() },
    ));
    match asked(array.rewrite(&context(), wide())) {
        Query::Pair { ty: 13, expr: 14, parts, shape: w, separator_place } => {
            let parts = [
                parts.prefix,
                parts.before_infix,
                parts.infix,
                parts.behind_infix,
                parts.suffix,
            ];
            assert_eq!(parts, ["[", "", "; ", "", "]"]);
            assert_eq!((w, separator_place), (wide(), SeparatorPlace::Back));
        }
        other => panic!("{:?}", other),
    }
    let type_of = ty(TyKind::Typeof(AnonConst { id: 15, span: no_span() }));
    match asked(type_of.rewrite(&context(), wide())) {
        Query::Call { callee, exprs, span: s, shape: w } => {
            assert_eq!((callee.as_str(), exprs, s, w), ("typeof", vec![15], no_span(), wide()));
        }
        other => panic!("{:?}", other),
    }
    let mac = ty(TyKind::MacCall(16));
    let mut context = context();
    let query = |position| Query::Macro { mac: 16, extra_ident: None, shape: wide(), position };
    context.answers.record(query(MacroPosition::Item), Answer::Text(Some("m!()".to_owned())));
    assert!(asked(mac.rewrite(&context, wide())).same(&query(MacroPosition::Expression)));
    context.answers.record(query(MacroPosition::Expression), Answer::Text(None));
    assert!(matches!(mac.rewrite(&context, wide()), Err(Stop::Failed)));
}

// ----- References -----

fn reference(lt: Option<&str>, mutbl: Mutability) -> Ty {
    ty(TyKind::Rptr(lt.map(lifetime), MutTy { ty: Box::new(name("T")), mutbl }))
}

#[test]
fn references() {
    let check = |lt, mutbl, text: &str| {
        assert_eq!(rewrite(&reference(lt, mutbl), wide()), Some(text.to_owned()));
    };
    check(None, Mutability::Not, "&T");
    check(None, Mutability::Mut, "&mut T");
    check(Some("'a"), Mutability::Not, "&'a T");
    check(Some("'a"), Mutability::Mut, "&'a mut T");
}

#[test]
fn references_need_room() {
    assert_eq!(rewrite(&reference(None, Mutability::Not), shape(2, 0, 0, 0)), Some("&T".to_owned()));
    assert_eq!(rewrite(&reference(None, Mutability::Not), shape(1, 0, 0, 0)), None);
    assert_eq!(rewrite(&reference(Some("'a"), Mutability::Mut), shape(5, 0, 0, 0)), None);
    assert_eq!(rewrite(&reference(Some("'a"), Mutability::Mut), shape(8, 0, 0, 0)), None);
    assert_eq!(
        rewrite(&reference(Some("'a"), Mutability::Mut), shape(9, 0, 0, 0)),
        Some("&'a mut T".to_owned())
    );
}

#[test]
fn references_keep_comments() {
    // &/* 1 */ 'a /* 2 */ mut /* 3 */ T
    let mut reference = reference(Some("'a"), Mutability::Mut);
    reference.span = span(0, 33);
    if let TyKind::Rptr(Some(lt), mt) = &mut reference.kind {
        lt.ident.span = span(9, 11);
        mt.ty.span = span(32, 33);
    }
    let respond = |query: &Query| match query {
        Query::SpanAfter { span: Span { lo: 0, hi: 33 }, token: Token::Ampersand } => {
            Answer::Position(1)
        }
        Query::SpanAfter { span: Span { lo: 0, hi: 33 }, token: Token::Mut } => {
            Answer::Position(23)
        }
        Query::ContainsComment { span } => {
            assert!([(1, 9), (11, 20), (23, 32)].contains(&(span.lo, span.hi)));
            Answer::Flag(true)
        }
        Query::CombineWithComments { prev, next, span, shape, allow_extend } => {
            assert!(*allow_extend);
            assert_eq!(*shape, wide());
            Answer::Text(Some(format!("{} /* {} */ {}", prev, span.lo, next)))
        }
        other => panic!("{:?}", other),
    };
    assert_eq!(
        settle(&mut context(), &respond, &|c| reference.rewrite(c, wide())),
        Some("& /* 1 */ 'a /* 11 */ mut /* 23 */ T".to_owned())
    );
}

#[test]
fn a_position_before_its_token_fails() {
    let respond = |query: &Query| match query {
        Query::SpanAfter { .. } => Answer::Position(2),
        other => plain(other),
    };
    let reference = reference(None, Mutability::Mut);
    assert_eq!(settle(&mut context(), &respond, &|c| reference.rewrite(c, wide())), None);
}

#[test]
fn overflowing_types() {
    let tuple = || ty(TyKind::Tup(vec![]));
    let to = |ty_: Ty| {
        ty(TyKind::Rptr(None, MutTy { ty: Box::new(ty_), mutbl: Mutability::Not }))
    };
    let at = |ty_: Ty| ty(TyKind::Ptr(MutTy { ty: Box::new(ty_), mutbl: Mutability::Mut }));
    assert!(can_be_overflowed_type(&context(), &tuple(), 1));
    assert!(can_be_overflowed_type(&context(), &to(at(tuple())), 1));
    assert!(!can_be_overflowed_type(&context(), &tuple(), 2));
    assert!(!can_be_overflowed_type(&visual_context(), &tuple(), 1));
    assert!(!can_be_overflowed_type(&context(), &to(name("T")), 1));
}

// ----- Parentheses -----

#[test]
fn parentheses_on_one_line() {
    let paren = ty(TyKind::Paren(Box::new(name("T"))));
    assert_eq!(rewrite(&paren, wide()), Some("(T)".to_owned()));
    assert_eq!(rewrite_in(&mut visual_context(), &paren, wide()), Some("(T)".to_owned()));
    assert_eq!(rewrite_in(&mut visual_context(), &paren, shape(2, 0, 0, 0)), None);
}

#[test]
fn parentheses_on_several_lines() {
    let paren = ty(TyKind::Paren(Box::new(name("Type"))));
    assert_eq!(rewrite(&paren, shape(5, 4, 0, 9)), Some("(\n        Type\n    )".to_owned()));
    assert_eq!(rewrite(&paren, shape(6, 4, 0, 9)), Some("(Type)".to_owned()));
    assert_eq!(rewrite(&paren, shape(1, 4, 0, 9)), Some("(\n        Type\n    )".to_owned()));
    let mac = ty(TyKind::Paren(Box::new(ty(TyKind::MacCall(40)))));
    let respond = |query: &Query| match query {
        Query::Macro { shape: s, .. } if *s == shape(48, 4, 0, 9) => {
            Answer::Text(Some("a\nb".to_owned()))
        }
        Query::Macro { shape: s, .. } => {
            assert_eq!(*s, shape(92, 8, 0, 0));
            Answer::Text(Some("c\nd".to_owned()))
        }
        other => panic!("{:?}", other),
    };
    assert_eq!(
        settle(&mut context(), &respond, &|c| mac.rewrite(c, shape(50, 4, 0, 9))),
        Some("(\n        c\nd\n    )".to_owned())
    );
}

// ----- Paths -----

#[test]
fn simple_paths() {
    let long = ty(TyKind::Path(None, path(&["std", "fmt", "Debug"])));
    assert_eq!(rewrite(&long, wide()), Some("std::fmt::Debug".to_owned()));
    // A simple path does not wrap: there is no layout on a line that is too narrow.
    assert_eq!(rewrite(&long, shape(15, 0, 0, 0)), Some("std::fmt::Debug".to_owned()));
    assert_eq!(rewrite(&long, shape(14, 0, 0, 0)), None);
    assert_eq!(rewrite_in(&mut visual_context(), &long, shape(14, 0, 0, 0)), None);
    assert_eq!(
        rewrite_in(&mut visual_context(), &long, shape(15, 0, 0, 0)),
        Some("std::fmt::Debug".to_owned())
    );
}

#[test]
fn global_paths() {
    let mut global = path(&["std", "fmt"]);
    global.segments.insert(0, root());
    assert!(global.is_global());
    let text = |path_context| {
        rewrite_path(&context(), path_context, None, &global, wide()).unwrap()
    };
    assert_eq!(text(PathContext::Type), "::std::fmt");
    assert_eq!(text(PathContext::Expr), "::std::fmt");
    assert_eq!(text(PathContext::Import), "std::fmt");
    assert!(!path(&[]).is_global());
    assert_eq!(
        rewrite_path(&context(), PathContext::Type, None, &path(&[]), wide()).unwrap(),
        ""
    );
}

#[test]
fn qualified_paths() {
    let qself = |position| QSelf { ty: Box::new(name("T")), position };
    let trait_path = path(&["a", "Trait", "Assoc"]);
    let text = |position, path: &Path| {
        rewrite_path(&context(), PathContext::Type, Some(&qself(position)), path, wide()).unwrap()
    };
    assert_eq!(text(2, &trait_path), "<T as a::Trait>::Assoc");
    assert_eq!(text(0, &path(&["Assoc"])), "<T>::Assoc");
    assert_eq!(text(9, &path(&["Trait"])), "<T as Trait>::");
    let mut global = path(&["a", "Trait", "Assoc"]);
    global.segments.insert(0, root());
    assert_eq!(text(3, &global), "<T as ::a::Trait>::Assoc");
    let ty = ty(TyKind::Path(Some(qself(2)), path(&["a", "Trait", "Assoc"])));
    assert_eq!(rewrite(&ty, wide()), Some("<T as a::Trait>::Assoc".to_owned()));
    assert_eq!(rewrite(&ty, shape(21, 0, 0, 0)), None);
}

#[test]
fn a_type_at_the_end_of_all_positions_fails() {
    let mut end = name("T");
    end.span = span(0, u32::MAX);
    let qself = QSelf { ty: Box::new(end), position: 0 };
    let r = rewrite_path(&context(), PathContext::Type, Some(&qself), &path(&["A"]), wide());
    assert!(matches!(r, Err(Stop::Failed)));
}

#[test]
fn some_segments_of_a_path() {
    let all = path(&["a", "b", "c", "d"]);
    let r = rewrite_path_segments(
        PathContext::Type,
        "<".to_owned(),
        &all.segments,
        1,
        3,
        0,
        9,
        &context(),
        wide(),
    );
    assert_eq!(r.unwrap(), "<b::c");
}

fn with_args(args: Vec<AngleBracketedArg>) -> Path {
    let mut path = path(&["a", "Foo", "Bar"]);
    path.span = span(0, 30);
    path.segments[1].ident.span = span(3, 6);
    path.segments[1].args = Some(Box::new(angle(args)));
    path
}

#[test]
fn arguments_in_angle_brackets() {
    let args = || {
        vec![
            AngleBracketedArg::Arg(GenericArg::Lifetime(lifetime("'a"))),
            AngleBracketedArg::Arg(GenericArg::Type(Box::new(ty_with_id(21, "T")))),
            AngleBracketedArg::Arg(GenericArg::Const(AnonConst { id: 22, span: no_span() })),
            AngleBracketedArg::Constraint(AssocTyConstraint {
                id: 23,
                ident: ident("Item"),
                gen_args: None,
                kind: AssocTyConstraintKind::Equality { ty: Box::new(name("U")) },
                span: no_span(),
            }),
        ]
    };
    let text = |path_context| {
        settle(&mut context(), &plain, &|c| {
            rewrite_path(c, path_context, None, &with_args(args()), wide())
        })
    };
    assert_eq!(text(PathContext::Type), Some("a::Foo<l900, t21, c22, b23>::Bar".to_owned()));
    assert_eq!(text(PathContext::Expr), Some("a::Foo::<l900, t21, c22, b23>::Bar".to_owned()));
    assert_eq!(
        rewrite_path(&context(), PathContext::Type, None, &with_args(vec![]), wide()).unwrap(),
        "a::Foo::Bar"
    );
}

#[test]
fn separators_are_kept_in_macro_calls() {
    let args = vec![AngleBracketedArg::Arg(GenericArg::Type(Box::new(ty_with_id(21, "T"))))];
    let path = with_args(args);
    let text = |source: &'static str| {
        let mut context = context();
        context.inside_macro = true;
        let respond = move |query: &Query| match query {
            Query::Snippet { span } => {
                assert_eq!((span.lo, span.hi), (3, 6));
                Answer::Source(source.to_owned())
            }
            other => plain(other),
        };
        settle(&mut context, &respond, &|c| {
            rewrite_path(c, PathContext::Type, None, &path, wide())
        })
    };
    assert_eq!(text(" ::"), Some("a::Foo::<t21>::Bar".to_owned()));
    assert_eq!(text(""), Some("a::Foo<t21>::Bar".to_owned()));
}

#[test]
fn positions_move_behind_the_brackets() {
    // `Foo<A>::B`
    let mut segment = segment("Foo");
    segment.ident.span = span(0, 3);
    let mut arg = ty_with_id(21, "A");
    arg.span = span(4, 5);
    let args = vec![AngleBracketedArg::Arg(GenericArg::Type(Box::new(arg)))];
    segment.args = Some(Box::new(GenericArgs::AngleBracketed(AngleBracketedArgs {
        span: span(3, 6),
        args,
    })));
    let mut context = context();
    let mut span_lo = 0;
    let r = rewrite_segment(PathContext::Type, &segment, &mut span_lo, 9, &context, wide());
    assert_eq!(span_lo, 0);
    let query = asked(r);
    match &query {
        Query::AngleBrackets { shape: s, span: around, .. } => {
            assert_eq!((*s, *around), (shape(97, 0, 0, 3), span(0, 9)));
        }
        other => panic!("{:?}", other),
    }
    let answer = plain(&query);
    context.answers.record(query, answer);
    let r = rewrite_segment(PathContext::Type, &segment, &mut span_lo, 9, &context, wide());
    assert_eq!((r.unwrap(), span_lo), ("Foo<t21>".to_owned(), 6));
    segment.args = None;
    let mut span_lo = 4;
    let r = rewrite_segment(PathContext::Type, &segment, &mut span_lo, 30, &context, wide());
    assert_eq!((r.unwrap(), span_lo), ("Foo".to_owned(), 4));
    let mut span_lo = 4;
    let r = append_rewrite_args(
        PathContext::Type,
        &ident("Foo"),
        &angle(vec![]),
        &mut span_lo,
        30,
        &context,
        wide(),
        "Foo".to_owned(),
    );
    assert_eq!((r.unwrap(), span_lo), ("Foo".to_owned(), 4));
}

#[test]
fn brackets_are_looked_for_behind_those_before() {
    // `Foo<Vec<A>>::Bar<B>`
    let with_arg = |text: &str, id: u32, lo: u32, hi: u32| {
        let mut segment = segment(text);
        let mut arg = ty_with_id(id, "T");
        arg.span = span(lo + 1, hi - 1);
        segment.args = Some(Box::new(GenericArgs::AngleBracketed(AngleBracketedArgs {
            span: span(lo, hi),
            args: vec![AngleBracketedArg::Arg(GenericArg::Type(Box::new(arg)))],
        })));
        segment
    };
    let path = Path {
        span: span(0, 19),
        segments: vec![with_arg("Foo", 21, 3, 11), with_arg("Bar", 22, 16, 19)],
    };
    let respond = |query: &Query| {
        if let Query::AngleBrackets { ident, params, span: around, .. } = query {
            assert_eq!(ident, "");
            let lo = if params[0] == ParamKey::Type(21) { 0 } else { 11 };
            assert_eq!(*around, span(lo, 19));
        }
        plain(query)
    };
    assert_eq!(
        settle(&mut context(), &respond, &|c| {
            rewrite_path(c, PathContext::Type, None, &path, wide())
        }),
        Some("Foo<t21>::Bar<t22>".to_owned())
    );
}

#[test]
fn brackets_are_looked_for_behind_those_of_the_trait() {
    // `<T as A<B>>::C<D>`
    let with_arg = |text: &str, id: u32, at: u32| {
        let mut segment = segment(text);
        segment.ident.span = span(at, at + 1);
        let mut arg = ty_with_id(id, "X");
        arg.span = span(at + 2, at + 3);
        segment.args = Some(Box::new(GenericArgs::AngleBracketed(AngleBracketedArgs {
            span: span(at + 1, at + 4),
            args: vec![AngleBracketedArg::Arg(GenericArg::Type(Box::new(arg)))],
        })));
        segment
    };
    let mut self_ty = name("T");
    self_ty.span = span(1, 2);
    let qself = QSelf { ty: Box::new(self_ty), position: 1 };
    let text = |first: PathSegment, expected: u32| {
        let path = Path { span: span(6, 17), segments: vec![first, with_arg("C", 22, 13)] };
        let respond = |query: &Query| {
            if let Query::AngleBrackets { params, span: around, .. } = query {
                let lo = if params[0] == ParamKey::Type(21) { 6 } else { expected };
                assert_eq!(*around, span(lo, 17));
            }
            plain(query)
        };
        settle(&mut context(), &respond, &|c| {
            rewrite_path(c, PathContext::Type, Some(&qself), &path, wide())
        })
    };
    assert_eq!(text(with_arg("A", 21, 6), 10), Some("<T as A<t21>>::C<t22>".to_owned()));
    // Without brackets in the trait, those of `C` are looked for behind the type.
    assert_eq!(text(segment("A"), 3), Some("<T as A>::C<t22>".to_owned()));
}

#[test]
fn segments_in_visual_style_are_aligned() {
    let args = vec![AngleBracketedArg::Arg(GenericArg::Type(Box::new(ty_with_id(21, "T"))))];
    let mut segment = segment("Foo");
    segment.args = Some(Box::new(angle(args)));
    let mut span_lo = 4;
    let context = visual_context();
    let r = rewrite_segment(PathContext::Type, &segment, &mut span_lo, 30, &context, wide());
    match asked(r) {
        Query::AngleBrackets { shape: s, .. } => assert_eq!(s, shape(97, 0, 3, 3)),
        other => panic!("{:?}", other),
    }
}

// ----- Parameters in angle brackets -----

fn constraint(gen_args: Option<GenericArgs>, kind: AssocTyConstraintKind) -> AssocTyConstraint {
    AssocTyConstraint {
        id: 23,
        ident: ident("Item"),
        gen_args: gen_args.map(Box::new),
        kind,
        span: span(10, 20),
    }
}

#[test]
fn segment_params() {
    let text = |param: SegmentParam, context: &mut RewriteContext| {
        settle(context, &plain, &|c| param.rewrite(c, wide()))
    };
    let anon_const = AnonConst { id: 22, span: span(1, 2) };
    let lt = lifetime("'a");
    let named = name("T");
    assert_eq!(text(SegmentParam::Const(&anon_const), &mut context()), Some("e22".to_owned()));
    assert_eq!(text(SegmentParam::LifeTime(&lt), &mut context()), Some("'a".to_owned()));
    assert_eq!(text(SegmentParam::Type(&named), &mut context()), Some("T".to_owned()));
    let equality = constraint(None, AssocTyConstraintKind::Equality { ty: Box::new(name("U")) });
    assert_eq!(text(SegmentParam::Binding(&equality), &mut context()), Some("Item = U".to_owned()));
    let mut compressed = context();
    compressed.config.type_punctuation_density = TypeDensity::Compressed;
    assert_eq!(text(SegmentParam::Binding(&equality), &mut compressed), Some("Item=U".to_owned()));
    let bounds = AssocTyConstraintKind::Bound { bounds: vec![bound("A"), outlives("'a")] };
    let bounded = constraint(
        Some(angle(vec![AngleBracketedArg::Arg(GenericArg::Type(Box::new(ty_with_id(24, "V"))))])),
        bounds,
    );
    assert_eq!(
        text(SegmentParam::Binding(&bounded), &mut context()),
        Some("Item<t24>: A + 'a".to_owned())
    );
    assert!(matches!(
        SegmentParam::Binding(&equality).rewrite(&context(), shape(6, 0, 0, 0)),
        Err(Stop::Failed)
    ));
}

#[test]
fn segment_params_know_their_nodes() {
    let args = [
        GenericArg::Lifetime(lifetime("'a")),
        GenericArg::Type(Box::new(ty_with_id(21, "T"))),
        GenericArg::Const(AnonConst { id: 22, span: span(1, 2) }),
    ];
    let keys: Vec<ParamKey> =
        args.iter().map(|arg| SegmentParam::from_generic_arg(arg).key()).collect();
    assert_eq!(keys, vec![ParamKey::LifeTime(900), ParamKey::Type(21), ParamKey::Const(22)]);
    assert_eq!(SegmentParam::from_generic_arg(&args[2]).span(), span(1, 2));
    let equality = constraint(None, AssocTyConstraintKind::Equality { ty: Box::new(name("U")) });
    assert_eq!(SegmentParam::Binding(&equality).span(), span(10, 20));
    for arg in &args {
        let direct = settle(&mut context(), &plain, &|c| arg.rewrite(c, wide()));
        let param = SegmentParam::from_generic_arg(arg);
        assert_eq!(direct, settle(&mut context(), &plain, &|c| param.rewrite(c, wide())));
    }
}

// ----- Function types -----

fn keys(ids: &[u32]) -> Vec<ArgKey> {
    ids.iter().map(|id| ArgKey { id: *id, span: no_span() }).collect()
}

fn returning(text: &str) -> FnRetTy {
    FnRetTy::Ty(Box::new(name(text)))
}

fn nothing() -> FnRetTy {
    FnRetTy::Default(no_span())
}

fn function(
    context: &mut RewriteContext,
    ids: &[u32],
    output: &FnRetTy,
    variadic: bool,
    shape: Shape,
) -> Option<String> {
    settle(context, &plain, &|c| {
        format_function_type(keys(ids), output, variadic, span(0, 9), c, shape)
    })
}

#[test]
fn functions_on_one_line() {
    let text = |ids: &[u32], output: FnRetTy| {
        function(&mut context(), ids, &output, false, wide()).unwrap()
    };
    assert_eq!(text(&[], nothing()), "()");
    assert_eq!(text(&[], returning("T")), "() -> T");
    assert_eq!(text(&[1, 2], nothing()), "(a1, a2)");
    assert_eq!(text(&[1, 2], returning("T")), "(a1, a2) -> T");
}

#[test]
fn functions_on_several_lines() {
    let narrow = shape(13, 4, 0, 20);
    assert_eq!(
        function(&mut context(), &[1, 2], &returning("T"), false, narrow),
        Some("(a1, a2) -> T".to_owned())
    );
    let narrow = shape(12, 4, 0, 20);
    assert_eq!(
        function(&mut context(), &[1, 2], &returning("T"), false, narrow),
        Some("(\n        a1,\n        a2\n    ) -> T".to_owned())
    );
    assert_eq!(function(&mut context(), &[], &returning("T"), false, shape(3, 0, 0, 0)), None);
}

#[test]
fn a_return_type_that_does_not_fit_gets_a_line() {
    // The last line of the arguments takes up seven columns, the return type nine.
    let output = returning("Type1");
    assert_eq!(
        function(&mut visual_context(), &[1, 2], &output, false, shape(16, 4, 2, 6)),
        Some("(a1,\n    a2) -> Type1".to_owned())
    );
    assert_eq!(
        function(&mut visual_context(), &[1, 2], &output, false, shape(15, 4, 2, 6)),
        Some("(a1,\n    a2)\n       -> Type1".to_owned())
    );
}

#[test]
fn return_types_on_several_lines_break_the_arguments() {
    let output = FnRetTy::Ty(Box::new(ty(TyKind::MacCall(40))));
    let respond = |query: &Query| match query {
        Query::Macro { .. } => Answer::Text(Some("m! {\n}".to_owned())),
        other => plain(other),
    };
    let text = settle(&mut context(), &respond, &|c| {
        format_function_type(keys(&[1]), &output, false, span(0, 9), c, wide())
    });
    assert_eq!(text, Some("(\n    a1\n) -> m! {\n}".to_owned()));
}

#[test]
fn comments_between_empty_parentheses() {
    let text = |source: &'static str| {
        let respond = move |query: &Query| match query {
            Query::SpanBefore { span: s, token: Token::CloseParen } => {
                assert_eq!(*s, span(0, 9));
                Answer::Position(8)
            }
            Query::SpanAfter { span: s, token: Token::OpenParen } => {
                assert_eq!(*s, span(0, 9));
                Answer::Position(1)
            }
            Query::SpanToSnippet { span: s } => {
                assert_eq!(*s, span(1, 8));
                Answer::Text(Some(source.to_owned()))
            }
            other => panic!("{:?}", other),
        };
        settle(&mut context(), &respond, &|c| {
            format_function_type(keys(&[]), &nothing(), false, span(0, 9), c, shape(50, 4, 0, 9))
        })
    };
    assert_eq!(text(" /* c */ "), Some("(/* c */)".to_owned()));
    assert_eq!(text("// c\n"), Some("(\n        // c\n    )".to_owned()));
}

#[test]
fn source_that_cannot_be_had_fails() {
    let respond = |query: &Query| match query {
        Query::SpanToSnippet { .. } => Answer::Text(None),
        other => plain(other),
    };
    let r = settle(&mut context(), &respond, &|c| {
        format_function_type(keys(&[]), &nothing(), false, span(0, 9), c, wide())
    });
    assert_eq!(r, None);
}

#[test]
fn how_arguments_are_written() {
    let formatting = |mut context: RewriteContext, variadic: bool, width: usize| loop {
        let r = format_function_type(
            keys(&[1, 2]),
            &nothing(),
            variadic,
            span(0, 9),
            &context,
            shape(width, 4, 0, 9),
        );
        match asked(r) {
            Query::WriteList { formatting, .. } => return formatting,
            query @ Query::ItemizeList { .. } => {
                if let Query::ItemizeList { args, terminator, separator, lo, hi, leave_last, .. } =
                    &query
                {
                    assert_eq!((args.len(), *lo, *hi, *leave_last), (2, 6, 9, false));
                    assert_eq!((terminator.as_str(), separator.as_str()), (")", ","));
                }
                let answer = plain(&query);
                context.answers.record(query, answer);
            }
            query => {
                let answer = plain(&query);
                context.answers.record(query, answer);
            }
        }
    };
    let block = formatting(context(), false, 50);
    assert_eq!(block.shape, shape(92, 8, 0, 0));
    assert_eq!(block.tactic, DefinitiveListTactic::Horizontal);
    assert_eq!(block.trailing_separator, SeparatorTactic::Vertical);
    assert!(!block.ends_with_newline && block.preserve_newline);
    let vertical = formatting(context(), false, 5);
    assert_eq!(vertical.tactic, DefinitiveListTactic::Vertical);
    assert!(vertical.ends_with_newline);
    let variadic = formatting(context(), true, 50);
    assert_eq!(variadic.trailing_separator, SeparatorTactic::Never);
    let visual = formatting(visual_context(), false, 50);
    assert_eq!(visual.shape, shape(48, 4, 1, 1));
    assert_eq!(visual.trailing_separator, SeparatorTactic::Never);
}

#[test]
fn closure_traits() {
    let mut call = path(&["Fn"]);
    call.segments[0].args = Some(Box::new(GenericArgs::Parenthesized(ParenthesizedArgs {
        span: span(2, 9),
        inputs: vec![ty_with_id(31, "A"), ty_with_id(32, "B")],
        output: returning("C"),
    })));
    assert_eq!(
        rewrite(&ty(TyKind::Path(None, call)), wide()),
        Some("Fn(a31, a32) -> C".to_owned())
    );
}

fn bare_fn(unsafety: Unsafe, ext: Extern, params: Vec<GenericParam>, inputs: Vec<Param>) -> BareFnTy {
    BareFnTy {
        unsafety,
        ext,
        generic_params: params,
        decl: FnDecl { inputs, output: returning("T") },
    }
}

#[test]
fn function_pointers() {
    let text = |context: &mut RewriteContext, bare_fn: BareFnTy| {
        settle(context, &plain, &|c| rewrite_bare_fn(&bare_fn, span(0, 9), c, wide()))
    };
    let inputs = || vec![param(33, TyKind::Infer)];
    assert_eq!(
        text(&mut context(), bare_fn(Unsafe::No, Extern::Absent, vec![], inputs())),
        Some("fn(a33) -> T".to_owned())
    );
    assert_eq!(
        text(
            &mut context(),
            bare_fn(Unsafe::Yes, Extern::Implicit, vec![lifetime_param("'a")], inputs())
        ),
        Some("for<'a> unsafe extern \"C\" fn(a33) -> T".to_owned())
    );
    assert_eq!(
        text(
            &mut visual_context(),
            bare_fn(Unsafe::Yes, Extern::Implicit, vec![lifetime_param("'a")], inputs())
        ),
        Some("for<'a> unsafe extern \"C\" fn(a33) -> T".to_owned())
    );
    let ty = ty(TyKind::BareFn(Box::new(bare_fn(Unsafe::No, Extern::Absent, vec![], vec![]))));
    assert_eq!(rewrite(&ty, wide()), Some("fn() -> T".to_owned()));
    assert_eq!(rewrite(&ty, shape(1, 0, 0, 0)), None);
}

#[test]
fn abis() {
    assert_eq!(format_extern(&Extern::Absent, true), "");
    assert_eq!(format_extern(&Extern::Explicit("Rust".to_owned()), true), "");
    assert_eq!(format_extern(&Extern::Implicit, true), "extern \"C\" ");
    assert_eq!(format_extern(&Extern::Implicit, false), "extern ");
    assert_eq!(format_extern(&Extern::Explicit("C".to_owned()), false), "extern ");
    assert_eq!(format_extern(&Extern::Explicit("stdcall".to_owned()), false), "extern \"stdcall\" ");
}

#[test]
fn variadic_functions() {
    let decl = |inputs| FnDecl { inputs, output: nothing() };
    assert!(decl(vec![param(33, TyKind::Infer), param(34, TyKind::CVarArgs)]).c_variadic());
    assert!(!decl(vec![param(33, TyKind::CVarArgs), param(34, TyKind::Infer)]).c_variadic());
    assert!(!decl(vec![]).c_variadic());
}

// ----- Generic parameters -----

fn params(context: &mut RewriteContext, params: Vec<GenericParam>, shape: Shape) -> Option<String> {
    settle(context, &plain, &|c| rewrite_generic_params(c, shape, &params))
}

#[test]
fn generic_params_are_separated_by_commas() {
    assert_eq!(params(&mut context(), vec![], wide()), None);
    assert_eq!(
        params(&mut context(), vec![lifetime_param("'a")], wide()),
        Some("'a".to_owned())
    );
    assert_eq!(
        params(&mut context(), vec![lifetime_param("'a"), type_param("T", None)], wide()),
        Some("'a, T".to_owned())
    );
    let narrow = shape(3, 0, 0, 0);
    let with_default = type_param("T", Some(name("u32")));
    assert_eq!(params(&mut context(), vec![lifetime_param("'a"), with_default], narrow), None);
}

#[test]
fn generic_param_parts() {
    let one = |context: &mut RewriteContext, param: GenericParam| {
        settle(context, &plain, &|c| param.rewrite(c, wide()))
    };
    let mut bounded = type_param("T", Some(name("U")));
    bounded.bounds = vec![bound("A"), bound("B")];
    assert_eq!(one(&mut context(), bounded), Some("T: A + B = U".to_owned()));
    let mut bounded = type_param("T", Some(name("U")));
    bounded.bounds = vec![bound("A"), bound("B")];
    let mut compressed = context();
    compressed.config.type_punctuation_density = TypeDensity::Compressed;
    compressed.config.space_after_colon = false;
    assert_eq!(one(&mut compressed, bounded), Some("T:A+B=U".to_owned()));
    let constant = |default| GenericParam {
        id: 72,
        ident: ident("N"),
        bounds: vec![],
        kind: GenericParamKind::Const { ty: Box::new(name("usize")), default },
    };
    assert_eq!(one(&mut context(), constant(None)), Some("const N: usize".to_owned()));
    let default = Some(AnonConst { id: 73, span: no_span() });
    assert_eq!(one(&mut context(), constant(default)), Some("const N: usize = e73".to_owned()));
}

#[test]
fn generic_param_shapes() {
    let with_default = type_param("T", Some(ty(TyKind::MacCall(40))));
    let mut c = context();
    c.answers.record(Query::Attributes { param: 71, shape: shape(50, 4, 2, 9) }, Answer::Text(None));
    match asked(with_default.rewrite(&c, shape(50, 4, 2, 9))) {
        Query::Macro { shape: s, .. } => assert_eq!(s, shape(46, 4, 6, 6)),
        other => panic!("{:?}", other),
    }
    let constant = GenericParam {
        id: 71,
        ident: ident("N"),
        bounds: vec![],
        kind: GenericParamKind::Const {
            ty: Box::new(name("u8")),
            default: Some(AnonConst { id: 73, span: no_span() }),
        },
    };
    match asked(constant.rewrite(&c, shape(50, 4, 2, 9))) {
        Query::Expr { expr: 73, expr_type: ExprType::SubExpression, shape: s } => {
            assert_eq!(s, shape(36, 4, 2, 2));
        }
        other => panic!("{:?}", other),
    }
}

#[test]
fn attributes_before_a_parameter() {
    let respond = |query: &Query| match query {
        Query::Attributes { param: 70, .. } => Answer::Text(Some("#[may_dangle]".to_owned())),
        other => panic!("{:?}", other),
    };
    let param = lifetime_param("'a");
    assert_eq!(
        settle(&mut context(), &respond, &|c| param.rewrite(c, wide())),
        Some("#[may_dangle] 'a".to_owned())
    );
    // Attributes that cannot be laid out are left out.
    let none = |_: &Query| Answer::Text(None);
    assert_eq!(
        settle(&mut context(), &none, &|c| param.rewrite(c, wide())),
        Some("'a".to_owned())
    );
}

// ----- Bounds -----

#[test]
fn modifiers_of_bounds() {
    let text = |modifier, shape: Shape| {
        let bound = GenericBound::Trait(poly(&["A"]), modifier);
        settle(&mut context(), &plain, &|c| bound.rewrite(c, shape))
    };
    assert_eq!(text(TraitBoundModifier::Plain, wide()), Some("A".to_owned()));
    assert_eq!(text(TraitBoundModifier::Maybe, wide()), Some("?A".to_owned()));
    assert_eq!(text(TraitBoundModifier::MaybeConst, wide()), Some("?const A".to_owned()));
    assert_eq!(text(TraitBoundModifier::MaybeConstMaybe, wide()), Some("?const ?A".to_owned()));
    assert_eq!(text(TraitBoundModifier::Maybe, shape(1, 0, 0, 0)), None);
    assert_eq!(text(TraitBoundModifier::MaybeConst, shape(7, 0, 0, 0)), None);
    assert_eq!(text(TraitBoundModifier::MaybeConstMaybe, shape(8, 0, 0, 0)), None);
}

#[test]
fn bounds_keep_their_parentheses() {
    let respond = |query: &Query| match query {
        Query::Snippet { span } => {
            Answer::Source(if span.hi == 9 { "(?A)".to_owned() } else { "(A".to_owned() })
        }
        other => panic!("{:?}", other),
    };
    let bound = GenericBound::Trait(
        PolyTraitRef { span: span(5, 9), ..poly(&["A"]) },
        TraitBoundModifier::Maybe,
    );
    assert_eq!(
        settle(&mut context(), &respond, &|c| bound.rewrite(c, wide())),
        Some("(?A)".to_owned())
    );
    let bound = bound_at("A", 5, 8);
    assert_eq!(
        settle(&mut context(), &respond, &|c| bound.rewrite(c, wide())),
        Some("A".to_owned())
    );
}

#[test]
fn traits_with_lifetimes_of_their_own() {
    let mut poly = poly(&["A"]);
    poly.bound_generic_params = vec![lifetime_param("'a"), lifetime_param("'b")];
    let text = |shape: Shape| settle(&mut context(), &plain, &|c| poly.rewrite(c, shape));
    assert_eq!(text(wide()), Some("for<'a, 'b> A".to_owned()));
    assert_eq!(text(shape(13, 0, 0, 0)), Some("for<'a, 'b> A".to_owned()));
    assert_eq!(text(shape(12, 0, 0, 0)), None);
    assert_eq!(
        settle(&mut context(), &plain, &|c| poly.trait_ref.rewrite(c, wide())),
        Some("A".to_owned())
    );
}

#[test]
fn bounds_in_order() {
    let order = |bounds: Vec<GenericBound>| is_generic_bounds_in_order(&bounds);
    assert!(order(vec![]));
    assert!(order(vec![bound("A"), bound("B"), outlives("'a")]));
    assert!(order(vec![outlives("'a"), outlives("'b")]));
    assert!(!order(vec![outlives("'a"), bound("A")]));
    assert!(!order(vec![bound("A"), outlives("'a"), bound("B")]));
}

fn joined(context: &mut RewriteContext, bounds: Vec<GenericBound>, shape: Shape) -> Option<String> {
    settle(context, &plain, &|c| join_bounds(c, shape, &bounds, true))
}

#[test]
fn bounds_on_one_line() {
    let bounds = || vec![bound("Aa"), bound("Bb"), outlives("'a")];
    assert_eq!(joined(&mut context(), bounds(), wide()), Some("Aa + Bb + 'a".to_owned()));
    assert_eq!(
        joined(&mut context(), bounds(), shape(12, 0, 0, 0)),
        Some("Aa + Bb + 'a".to_owned())
    );
    let mut compressed = context();
    compressed.config.type_punctuation_density = TypeDensity::Compressed;
    assert_eq!(joined(&mut compressed, bounds(), wide()), Some("Aa+Bb+'a".to_owned()));
    assert_eq!(
        settle(&mut context(), &plain, &|c| rewrite_bounds(&vec![], c, wide())),
        Some("".to_owned())
    );
    assert_eq!(
        settle(&mut context(), &plain, &|c| rewrite_bounds(&bounds(), c, wide())),
        Some("Aa + Bb + 'a".to_owned())
    );
}

#[test]
fn bounds_on_several_lines() {
    let bounds = || vec![bound("Aa"), bound("Bb"), outlives("'a"), outlives("'b")];
    // A lifetime can be joined, a trait cannot.
    assert_eq!(
        joined(&mut context(), bounds(), shape(16, 4, 0, 9)),
        Some("Aa\n        + Bb\n        + 'a + 'b".to_owned())
    );
    // Lifetimes before traits each get a line.
    let bounds = || vec![bound("Aa"), outlives("'a"), bound("Bb")];
    assert_eq!(
        joined(&mut context(), bounds(), shape(11, 4, 0, 9)),
        Some("Aa\n        + 'a\n        + Bb".to_owned())
    );
    let without_indent = settle(&mut context(), &plain, &|c| {
        join_bounds(c, shape(11, 4, 0, 9), &bounds(), false)
    });
    assert_eq!(without_indent, Some("Aa\n    + 'a\n    + Bb".to_owned()));
    let forced = settle(&mut context(), &plain, &|c| {
        join_bounds_inner(c, wide(), &bounds(), true, true)
    });
    assert_eq!(forced, Some("Aa\n    + 'a\n    + Bb".to_owned()));
}

#[test]
fn broken_bounds_start_with_plus() {
    // A trait whose last line can be extended is joined, too.
    let mut first = poly(&["Aa"]);
    first.trait_ref.path.segments[0].args = Some(Box::new(angle(vec![AngleBracketedArg::Arg(
        GenericArg::Type(Box::new(ty_with_id(21, "T"))),
    )])));
    let bounds = vec![
        GenericBound::Trait(first, TraitBoundModifier::Plain),
        bound("Bb"),
        outlives("'a"),
        outlives("'b"),
    ];
    let respond = |query: &Query| match query {
        Query::AngleBrackets { .. } => Answer::Text(Some("<\nt21\n>".to_owned())),
        other => plain(other),
    };
    let text = |context: &mut RewriteContext| {
        settle(context, &respond, &|c| join_bounds_inner(c, wide(), &bounds, true, true))
    };
    assert_eq!(text(&mut context()), Some("Aa<\nt21\n> + Bb\n    + 'a + 'b".to_owned()));
    let mut compressed = context();
    compressed.config.type_punctuation_density = TypeDensity::Compressed;
    assert_eq!(text(&mut compressed), Some("Aa<\nt21\n>+Bb+'a+'b".to_owned()));
}

#[test]
fn bounds_are_broken_at_most_once() {
    // Lifetimes join the line before them, so breaking them changes nothing.
    let bounds = vec![outlives("'aaaa"), outlives("'bbbb")];
    assert_eq!(
        joined(&mut context(), bounds, shape(3, 4, 0, 9)),
        Some("'aaaa + 'bbbb".to_owned())
    );
}

#[test]
fn a_single_bound_is_broken_only_if_it_is_worth_it() {
    // One segment without several arguments: the layout stays as it is.
    let mut single = poly(&["Aa"]);
    single.trait_ref.path.segments[0].args = Some(Box::new(angle(vec![AngleBracketedArg::Arg(
        GenericArg::Type(Box::new(ty_with_id(21, "T"))),
    )])));
    let respond = |query: &Query| match query {
        Query::AngleBrackets { shape, .. } => {
            Answer::Text(Some(format!("<\n{}\n>", shape.indent.block_indent)))
        }
        other => plain(other),
    };
    let text = |poly: PolyTraitRef| {
        let bounds = vec![GenericBound::Trait(poly, TraitBoundModifier::Plain)];
        settle(&mut context(), &respond, &|c| join_bounds(c, shape(50, 4, 0, 9), &bounds, true))
    };
    assert_eq!(text(single), Some("Aa<\n4\n>".to_owned()));
    // Two arguments: it is laid out again one level deeper.
    let mut several = poly(&["Aa"]);
    several.trait_ref.path.segments[0].args = Some(Box::new(angle(vec![
        AngleBracketedArg::Arg(GenericArg::Type(Box::new(ty_with_id(21, "T")))),
        AngleBracketedArg::Arg(GenericArg::Type(Box::new(ty_with_id(22, "U")))),
    ])));
    assert_eq!(text(several), Some("Aa<\n8\n>".to_owned()));
    // Two segments: the same.
    let mut long = poly(&["a", "Aa"]);
    long.trait_ref.path.segments[1].args = Some(Box::new(angle(vec![AngleBracketedArg::Arg(
        GenericArg::Type(Box::new(ty_with_id(21, "T"))),
    )])));
    assert_eq!(text(long), Some("a::Aa<\n8\n>".to_owned()));
}

#[test]
fn bounds_keep_their_comments() {
    // A /* 1 */ + /* 2 */ B + C
    let bounds = vec![bound_at("A", 0, 1), bound_at("B", 20, 21), bound_at("C", 24, 25)];
    let respond = |query: &Query| match query {
        Query::Snippet { .. } => Answer::Source("X".to_owned()),
        Query::SpanBefore { span, token: Token::Plus } => {
            Answer::Position(if span.lo == 1 { 10 } else { 22 })
        }
        Query::SpanAfter { span, token: Token::Plus } => {
            Answer::Position(if span.lo == 1 { 11 } else { 23 })
        }
        Query::ContainsComment { span } => {
            assert!([(1, 10), (11, 20), (21, 22), (23, 24)].contains(&(span.lo, span.hi)));
            Answer::Flag(span.lo < 20)
        }
        Query::CombineWithComments { prev, next, span, .. } => {
            Answer::Text(Some(format!("{}/* {} */{}", prev, span.lo, next)))
        }
        other => panic!("{:?}", other),
    };
    assert_eq!(
        settle(&mut context(), &respond, &|c| join_bounds(c, wide(), &bounds, true)),
        Some("A/* 1 */+/* 11 */B + C".to_owned())
    );
}

// ----- Trait objects and impl Trait -----

#[test]
fn trait_objects() {
    let object = |syntax| ty(TyKind::TraitObject(vec![bound("A"), outlives("'a")], syntax));
    assert_eq!(rewrite(&object(TraitObjectSyntax::Dyn), wide()), Some("dyn A + 'a".to_owned()));
    assert_eq!(rewrite(&object(TraitObjectSyntax::Bare), wide()), Some("A + 'a".to_owned()));
    assert_eq!(rewrite(&object(TraitObjectSyntax::Dyn), shape(3, 0, 0, 0)), None);
}

#[test]
fn plus_behind_a_trait_object_in_a_macro_call() {
    let mut object = ty(TyKind::TraitObject(vec![bound("A")], TraitObjectSyntax::Dyn));
    object.span = span(4, 11);
    let text = |inside_macro, source: &'static str| {
        let mut context = context();
        context.inside_macro = inside_macro;
        let respond = move |query: &Query| match query {
            Query::Snippet { span } if span.hi == 11 => Answer::Source(source.to_owned()),
            other => plain(other),
        };
        settle(&mut context, &respond, &|c| object.rewrite(c, wide()))
    };
    assert_eq!(text(true, "dyn A +"), Some("dyn A+".to_owned()));
    assert_eq!(text(true, "dyn A"), Some("dyn A".to_owned()));
    assert_eq!(text(false, "dyn A +"), Some("dyn A".to_owned()));
}

#[test]
fn impl_trait() {
    let object = |bounds| ty(TyKind::ImplTrait(bounds));
    assert_eq!(rewrite(&object(vec![]), wide()), Some("impl".to_owned()));
    assert_eq!(rewrite(&object(vec![bound("A"), bound("B")]), wide()), Some("impl A + B".to_owned()));
    assert_eq!(rewrite(&object(vec![outlives("")]), wide()), Some("impl".to_owned()));
}

// ----- Where clauses -----

#[test]
fn bounded_lifetimes() {
    let text = |bounds: Vec<GenericBound>, shape: Shape| {
        settle(&mut context(), &plain, &|c| {
            rewrite_bounded_lifetime(&lifetime("'a"), &bounds, c, shape)
        })
    };
    assert_eq!(text(vec![], wide()), Some("'a".to_owned()));
    assert_eq!(text(vec![outlives("'b"), outlives("'c")], wide()), Some("'a: 'b + 'c".to_owned()));
    assert_eq!(text(vec![outlives("'b")], shape(3, 0, 0, 0)), None);
    let region = WherePredicate::RegionPredicate(WhereRegionPredicate {
        lifetime: lifetime("'a"),
        bounds: vec![outlives("'b")],
    });
    assert_eq!(
        settle(&mut context(), &plain, &|c| region.rewrite(c, wide())),
        Some("'a: 'b".to_owned())
    );
}

#[test]
fn where_predicates() {
    let respond = |query: &Query| match query {
        Query::AssignRhs { lhs, rhs, shape } => {
            assert_eq!(*shape, wide());
            Answer::Text(Some(match rhs {
                RhsKey::Bounds(id) => format!("{} b{}", lhs, id),
                RhsKey::Type(id) => format!("{} t{}", lhs, id),
            }))
        }
        other => plain(other),
    };
    let text = |predicate: WherePredicate| {
        settle(&mut context(), &respond, &|c| predicate.rewrite(c, wide()))
    };
    let bounded = |params| {
        WherePredicate::BoundPredicate(WhereBoundPredicate {
            id: 80,
            bound_generic_params: params,
            bounded_ty: Box::new(name("T")),
            bounds: vec![bound("A")],
        })
    };
    assert_eq!(text(bounded(vec![])), Some("T: b80".to_owned()));
    assert_eq!(text(bounded(vec![lifetime_param("'a")])), Some("for<'a> T: b80".to_owned()));
    let equal = WherePredicate::EqPredicate(WhereEqPredicate {
        lhs_ty: Box::new(name("T")),
        rhs_ty: Box::new(ty_with_id(81, "U")),
    });
    assert_eq!(text(equal), Some("T = t81".to_owned()));
}

// ----- Answers -----

#[test]
fn the_first_fitting_answer_counts() {
    let query = || Query::Snippet { span: span(1, 2) };
    let mut answers = Answers::new();
    assert!(answers.find(&query()).is_none());
    answers.record(query(), Answer::Flag(true));
    assert!(answers.find(&query()).is_none());
    answers.record(query(), Answer::Source("a".to_owned()));
    answers.record(query(), Answer::Source("b".to_owned()));
    assert!(matches!(answers.find(&query()), Some(Answer::Source(s)) if s == "a"));
    assert!(answers.find(&Query::Snippet { span: span(1, 3) }).is_none());
}

#[test]
fn queries_are_compared_by_what_they_ask() {
    let tuple = |types: Vec<u32>| Query::Tuple {
        types,
        span: no_span(),
        shape: wide(),
        is_singleton: false,
    };
    assert!(tuple(vec![1, 2]).same(&tuple(vec![1, 2])));
    assert!(!tuple(vec![1, 2]).same(&tuple(vec![1])));
    assert!(!tuple(vec![1, 2]).same(&tuple(vec![1, 3])));
    let assign = |lhs: &str, rhs| Query::AssignRhs { lhs: lhs.to_owned(), rhs, shape: wide() };
    assert!(assign("a", RhsKey::Type(1)).same(&assign("a", RhsKey::Type(1))));
    assert!(!assign("a", RhsKey::Type(1)).same(&assign("b", RhsKey::Type(1))));
    assert!(!assign("a", RhsKey::Type(1)).same(&assign("a", RhsKey::Bounds(1))));
    assert!(!tuple(vec![]).same(&assign("a", RhsKey::Type(1))));
    let pair = |infix: &str, separator_place| Query::Pair {
        ty: 1,
        expr: 2,
        parts: PairParts {
            prefix: "[".to_owned(),
            before_infix: String::new(),
            infix: infix.to_owned(),
            behind_infix: String::new(),
            suffix: "]".to_owned(),
        },
        shape: wide(),
        separator_place,
    };
    assert!(pair("; ", SeparatorPlace::Back).same(&pair("; ", SeparatorPlace::Back)));
    assert!(!pair("; ", SeparatorPlace::Back).same(&pair(", ", SeparatorPlace::Back)));
    assert!(!pair("; ", SeparatorPlace::Back).same(&pair("; ", SeparatorPlace::Front)));
    let mac = |extra_ident: Option<&str>| Query::Macro {
        mac: 1,
        extra_ident: extra_ident.map(|ident| ident.to_owned()),
        shape: wide(),
        position: MacroPosition::Expression,
    };
    assert!(mac(Some("a")).same(&mac(Some("a"))));
    assert!(!mac(Some("a")).same(&mac(None)));
    let expr = |expr_type| Query::Expr { expr: 1, expr_type, shape: wide() };
    assert!(!expr(ExprType::Statement).same(&expr(ExprType::SubExpression)));
}

#[test]
fn more_answers_do_not_change_a_layout() {
    let reference = reference(Some("'a"), Mutability::Mut);
    let mut context = context();
    let text = settle(&mut context, &plain, &|c| reference.rewrite(c, wide()));
    context.answers.record(Query::ContainsComment { span: no_span() }, Answer::Flag(true));
    context.answers.record(Query::ContainsComment { span: span(0, 6) }, Answer::Flag(true));
    context.answers.record(Query::Snippet { span: span(8, 9) }, Answer::Source("x".to_owned()));
    assert_eq!(reference.rewrite(&context, wide()).ok(), text);
}

#[test]
fn more_answers_do_not_change_paths_lifetimes_and_arguments() {
    let qself = QSelf { ty: Box::new(name("T")), position: 1 };
    let path = path(&["Trait", "Assoc"]);
    let bounds = vec![outlives("'b"), outlives("'c")];
    let arg = GenericArg::Const(AnonConst { id: 7, span: no_span() });
    let mut context = context();
    let rewrites: [&dyn Fn(&RewriteContext) -> Result<String, Stop>; 3] = [
        &|c| rewrite_path(c, PathContext::Type, Some(&qself), &path, wide()),
        &|c| rewrite_bounded_lifetime(&lifetime("'a"), &bounds, c, wide()),
        &|c| arg.rewrite(c, wide()),
    ];
    let expected = ["<T as Trait>::Assoc", "'a: 'b + 'c", "e7"];
    for (rewrite, expected) in rewrites.iter().zip(expected.iter()) {
        assert_eq!(settle(&mut context, &plain, *rewrite), Some((*expected).to_owned()));
    }
    let queries: Vec<Query> = vec![
        Query::ContainsComment { span: no_span() },
        Query::ContainsComment { span: span(6, 0) },
        Query::ContainsComment { span: span(0, 5) },
    ];
    for query in queries {
        context.answers.record(query, Answer::Flag(true));
    }
    context.answers.record(
        Query::Expr { expr: 7, expr_type: ExprType::SubExpression, shape: wide() },
        Answer::Text(Some("other".to_owned())),
    );
    for (rewrite, expected) in rewrites.iter().zip(expected.iter()) {
        assert_eq!(rewrite(&context).ok(), Some((*expected).to_owned()));
    }
}
