//! What the layout of types needs to know from elsewhere.
//!
//! A type can hold comments, expressions and macro calls, and its parts can be laid out as a
//! list. Neither the source text nor the layout of such things is part of this library. Where
//! a function needs to know something about them, it looks for the answer among those that
//! the context holds. If it is not there, the function stops with the [`Query`]. Its caller
//! finds the answer, records it with [`Answers::record`], and calls the function again.

use crate::ast::NodeId;
use crate::config::{Config, IndentStyle};
use crate::lists::{
    duplicate_items, items_view, opt_text, same_items, same_text, ListFormatting, ListItem,
    ListItemView,
};
use crate::shape::Shape;
use crate::span::{BytePos, Span};
use vstd::prelude::*;

verus! {

/// A token to be found in the source, outside of comments.
#[derive(Clone, Copy, Debug, PartialEq, Eq, Structural)]
pub enum Token {
    /// `(`
    OpenParen,
    /// `)`
    CloseParen,
    /// `&`
    Ampersand,
    /// `mut`
    Mut,
    /// `+`
    Plus,
}

/// A parameter within angle brackets: what it is, and which node.
#[derive(Clone, Copy, Debug, PartialEq, Eq, Structural)]
pub enum ParamKey {
    Const(NodeId),
    LifeTime(NodeId),
    Type(NodeId),
    Binding(NodeId),
}

/// What stands to the right of a colon or an equals sign.
#[derive(Clone, Copy, Debug, PartialEq, Eq, Structural)]
pub enum RhsKey {
    /// The bounds of the where predicate with this id.
    Bounds(NodeId),
    /// The type with this id.
    Type(NodeId),
}

/// An argument in a parameter list: which node, and where it stands in the source.
#[derive(Clone, Copy, Debug, PartialEq, Eq, Structural)]
pub struct ArgKey {
    pub id: NodeId,
    pub span: Span,
}

/// What an expression is part of.
#[derive(Clone, Copy, Debug, PartialEq, Eq, Structural)]
pub enum ExprType {
    Statement,
    SubExpression,
}

/// Where a macro call stands.
#[derive(Clone, Copy, Debug, PartialEq, Eq, Structural)]
pub enum MacroPosition {
    Item,
    Statement,
    Expression,
    Pat,
}

/// On which line a separator goes if what it separates takes up two.
#[derive(Clone, Copy, Debug, PartialEq, Eq, Structural)]
pub enum SeparatorPlace {
    Front,
    Back,
}

/// The texts around and between the two parts of a pair, from left to right.
#[derive(Debug)]
pub struct PairParts {
    pub prefix: String,
    pub before_infix: String,
    pub infix: String,
    pub behind_infix: String,
    pub suffix: String,
}

/// What [`PairParts`] hold.
pub struct PairPartsView {
    pub prefix: Seq<char>,
    pub before_infix: Seq<char>,
    pub infix: Seq<char>,
    pub behind_infix: Seq<char>,
    pub suffix: Seq<char>,
}

impl View for PairParts {
    type V = PairPartsView;

    open spec fn view(&self) -> PairPartsView {
        PairPartsView {
            prefix: self.prefix@,
            before_infix: self.before_infix@,
            infix: self.infix@,
            behind_infix: self.behind_infix@,
            suffix: self.suffix@,
        }
    }
}

impl PairParts {
    /// Whether the texts are the same.
    pub fn same(&self, other: &PairParts) -> (b: bool)
        ensures
            b == (self@ == other@),
    {
        self.prefix == other.prefix && self.before_infix == other.before_infix && self.infix
            == other.infix && self.behind_infix == other.behind_infix && self.suffix
            == other.suffix
    }
}

/// Something that has to be known before a type can be laid out.
#[derive(Debug)]
pub enum Query {
    /// The source text of a span. Answered by [`Answer::Source`].
    Snippet { span: Span },
    /// The source text of a span, if it can be had. Answered by [`Answer::Text`].
    SpanToSnippet { span: Span },
    /// Whether there is a comment within a span. Answered by [`Answer::Flag`].
    ContainsComment { span: Span },
    /// Where a token starts within a span. Answered by [`Answer::Position`].
    SpanBefore { span: Span, token: Token },
    /// Where a token ends within a span. Answered by [`Answer::Position`].
    SpanAfter { span: Span, token: Token },
    /// The layout of an expression. Answered by [`Answer::Text`], as all queries below are that
    /// say nothing else.
    Expr { expr: NodeId, expr_type: ExprType, shape: Shape },
    /// The layout of a macro call, with an identifier behind the `!` if there is one.
    Macro {
        mac: NodeId,
        extra_ident: Option<String>,
        shape: Shape,
        position: MacroPosition,
    },
    /// The layout of a call of `callee` with some expressions.
    Call { callee: String, exprs: Vec<NodeId>, span: Span, shape: Shape },
    /// The layout of a tuple of types.
    Tuple { types: Vec<NodeId>, span: Span, shape: Shape, is_singleton: bool },
    /// The layout of a type and an expression as a pair.
    Pair {
        ty: NodeId,
        expr: NodeId,
        parts: PairParts,
        shape: Shape,
        separator_place: SeparatorPlace,
    },
    /// The layout of parameters within angle brackets, behind `ident`.
    AngleBrackets { ident: String, params: Vec<ParamKey>, shape: Shape, span: Span },
    /// The layout of `lhs` followed by what stands to the right of it.
    AssignRhs { lhs: String, rhs: RhsKey, shape: Shape },
    /// Two texts put together with the comments between them, which `span` holds.
    CombineWithComments {
        prev: String,
        next: String,
        span: Span,
        shape: Shape,
        allow_extend: bool,
    },
    /// The layout of the attributes of a generic parameter.
    Attributes { param: NodeId, shape: Shape },
    /// The arguments between `lo` and the terminator before `hi`, each laid out within `shape`,
    /// with the comments around them. `leave_last` says whether the last one stays as it is.
    /// Answered by [`Answer::Items`].
    ItemizeList {
        args: Vec<ArgKey>,
        terminator: String,
        separator: String,
        shape: Shape,
        lo: BytePos,
        hi: BytePos,
        leave_last: bool,
    },
    /// The layout of the items of a list.
    WriteList { items: Vec<ListItem>, formatting: ListFormatting },
}

/// The answer to a [`Query`].
#[derive(Debug)]
pub enum Answer {
    /// The text that was asked for, or `None` if there is no layout within the shape.
    Text(Option<String>),
    Source(String),
    Position(BytePos),
    Flag(bool),
    Items(Vec<ListItem>),
}

/// What a [`Query`] asks.
pub enum QueryView {
    Snippet { span: Span },
    SpanToSnippet { span: Span },
    ContainsComment { span: Span },
    SpanBefore { span: Span, token: Token },
    SpanAfter { span: Span, token: Token },
    Expr { expr: NodeId, expr_type: ExprType, shape: Shape },
    Macro {
        mac: NodeId,
        extra_ident: Option<Seq<char>>,
        shape: Shape,
        position: MacroPosition,
    },
    Call { callee: Seq<char>, exprs: Seq<NodeId>, span: Span, shape: Shape },
    Tuple { types: Seq<NodeId>, span: Span, shape: Shape, is_singleton: bool },
    Pair {
        ty: NodeId,
        expr: NodeId,
        parts: PairPartsView,
        shape: Shape,
        separator_place: SeparatorPlace,
    },
    AngleBrackets { ident: Seq<char>, params: Seq<ParamKey>, shape: Shape, span: Span },
    AssignRhs { lhs: Seq<char>, rhs: RhsKey, shape: Shape },
    CombineWithComments {
        prev: Seq<char>,
        next: Seq<char>,
        span: Span,
        shape: Shape,
        allow_extend: bool,
    },
    Attributes { param: NodeId, shape: Shape },
    ItemizeList {
        args: Seq<ArgKey>,
        terminator: Seq<char>,
        separator: Seq<char>,
        shape: Shape,
        lo: BytePos,
        hi: BytePos,
        leave_last: bool,
    },
    WriteList { items: Seq<ListItemView>, formatting: ListFormatting },
}

/// What an [`Answer`] says.
pub enum AnswerView {
    Text(Option<Seq<char>>),
    Source(Seq<char>),
    Position(BytePos),
    Flag(bool),
    Items(Seq<ListItemView>),
}

impl View for Query {
    type V = QueryView;

    open spec fn view(&self) -> QueryView {
        match *self {
            Query::Snippet { span } => QueryView::Snippet { span },
            Query::SpanToSnippet { span } => QueryView::SpanToSnippet { span },
            Query::ContainsComment { span } => QueryView::ContainsComment { span },
            Query::SpanBefore { span, token } => QueryView::SpanBefore { span, token },
            Query::SpanAfter { span, token } => QueryView::SpanAfter { span, token },
            Query::Expr { expr, expr_type, shape } => QueryView::Expr { expr, expr_type, shape },
            Query::Macro { mac, extra_ident, shape, position } => QueryView::Macro {
                mac,
                extra_ident: opt_text(extra_ident),
                shape,
                position,
            },
            Query::Call { callee, exprs, span, shape } => QueryView::Call {
                callee: callee@,
                exprs: exprs@,
                span,
                shape,
            },
            Query::Tuple { types, span, shape, is_singleton } => QueryView::Tuple {
                types: types@,
                span,
                shape,
                is_singleton,
            },
            Query::Pair { ty, expr, parts, shape, separator_place } => QueryView::Pair {
                ty,
                expr,
                parts: parts@,
                shape,
                separator_place,
            },
            Query::AngleBrackets { ident, params, shape, span } => QueryView::AngleBrackets {
                ident: ident@,
                params: params@,
                shape,
                span,
            },
            Query::AssignRhs { lhs, rhs, shape } => QueryView::AssignRhs { lhs: lhs@, rhs, shape },
            Query::CombineWithComments { prev, next, span, shape, allow_extend } =>
                QueryView::CombineWithComments {
                prev: prev@,
                next: next@,
                span,
                shape,
                allow_extend,
            },
            Query::Attributes { param, shape } => QueryView::Attributes { param, shape },
            Query::ItemizeList { args, terminator, separator, shape, lo, hi, leave_last } =>
                QueryView::ItemizeList {
                args: args@,
                terminator: terminator@,
                separator: separator@,
                shape,
                lo,
                hi,
                leave_last,
            },
            Query::WriteList { items, formatting } => QueryView::WriteList {
                items: items_view(items@),
                formatting,
            },
        }
    }
}

impl View for Answer {
    type V = AnswerView;

    open spec fn view(&self) -> AnswerView {
        match *self {
            Answer::Text(text) => AnswerView::Text(opt_text(text)),
            Answer::Source(text) => AnswerView::Source(text@),
            Answer::Position(pos) => AnswerView::Position(pos),
            Answer::Flag(b) => AnswerView::Flag(b),
            Answer::Items(items) => AnswerView::Items(items_view(items@)),
        }
    }
}

/// Whether an answer is of the kind that a query asks for.
pub open spec fn fits(query: QueryView, answer: AnswerView) -> bool {
    match query {
        QueryView::Snippet { .. } => answer is Source,
        QueryView::ContainsComment { .. } => answer is Flag,
        QueryView::SpanBefore { .. } => answer is Position,
        QueryView::SpanAfter { .. } => answer is Position,
        QueryView::ItemizeList { .. } => answer is Items,
        _ => answer is Text,
    }
}

/// Whether an answer is of the kind that a query asks for.
fn answers(query: &Query, answer: &Answer) -> (b: bool)
    ensures
        b == fits(query@, answer@),
{
    match query {
        Query::Snippet { .. } => matches!(answer, Answer::Source(_)),
        Query::ContainsComment { .. } => matches!(answer, Answer::Flag(_)),
        Query::SpanBefore { .. } => matches!(answer, Answer::Position(_)),
        Query::SpanAfter { .. } => matches!(answer, Answer::Position(_)),
        Query::ItemizeList { .. } => matches!(answer, Answer::Items(_)),
        _ => matches!(answer, Answer::Text(_)),
    }
}

/// Whether two lists name the same nodes.
fn same_ids(a: &Vec<NodeId>, b: &Vec<NodeId>) -> (same: bool)
    ensures
        same == (a@ == b@),
{
    if a.len() != b.len() {
        return false;
    }
    let mut i: usize = 0;
    while i < a.len()
        invariant
            i <= a.len() == b.len(),
            forall|j: int| 0 <= j < i ==> a@[j] == b@[j],
        decreases a.len() - i,
    {
        if a[i] != b[i] {
            return false;
        }
        i = i + 1;
    }
    assert(a@ =~= b@);
    true
}

/// Whether two lists name the same parameters.
fn same_params(a: &Vec<ParamKey>, b: &Vec<ParamKey>) -> (same: bool)
    ensures
        same == (a@ == b@),
{
    if a.len() != b.len() {
        return false;
    }
    let mut i: usize = 0;
    while i < a.len()
        invariant
            i <= a.len() == b.len(),
            forall|j: int| 0 <= j < i ==> a@[j] == b@[j],
        decreases a.len() - i,
    {
        if a[i] != b[i] {
            return false;
        }
        i = i + 1;
    }
    assert(a@ =~= b@);
    true
}

/// Whether two lists name the same arguments.
fn same_args(a: &Vec<ArgKey>, b: &Vec<ArgKey>) -> (same: bool)
    ensures
        same == (a@ == b@),
{
    if a.len() != b.len() {
        return false;
    }
    let mut i: usize = 0;
    while i < a.len()
        invariant
            i <= a.len() == b.len(),
            forall|j: int| 0 <= j < i ==> a@[j] == b@[j],
        decreases a.len() - i,
    {
        if a[i] != b[i] {
            return false;
        }
        i = i + 1;
    }
    assert(a@ =~= b@);
    true
}

impl Query {
    /// Whether two queries ask the same.
    pub fn same(&self, other: &Query) -> (b: bool)
        ensures
            b == (self@ == other@),
    {
        match (self, other) {
            (Query::Snippet { span: a }, Query::Snippet { span: b }) => *a == *b,
            (Query::SpanToSnippet { span: a }, Query::SpanToSnippet { span: b }) => *a == *b,
            (Query::ContainsComment { span: a }, Query::ContainsComment { span: b }) => *a == *b,
            (
                Query::SpanBefore { span: a, token: s },
                Query::SpanBefore { span: b, token: t },
            ) => *a == *b && *s == *t,
            (Query::SpanAfter { span: a, token: s }, Query::SpanAfter { span: b, token: t }) => *a
                == *b && *s == *t,
            (
                Query::Expr { expr: a, expr_type: m, shape: s },
                Query::Expr { expr: b, expr_type: n, shape: t },
            ) => *a == *b && *m == *n && *s == *t,
            (
                Query::Macro { mac: a, extra_ident: m, shape: s, position: p },
                Query::Macro { mac: b, extra_ident: n, shape: t, position: q },
            ) => *a == *b && same_text(m, n) && *s == *t && *p == *q,
            (
                Query::Call { callee: a, exprs: m, span: sa, shape: s },
                Query::Call { callee: b, exprs: n, span: sb, shape: t },
            ) => *a == *b && same_ids(m, n) && *sa == *sb && *s == *t,
            (
                Query::Tuple { types: a, span: sa, shape: s, is_singleton: one },
                Query::Tuple { types: b, span: sb, shape: t, is_singleton: single },
            ) => same_ids(a, b) && *sa == *sb && *s == *t && *one == *single,
            (
                Query::Pair { ty: a, expr: m, parts: p, shape: s, separator_place: l },
                Query::Pair { ty: b, expr: n, parts: q, shape: t, separator_place: k },
            ) => *a == *b && *m == *n && p.same(q) && *s == *t && *l == *k,
            (
                Query::AngleBrackets { ident: m, params: a, shape: s, span: sa },
                Query::AngleBrackets { ident: n, params: b, shape: t, span: sb },
            ) => *m == *n && same_params(a, b) && *s == *t && *sa == *sb,
            (
                Query::AssignRhs { lhs: a, rhs: m, shape: s },
                Query::AssignRhs { lhs: b, rhs: n, shape: t },
            ) => *a == *b && *m == *n && *s == *t,
            (
                Query::CombineWithComments { prev: a, next: m, span: sa, shape: s, allow_extend: p },
                Query::CombineWithComments { prev: b, next: n, span: sb, shape: t, allow_extend: q },
            ) => *a == *b && *m == *n && *sa == *sb && *s == *t && *p == *q,
            (
                Query::Attributes { param: a, shape: s },
                Query::Attributes { param: b, shape: t },
            ) => *a == *b && *s == *t,
            (
                Query::ItemizeList {
                    args: a,
                    terminator: p,
                    separator: c,
                    shape: s,
                    lo: l,
                    hi: h,
                    leave_last: x,
                },
                Query::ItemizeList {
                    args: b,
                    terminator: q,
                    separator: d,
                    shape: t,
                    lo: m,
                    hi: k,
                    leave_last: y,
                },
            ) => same_args(a, b) && *p == *q && *c == *d && *s == *t && *l == *m && *h == *k && *x
                == *y,
            (
                Query::WriteList { items: a, formatting: f },
                Query::WriteList { items: b, formatting: g },
            ) => same_items(a, b) && *f == *g,
            _ => false,
        }
    }
}

/// The answers that have been found so far.
#[derive(Debug)]
pub struct Answers {
    pub entries: Vec<(Query, Answer)>,
}

/// The first answer to a query that is of the right kind.
pub open spec fn first_answer(entries: Seq<(Query, Answer)>, query: QueryView) -> Option<AnswerView>
    decreases entries.len(),
{
    if entries.len() == 0 {
        None
    } else {
        match first_answer(entries.drop_last(), query) {
            Some(answer) => Some(answer),
            None => if entries.last().0@ == query && fits(query, entries.last().1@) {
                Some(entries.last().1@)
            } else {
                None
            },
        }
    }
}

impl Answers {
    /// The answer to a query.
    pub open spec fn to(self, query: QueryView) -> Option<AnswerView> {
        first_answer(self.entries@, query)
    }

    /// No answers.
    pub fn new() -> (answers: Answers)
        ensures
            forall|query: QueryView| #[trigger] answers.to(query) is None,
    {
        Answers { entries: Vec::new() }
    }

    /// Adds the answer to a query. It counts if it is of the right kind and if there was no
    /// answer to the query before. No other answer changes.
    pub fn record(&mut self, query: Query, answer: Answer)
        ensures
            forall|q: QueryView| #[trigger]
                final(self).to(q) == (if old(self).to(q) is None && q == query@ && fits(q, answer@) {
                    Some(answer@)
                } else {
                    old(self).to(q)
                }),
    {
        self.entries.push((query, answer));
        assert(self.entries@.drop_last() =~= old(self).entries@);
    }

    /// The first answer to a query that is of the right kind.
    pub fn find(&self, query: &Query) -> (answer: Option<&Answer>)
        ensures
            match answer {
                Some(answer) => self.to(query@) == Some(answer@) && fits(query@, answer@),
                None => self.to(query@) is None,
            },
    {
        let mut i: usize = 0;
        while i < self.entries.len()
            invariant
                i <= self.entries.len(),
                first_answer(self.entries@.take(i as int), query@) is None,
            decreases self.entries.len() - i,
        {
            assert(self.entries@.take(i + 1).drop_last() =~= self.entries@.take(i as int));
            if self.entries[i].0.same(query) && answers(query, &self.entries[i].1) {
                proof {
                    lemma_first_answer_stays(
                        self.entries@,
                        i + 1,
                        query@,
                    );
                }
                return Some(&self.entries[i].1);
            }
            i = i + 1;
        }
        assert(self.entries@.take(i as int) =~= self.entries@);
        None
    }
}

/// The answer that is found among the first entries is the answer.
proof fn lemma_first_answer_stays(entries: Seq<(Query, Answer)>, n: int, query: QueryView)
    requires
        0 <= n <= entries.len(),
        first_answer(entries.take(n), query) is Some,
    ensures
        first_answer(entries, query) == first_answer(entries.take(n), query),
    decreases entries.len(),
{
    if n < entries.len() {
        assert(entries.drop_last().take(n) =~= entries.take(n));
        lemma_first_answer_stays(entries.drop_last(), n, query);
    } else {
        assert(entries.take(n) =~= entries);
    }
}

/// Why there is no layout.
#[derive(Debug)]
pub enum Stop {
    /// There is none within the shape.
    Failed,
    /// It depends on something that is not known yet.
    Ask(Query),
}

/// What a [`Stop`] says.
pub enum StopView {
    Failed,
    Ask(QueryView),
}

impl View for Stop {
    type V = StopView;

    open spec fn view(&self) -> StopView {
        match *self {
            Stop::Failed => StopView::Failed,
            Stop::Ask(query) => StopView::Ask(query@),
        }
    }
}

/// The layout of something as text, or why there is none.
pub type Layout = Result<Seq<char>, StopView>;

/// The layout that a function returns.
pub open spec fn layout(r: Result<String, Stop>) -> Layout {
    match r {
        Ok(text) => Ok(text@),
        Err(stop) => Err(stop@),
    }
}

/// What the layout of a type depends on besides the type and its shape.
#[derive(Debug)]
pub struct RewriteContext {
    pub config: Config,
    /// Whether the type stands in the arguments of a macro call.
    pub inside_macro: bool,
    pub answers: Answers,
}

impl RewriteContext {
    /// Whether the settings can be used.
    pub open spec fn valid(&self) -> bool {
        self.config.valid()
    }

    /// Whether lists are indented by one level.
    pub open spec fn block_style(&self) -> bool {
        self.config.indent_style == IndentStyle::Block
    }

    /// The text that answers a query.
    pub open spec fn text_for(&self, query: QueryView) -> Layout {
        match self.answers.to(query) {
            Some(AnswerView::Text(Some(text))) => Ok(text),
            Some(AnswerView::Text(None)) => Err(StopView::Failed),
            _ => Err(StopView::Ask(query)),
        }
    }

    /// The source text of a span.
    pub open spec fn source_of(&self, span: Span) -> Layout {
        match self.answers.to(QueryView::Snippet { span }) {
            Some(AnswerView::Source(text)) => Ok(text),
            _ => Err(StopView::Ask(QueryView::Snippet { span })),
        }
    }

    /// Whether there is a comment within a span.
    pub open spec fn commented(&self, span: Span) -> Result<bool, StopView> {
        match self.answers.to(QueryView::ContainsComment { span }) {
            Some(AnswerView::Flag(b)) => Ok(b),
            _ => Err(StopView::Ask(QueryView::ContainsComment { span })),
        }
    }

    /// The position that answers a query.
    pub open spec fn position_for(&self, query: QueryView) -> Result<BytePos, StopView> {
        match self.answers.to(query) {
            Some(AnswerView::Position(pos)) => Ok(pos),
            _ => Err(StopView::Ask(query)),
        }
    }

    /// Where a token starts within a span.
    pub open spec fn start_of(&self, span: Span, token: Token) -> Result<BytePos, StopView> {
        self.position_for(QueryView::SpanBefore { span, token })
    }

    /// Where a token ends within a span.
    pub open spec fn end_of(&self, span: Span, token: Token) -> Result<BytePos, StopView> {
        self.position_for(QueryView::SpanAfter { span, token })
    }

    /// The items that answer a query.
    pub open spec fn items_for(&self, query: QueryView) -> Result<Seq<ListItemView>, StopView> {
        match self.answers.to(query) {
            Some(AnswerView::Items(items)) => Ok(items),
            _ => Err(StopView::Ask(query)),
        }
    }

    /// Whether lists are indented by one level.
    pub fn use_block_indent(&self) -> (b: bool)
        ensures
            b == self.block_style(),
    {
        self.config.indent_style == IndentStyle::Block
    }

    /// The text that answers a query.
    pub fn text(&self, query: Query) -> (r: Result<String, Stop>)
        ensures
            layout(r) == self.text_for(query@),
    {
        match self.answers.find(&query) {
            Some(Answer::Text(Some(text))) => Ok(text.clone()),
            Some(Answer::Text(None)) => Err(Stop::Failed),
            _ => Err(Stop::Ask(query)),
        }
    }

    /// The source text of a span.
    pub fn snippet(&self, span: Span) -> (r: Result<String, Stop>)
        ensures
            layout(r) == self.source_of(span),
    {
        let query = Query::Snippet { span };
        match self.answers.find(&query) {
            Some(Answer::Source(text)) => Ok(text.clone()),
            _ => Err(Stop::Ask(query)),
        }
    }

    /// Whether there is a comment within a span.
    pub fn contains_comment(&self, span: Span) -> (r: Result<bool, Stop>)
        ensures
            match r {
                Ok(b) => self.commented(span) == Ok::<bool, StopView>(b),
                Err(stop) => self.commented(span) == Err::<bool, StopView>(stop@),
            },
    {
        let query = Query::ContainsComment { span };
        match self.answers.find(&query) {
            Some(Answer::Flag(b)) => Ok(*b),
            _ => Err(Stop::Ask(query)),
        }
    }

    /// The position that answers a query.
    fn position(&self, query: Query) -> (r: Result<BytePos, Stop>)
        ensures
            match r {
                Ok(pos) => self.position_for(query@) == Ok::<BytePos, StopView>(pos),
                Err(stop) => self.position_for(query@) == Err::<BytePos, StopView>(stop@),
            },
    {
        match self.answers.find(&query) {
            Some(Answer::Position(pos)) => Ok(*pos),
            _ => Err(Stop::Ask(query)),
        }
    }

    /// Where a token starts within a span.
    pub fn span_before(&self, span: Span, token: Token) -> (r: Result<BytePos, Stop>)
        ensures
            match r {
                Ok(pos) => self.start_of(span, token) == Ok::<BytePos, StopView>(pos),
                Err(stop) => self.start_of(span, token) == Err::<BytePos, StopView>(stop@),
            },
    {
        self.position(Query::SpanBefore { span, token })
    }

    /// Where a token ends within a span.
    pub fn span_after(&self, span: Span, token: Token) -> (r: Result<BytePos, Stop>)
        ensures
            match r {
                Ok(pos) => self.end_of(span, token) == Ok::<BytePos, StopView>(pos),
                Err(stop) => self.end_of(span, token) == Err::<BytePos, StopView>(stop@),
            },
    {
        self.position(Query::SpanAfter { span, token })
    }

    /// The items that answer a query.
    pub fn items(&self, query: Query) -> (r: Result<Vec<ListItem>, Stop>)
        ensures
            match r {
                Ok(items) => self.items_for(query@) == Ok::<Seq<ListItemView>, StopView>(
                    items_view(items@),
                ),
                Err(stop) => self.items_for(query@) == Err::<Seq<ListItemView>, StopView>(stop@),
            },
    {
        match self.answers.find(&query) {
            Some(Answer::Items(items)) => Ok(duplicate_items(items)),
            _ => Err(Stop::Ask(query)),
        }
    }
}

} // verus!
