//! What texts, settings, shapes, lists and answers have to satisfy.

use crate::ast::{AngleBracketedArg, GenericArg, Param, Ty};
use crate::config::{colon, Config, IndentStyle};
use crate::lists::{
    comment_room, is_line_comment, items_room, items_view, list_room, list_tactic, opt_multiline,
    opt_text, DefinitiveListTactic, ListItem, ListItemView,
};
use crate::model::{arg_tactic, fn_param_keys, param_key, ty_keys};
use crate::query::{
    first_answer, fits, layout, Answer, AnswerView, ArgKey, ParamKey, Query, QueryView,
    RewriteContext, Stop, StopView, Token,
};
use crate::shape::{less, Indent, Shape};
use crate::span::{between, BytePos, Span};
use crate::text::{
    byte_len, display_width, first_line, is_closing, is_extendable, is_multiline, is_white_space,
    joined, last_line, repeated, trimmed, trimmed_end, trimmed_start,
};
use vstd::prelude::*;

verus! {

// ----- Text -----

/// The white space of ASCII is the space and the characters from the tab to the carriage
/// return. Beyond ASCII it is the next line, the spaces of a given or no width break, the line
/// separator and the paragraph separator.
pub proof fn law_white_space(c: char)
    ensures
        (c as u32) < 0x80 ==> (is_white_space(c) <==> c == ' ' || 9 <= (c as u32) <= 13),
        (c as u32) >= 0x80 ==> (is_white_space(c) <==> 0x2000 <= (c as u32) <= 0x200a || {
            let n = c as u32;
            n == 0x85 || n == 0xa0 || n == 0x1680 || n == 0x2028 || n == 0x2029 || n == 0x202f || n
                == 0x205f || n == 0x3000
        }),
{
}

/// Trimming the start takes away white space and nothing else, and all of it.
pub proof fn law_trimmed_start(s: Seq<char>)
    ensures
        ({
            let t = trimmed_start(s);
            let k = s.len() - t.len();
            &&& 0 <= k
            &&& t == s.skip(k)
            &&& forall|i: int| 0 <= i < k ==> is_white_space(#[trigger] s[i])
            &&& t.len() > 0 ==> !is_white_space(t[0])
        }),
    decreases s.len(),
{
    if s.len() > 0 && is_white_space(s[0]) {
        let rest = s.drop_first();
        law_trimmed_start(rest);
        let t = trimmed_start(rest);
        assert(trimmed_start(s) == t);
        let k = s.len() - t.len();
        assert(rest.skip(k - 1) =~= s.skip(k));
        assert forall|i: int| 0 <= i < k implies is_white_space(#[trigger] s[i]) by {
            if i > 0 {
                assert(s[i] == rest[i - 1]);
            }
        }
    } else {
        assert(s.skip(0) =~= s);
    }
}

/// Trimming the end takes away white space and nothing else, and all of it.
pub proof fn law_trimmed_end(s: Seq<char>)
    ensures
        ({
            let t = trimmed_end(s);
            &&& t.len() <= s.len()
            &&& t == s.take(t.len() as int)
            &&& forall|i: int| t.len() <= i < s.len() ==> is_white_space(#[trigger] s[i])
            &&& t.len() > 0 ==> !is_white_space(t.last())
        }),
    decreases s.len(),
{
    if s.len() > 0 && is_white_space(s.last()) {
        let rest = s.drop_last();
        law_trimmed_end(rest);
        let t = trimmed_end(rest);
        assert(rest.take(t.len() as int) =~= s.take(t.len() as int));
        assert forall|i: int| t.len() <= i < s.len() implies is_white_space(#[trigger] s[i]) by {
            if i < s.len() - 1 {
                assert(s[i] == rest[i]);
            }
        }
    } else {
        assert(s.take(s.len() as int) =~= s);
    }
}

/// Trimming takes away the white space on both sides and nothing else.
pub proof fn law_trimmed(s: Seq<char>)
    ensures
        exists|k: int|
            #![trigger s.subrange(k, k + trimmed(s).len())]
            {
                let t = trimmed(s);
                &&& 0 <= k
                &&& k + t.len() <= s.len()
                &&& t == s.subrange(k, k + t.len())
                &&& forall|i: int| 0 <= i < k ==> is_white_space(#[trigger] s[i])
                &&& forall|i: int|
                    k + t.len() <= i < s.len() ==> is_white_space(#[trigger] s[i])
                &&& t.len() > 0 ==> !is_white_space(t[0]) && !is_white_space(t.last())
            },
{
    law_trimmed_start(s);
    let u = trimmed_start(s);
    law_trimmed_end(u);
    let t = trimmed_end(u);
    let k = s.len() - u.len();
    assert(t =~= s.subrange(k, k + trimmed(s).len()));
    if t.len() > 0 {
        assert(t[0] == u[0]);
    }
    assert forall|i: int| k + t.len() <= i < s.len() implies is_white_space(#[trigger] s[i]) by {
        assert(s[i] == u[i - k]);
    }
}

/// A text has several lines if there is a line break in it. The first line goes up to the
/// first line break, and the last line starts behind the last one.
pub proof fn law_lines(s: Seq<char>)
    ensures
        is_multiline(s) <==> exists|i: int| 0 <= i < s.len() && s[i] == '\n',
        !is_multiline(s) ==> first_line(s) == s && last_line(s) == s,
        ({
            let n = first_line(s).len() as int;
            &&& n <= s.len()
            &&& first_line(s) == s.take(n)
            &&& forall|i: int| 0 <= i < n ==> s[i] != '\n'
            &&& n < s.len() ==> s[n] == '\n'
        }),
        ({
            let k = s.len() - last_line(s).len();
            &&& 0 <= k
            &&& last_line(s) == s.skip(k)
            &&& forall|i: int| k <= i < s.len() ==> s[i] != '\n'
            &&& k > 0 ==> s[k - 1] == '\n'
        }),
{
    s.index_of_first_ensures('\n');
    s.index_of_last_ensures('\n');
    assert(s.take(s.len() as int) =~= s);
    assert(s.skip(0) =~= s);
    if !s.contains('\n') {
        assert forall|i: int| 0 <= i < s.len() implies s[i] != '\n' by {
            if s[i] == '\n' {
                assert(s.contains('\n'));
            }
        }
    }
}

/// The last line of a text can be extended exactly if the text ends a raw string or the line
/// holds nothing but white space and the brackets, angles and question marks that close
/// something.
pub proof fn law_extendable(s: Seq<char>)
    ensures
        is_extendable(s) <==> (s.len() >= 2 && s[s.len() - 2] == '"' && s[s.len() - 1] == '#')
            || forall|i: int|
            0 <= i < last_line(s).len() ==> ({
                let c = #[trigger] last_line(s)[i];
                seq!['(', ')', ']', '}', '?', '>'].contains(c) || is_white_space(c)
            }),
{
    reveal_strlit("\"#");
    let n = s.len() as int;
    if n >= 2 && s[n - 2] == '"' && s[n - 1] == '#' {
        assert(s.subrange(n - 2, n) =~= "\"#"@);
    }
    if "\"#"@.is_suffix_of(s) {
        assert(s.subrange(n - 2, n)[0] == '"');
        assert(s.subrange(n - 2, n)[1] == '#');
    }
    let closing = seq!['(', ')', ']', '}', '?', '>'];
    assert forall|c: char| #[trigger] closing.contains(c) <==> c == '(' || c == ')' || c == ']' || c
        == '}' || c == '?' || c == '>' by {
        assert(closing[0] == '(' && closing[1] == ')' && closing[2] == ']' && closing[3] == '}'
            && closing[4] == '?' && closing[5] == '>');
    }
    if forall|i: int| 0 <= i < last_line(s).len() ==> is_closing(#[trigger] last_line(s)[i]) {
        assert forall|i: int| 0 <= i < last_line(s).len() implies ({
            let c = #[trigger] last_line(s)[i];
            closing.contains(c) || is_white_space(c)
        }) by {
            assert(is_closing(last_line(s)[i]));
        }
    }
}

/// Texts that are joined are separated wherever they meet, and nowhere else.
pub proof fn law_joined(a: Seq<Seq<char>>, b: Seq<Seq<char>>, separator: Seq<char>)
    ensures
        joined(Seq::empty(), separator) == Seq::<char>::empty(),
        a.len() == 1 ==> joined(a, separator) == a[0],
        a.len() > 0 && b.len() > 0 ==> joined(a + b, separator) == joined(a, separator) + separator
            + joined(b, separator),
    decreases b.len(),
{
    if a.len() > 0 && b.len() > 0 {
        assert((a + b).drop_last() =~= a + b.drop_last());
        assert((a + b).last() == b.last());
        if b.len() == 1 {
            assert(a + b.drop_last() =~= a);
        } else {
            law_joined(a, b.drop_last(), separator);
            assert(joined(a + b, separator) =~= joined(a, separator) + separator + joined(
                b,
                separator,
            ));
        }
    }
}

/// A repeated character stands as often as it is to.
pub proof fn law_repeated(c: char, n: nat)
    ensures
        repeated(c, n).len() == n,
        forall|i: int| 0 <= i < n ==> repeated(c, n)[i] == c,
{
}

// ----- Settings and positions -----

/// A colon has a space before it and a space behind it exactly where the settings ask for one.
pub proof fn law_colon(config: Config)
    ensures
        ({
            let text = colon(config);
            let before: int = if config.space_before_colon {
                1
            } else {
                0
            };
            let behind: int = if config.space_after_colon {
                1
            } else {
                0
            };
            &&& text.len() == before + 1 + behind
            &&& text[before] == ':'
            &&& config.space_before_colon ==> text[0] == ' '
            &&& config.space_after_colon ==> text.last() == ' '
            &&& trimmed_end(text) == text.take(before + 1)
        }),
{
    reveal_strlit(" : ");
    reveal_strlit(" :");
    reveal_strlit(": ");
    reveal_strlit(":");
    law_trimmed_end(colon(config));
}

/// What stands between two positions starts at the smaller and ends at the larger one.
pub proof fn law_between(a: BytePos, b: BytePos)
    ensures
        between(a, b) == between(b, a),
        between(a, b).lo <= between(a, b).hi,
        a <= b ==> between(a, b) == (Span { lo: a, hi: b }),
{
}

// ----- Shapes -----

/// Taking columns from the end of a line changes only the width, and works as long as there
/// are enough of them.
pub proof fn law_narrower(shape: Shape, n: int)
    requires
        0 <= n,
    ensures
        shape.narrower(n) is Some <==> n <= shape.width,
        shape.narrower(n) matches Some(s) ==> s.width + n == shape.width && s.indent == shape.indent
            && s.offset == shape.offset,
{
}

/// Taking columns from the start of the first line moves the start by as much, and leaves the
/// other lines where they are.
pub proof fn law_further(shape: Shape, n: int)
    requires
        0 <= n,
    ensures
        shape.further(n) is Some <==> n <= shape.width && shape.offset + n <= usize::MAX,
        shape.further(n) matches Some(s) ==> s.width + n == shape.width && s.indent == shape.indent
            && s.offset == shape.offset + n,
{
}

/// Taking columns from the start of all lines moves them all by as much.
pub proof fn law_shrunk(shape: Shape, n: int)
    requires
        0 <= n,
    ensures
        shape.shrunk(n) is Some <==> n <= shape.width && shape.offset + n <= usize::MAX
            && shape.indent.alignment + n <= usize::MAX,
        shape.shrunk(n) matches Some(s) ==> s.width + n == shape.width && s.offset == shape.offset
            + n && s.indent.alignment == shape.indent.alignment + n && s.indent.block_indent
            == shape.indent.block_indent,
{
}

/// Aligning a shape behind its start keeps its width, and puts the start and all lines there.
pub proof fn law_visual(shape: Shape, n: int)
    requires
        0 <= n,
    ensures
        shape.visual(n) is Some <==> shape.offset + n <= usize::MAX,
        shape.visual(n) matches Some(s) ==> s.width == shape.width && s.offset == shape.offset + n
            && s.indent.alignment == shape.offset + n && s.indent.block_indent
            == shape.indent.block_indent,
{
}

/// Indenting a shape keeps its width. What is aligned is aligned further, and all else is
/// indented further and starts there.
pub proof fn law_indented_by(shape: Shape, n: int)
    requires
        0 <= n,
    ensures
        shape.indented_by(n) is Some <==> (if shape.indent.alignment == 0 {
            shape.indent.block_indent + n <= usize::MAX
        } else {
            shape.indent.alignment + n <= usize::MAX
        }),
        shape.indented_by(n) matches Some(s) ==> {
            &&& s.width == shape.width
            &&& s.offset == s.indent.alignment
            &&& s.indent.block_indent + s.indent.alignment == shape.indent.block_indent
                + shape.indent.alignment + n
            &&& shape.indent.alignment == 0 ==> s.indent.alignment == 0
            &&& shape.indent.alignment > 0 ==> s.indent.block_indent == shape.indent.block_indent
        },
{
}

/// Within brackets there is less width, and all lines are aligned behind the opening one.
pub proof fn law_inside(shape: Shape, taken: int, left: int)
    requires
        0 <= taken,
        0 <= left,
    ensures
        shape.inside(taken, left) is Some <==> taken <= shape.width && shape.indent.alignment + left
            <= usize::MAX,
        shape.inside(taken, left) matches Some(s) ==> s.width + taken == shape.width
            && s.indent.alignment == shape.indent.alignment + left && s.offset == s.indent.alignment
            && s.indent.block_indent == shape.indent.block_indent,
{
}

/// A full line is as wide as the settings allow, less its indent. The start and the indent
/// stay.
pub proof fn law_full_width(shape: Shape, config: Config)
    ensures
        shape.full_width(config).indent == shape.indent,
        shape.full_width(config).offset == shape.offset,
        ({
            let taken = shape.indent.block_indent + shape.indent.alignment;
            shape.full_width(config).width == (if taken <= config.max_width {
                config.max_width - taken
            } else {
                0
            })
        }),
        shape.unaligned().indent.alignment == 0,
        shape.unaligned().indent.block_indent == shape.indent.block_indent,
        shape.unaligned().width == shape.width,
        shape.unaligned().offset == shape.offset,
        forall|width: usize, indent: Indent|
            (#[trigger] Shape::behind(width, indent)).width == width && Shape::behind(
                width,
                indent,
            ).indent == indent && Shape::behind(width, indent).offset == indent.alignment,
{
}

/// A text on one line takes up its bytes. Of a text on several lines, the last one counts, as
/// far as it goes beyond the start of the shape.
pub proof fn law_taken_by(shape: Shape, text: Seq<char>)
    requires
        byte_len(last_line(text)) <= usize::MAX,
    ensures
        !is_multiline(text) ==> shape.taken_by(text) == byte_len(text),
        is_multiline(text) ==> ({
            let start = shape.indent.block_indent + shape.offset;
            shape.taken_by(text) == (if byte_len(last_line(text)) >= start {
                byte_len(last_line(text)) - start
            } else {
                0
            })
        }),
{
}

/// Indenting by one level adds the width of a tab to the whole levels.
pub proof fn law_deeper(indent: Indent, config: Config, n: int)
    requires
        0 <= n,
    ensures
        indent.deeper(config) is Some <==> indent.block_indent + config.tab_spaces <= usize::MAX,
        indent.deeper(config) matches Some(i) ==> i.block_indent == indent.block_indent
            + config.tab_spaces && i.alignment == indent.alignment,
        indent.aligned(n) is Some <==> indent.alignment + n <= usize::MAX,
        indent.aligned(n) matches Some(i) ==> i.block_indent == indent.block_indent && i.alignment
            == indent.alignment + n,
{
}

/// A line is indented with spaces, or with tabs for the whole levels and spaces behind them. A
/// new line is a line break and the indent.
pub proof fn law_indentation(shape: Shape, config: Config)
    requires
        config.valid(),
    ensures
        ({
            let indent = shape.indent;
            let text = indent.text(config);
            let tabs: int = if config.hard_tabs {
                (indent.block_indent / config.tab_spaces) as int
            } else {
                0
            };
            &&& config.hard_tabs ==> text.len() == tabs + indent.alignment
            &&& !config.hard_tabs ==> text.len() == indent.block_indent + indent.alignment
            &&& forall|i: int| 0 <= i < tabs ==> text[i] == '\t'
            &&& forall|i: int| tabs <= i < text.len() ==> text[i] == ' '
            &&& indent.new_line(config).len() == text.len() + 1
            &&& indent.new_line(config)[0] == '\n'
            &&& indent.new_line(config).skip(1) == text
            &&& shape.start_line(config) == (Indent {
                block_indent: indent.block_indent,
                alignment: shape.offset,
            }).new_line(config)
        }),
{
    let indent = shape.indent;
    assert(indent.new_line(config).skip(1) =~= indent.text(config));
    if config.hard_tabs {
        let (a, b) = (indent.block_indent, config.tab_spaces);
        assert(a / b >= 0);
    }
}

// ----- Lists -----

/// A comment takes up its text without the white space around it and six columns more, if
/// there is any text. It runs to the end of its line if it starts with two slashes.
pub proof fn law_comments_of_items(comment: Option<Seq<char>>)
    ensures
        comment is None ==> comment_room(comment) == 0 && !is_line_comment(comment)
            && !opt_multiline(comment),
        comment matches Some(s) ==> {
            &&& trimmed(s).len() == 0 ==> comment_room(comment) == 0
            &&& trimmed(s).len() > 0 ==> comment_room(comment) == byte_len(trimmed(s)) + 6
            &&& is_line_comment(comment) <==> ({
                let t = trimmed_start(s);
                t.len() >= 2 && t[0] == '/' && t[1] == '/'
            })
            &&& opt_multiline(comment) == is_multiline(s)
        },
{
    reveal_strlit("//");
    if let Some(s) = comment {
        lemma_byte_len_positive(trimmed(s));
        let t = trimmed_start(s);
        if t.len() >= 2 && t[0] == '/' && t[1] == '/' {
            assert(t.subrange(0, 2) =~= "//"@);
        }
        if "//"@.is_prefix_of(t) {
            assert(t.subrange(0, 2)[0] == '/' && t.subrange(0, 2)[1] == '/');
        }
    }
}

/// A text takes up bytes unless it is empty.
proof fn lemma_byte_len_positive(s: Seq<char>)
    ensures
        byte_len(s) >= s.len(),
        s.len() == 0 ==> byte_len(s) == 0,
    decreases s.len(),
{
    if s.len() > 0 {
        lemma_byte_len_positive(s.drop_first());
        crate::text::lemma_byte_len_add(seq![s[0]], s.drop_first());
        assert(seq![s[0]] + s.drop_first() =~= s);
        reveal_with_fuel(vstd::utf8::encode_utf8, 2);
    }
}

/// The room for a list is the sum of the room for its items, and two columns between any two.
pub proof fn law_list_room(items: Seq<ListItemView>, item: ListItemView)
    ensures
        items_room(Seq::empty()) == 0,
        items_room(items.push(item)) == items_room(items) + item.room(),
        list_room(Seq::empty()) == 0,
        list_room(items.push(item)) == items_room(items.push(item)) + 2 * items.len(),
        item.room() == comment_room(item.pre_comment) + comment_room(item.post_comment) + (
        match item.item {
            Some(s) => display_width(s),
            None => 0,
        }),
        item.has_line_comment() <==> is_line_comment(item.pre_comment) || is_line_comment(
            item.post_comment,
        ),
        item.breaks() <==> opt_multiline(item.item) || opt_multiline(item.pre_comment)
            || opt_multiline(item.post_comment),
{
    assert(items.push(item).drop_last() =~= items);
}

/// A list goes on one line exactly if it fits, no item of it has several lines, and no comment
/// in it runs to the end of its line. The closing bracket gets a line of its own only in block
/// style, behind a list that does not go on one line.
pub proof fn law_list_on_one_line(items: Seq<ListItemView>, width: usize)
    ensures
        list_tactic(items, width) == DefinitiveListTactic::Horizontal <==> list_room(items) <= width
            && forall|i: int|
            0 <= i < items.len() ==> !(#[trigger] items[i]).breaks()
                && !items[i].has_line_comment(),
        DefinitiveListTactic::Vertical.breaks_at_end(IndentStyle::Block),
        !DefinitiveListTactic::Horizontal.breaks_at_end(IndentStyle::Block),
        !DefinitiveListTactic::Vertical.breaks_at_end(IndentStyle::Visual),
        !DefinitiveListTactic::Horizontal.breaks_at_end(IndentStyle::Visual),
{
}

/// The arguments of a function go on one line exactly if the return type does and if a list of
/// them does, in what the return type and two columns more leave of the width.
pub proof fn law_arguments_on_one_line(
    items: Seq<ListItemView>,
    output: Seq<char>,
    shape: Shape,
)
    ensures
        arg_tactic(items, output, shape) == DefinitiveListTactic::Horizontal <==> {
            &&& !is_multiline(output)
            &&& list_room(items) == 0 || list_room(items) + byte_len(output) + 2 <= shape.width
            &&& forall|i: int|
                0 <= i < items.len() ==> !(#[trigger] items[i]).breaks()
                    && !items[i].has_line_comment()
        },
{
}

// ----- Queries and answers -----

/// Each kind of query has one kind of answer.
pub proof fn law_kinds_of_answers(query: QueryView, answer: AnswerView)
    ensures
        fits(query, answer) ==> {
            &&& query is Snippet <==> answer is Source
            &&& query is ContainsComment <==> answer is Flag
            &&& (query is SpanBefore || query is SpanAfter) <==> answer is Position
            &&& query is ItemizeList <==> answer is Items
        },
        answer is Text ==> (fits(query, answer) <==> !(query is Snippet || query is ContainsComment
            || query is SpanBefore || query is SpanAfter || query is ItemizeList)),
        answer is Source && query is Snippet ==> fits(query, answer),
        answer is Flag && query is ContainsComment ==> fits(query, answer),
        answer is Position && (query is SpanBefore || query is SpanAfter) ==> fits(query, answer),
        answer is Items && query is ItemizeList ==> fits(query, answer),
{
}

/// The first answer of the right kind counts, and no later one changes it.
pub proof fn law_first_answer_counts(
    entries: Seq<(Query, Answer)>,
    query: Query,
    answer: Answer,
    asked: QueryView,
)
    ensures
        first_answer(Seq::empty(), asked) is None,
        first_answer(entries, asked) is Some ==> first_answer(entries.push((query, answer)), asked)
            == first_answer(entries, asked),
        query@ != asked || !fits(asked, answer@) ==> first_answer(
            entries.push((query, answer)),
            asked,
        ) == first_answer(entries, asked),
        first_answer(entries, asked) is None && query@ == asked && fits(asked, answer@)
            ==> first_answer(entries.push((query, answer)), asked) == Some(answer@),
{
    assert(entries.push((query, answer)).drop_last() =~= entries);
}

/// What was answered is known, and what was not answered is asked for.
pub proof fn law_context_knows_answers(
    context: &RewriteContext,
    query: QueryView,
    span: Span,
    token: Token,
)
    ensures
        context.answers.to(query) == first_answer(context.answers.entries@, query),
        context.answers.to(query) matches Some(AnswerView::Text(Some(t))) ==> context.text_for(
            query,
        ) == Ok::<Seq<char>, StopView>(t),
        context.answers.to(query) matches Some(AnswerView::Text(None)) ==> context.text_for(query)
            == Err::<Seq<char>, StopView>(StopView::Failed),
        context.answers.to(query) is None ==> context.text_for(query) == Err::<Seq<char>, StopView>(
            StopView::Ask(query),
        ),
        context.answers.to(query) matches Some(AnswerView::Items(items)) ==> context.items_for(
            query,
        ) == Ok::<Seq<ListItemView>, StopView>(items),
        context.answers.to(query) is None ==> context.items_for(query) == Err::<
            Seq<ListItemView>,
            StopView,
        >(StopView::Ask(query)),
        context.answers.to(QueryView::Snippet { span }) matches Some(AnswerView::Source(t))
            ==> context.source_of(span) == Ok::<Seq<char>, StopView>(t),
        context.answers.to(QueryView::Snippet { span }) is None ==> context.source_of(span)
            == Err::<Seq<char>, StopView>(StopView::Ask(QueryView::Snippet { span })),
        context.answers.to(QueryView::ContainsComment { span }) matches Some(AnswerView::Flag(b))
            ==> context.commented(span) == Ok::<bool, StopView>(b),
        context.answers.to(QueryView::ContainsComment { span }) is None ==> context.commented(span)
            == Err::<bool, StopView>(StopView::Ask(QueryView::ContainsComment { span })),
        context.answers.to(QueryView::SpanBefore { span, token }) matches Some(
            AnswerView::Position(pos),
        ) ==> context.start_of(span, token) == Ok::<BytePos, StopView>(pos),
        context.answers.to(QueryView::SpanBefore { span, token }) is None ==> context.start_of(
            span,
            token,
        ) == Err::<BytePos, StopView>(StopView::Ask(QueryView::SpanBefore { span, token })),
        context.answers.to(QueryView::SpanAfter { span, token }) matches Some(
            AnswerView::Position(pos),
        ) ==> context.end_of(span, token) == Ok::<BytePos, StopView>(pos),
        context.answers.to(QueryView::SpanAfter { span, token }) is None ==> context.end_of(
            span,
            token,
        ) == Err::<BytePos, StopView>(StopView::Ask(QueryView::SpanAfter { span, token })),
        context.block_style() <==> context.config.indent_style == IndentStyle::Block,
        context.valid() <==> !context.config.hard_tabs || context.config.tab_spaces > 0,
{
}

/// Queries that ask the same agree in all that they hold.
pub proof fn law_queries_hold_what_they_ask(a: Query, b: Query)
    requires
        a@ == b@,
    ensures
        match (a, b) {
            (Query::Snippet { span: s }, Query::Snippet { span: t }) => s == t,
            (Query::SpanToSnippet { span: s }, Query::SpanToSnippet { span: t }) => s == t,
            (Query::ContainsComment { span: s }, Query::ContainsComment { span: t }) => s == t,
            (
                Query::SpanBefore { span: s, token: m },
                Query::SpanBefore { span: t, token: n },
            ) => s == t && m == n,
            (
                Query::SpanAfter { span: s, token: m },
                Query::SpanAfter { span: t, token: n },
            ) => s == t && m == n,
            (
                Query::Expr { expr: m, expr_type: x, shape: s },
                Query::Expr { expr: n, expr_type: y, shape: t },
            ) => m == n && x == y && s == t,
            (
                Query::Macro { mac: m, extra_ident: x, shape: s, position: p },
                Query::Macro { mac: n, extra_ident: y, shape: t, position: q },
            ) => m == n && opt_text(x) == opt_text(y) && s == t && p == q,
            (
                Query::Call { callee: m, exprs: x, span: p, shape: s },
                Query::Call { callee: n, exprs: y, span: q, shape: t },
            ) => m@ == n@ && x@ == y@ && p == q && s == t,
            (
                Query::Tuple { types: m, span: p, shape: s, is_singleton: x },
                Query::Tuple { types: n, span: q, shape: t, is_singleton: y },
            ) => m@ == n@ && p == q && s == t && x == y,
            (
                Query::Pair { ty: m, expr: x, parts: p, shape: s, separator_place: l },
                Query::Pair { ty: n, expr: y, parts: q, shape: t, separator_place: k },
            ) => m == n && x == y && s == t && l == k && p.prefix@ == q.prefix@ && p.before_infix@
                == q.before_infix@ && p.infix@ == q.infix@ && p.behind_infix@ == q.behind_infix@
                && p.suffix@ == q.suffix@,
            (
                Query::AngleBrackets { ident: m, params: x, shape: s, span: p },
                Query::AngleBrackets { ident: n, params: y, shape: t, span: q },
            ) => m@ == n@ && x@ == y@ && s == t && p == q,
            (
                Query::AssignRhs { lhs: m, rhs: x, shape: s },
                Query::AssignRhs { lhs: n, rhs: y, shape: t },
            ) => m@ == n@ && x == y && s == t,
            (
                Query::CombineWithComments { prev: m, next: x, span: p, shape: s, allow_extend: l },
                Query::CombineWithComments { prev: n, next: y, span: q, shape: t, allow_extend: k },
            ) => m@ == n@ && x@ == y@ && p == q && s == t && l == k,
            (
                Query::Attributes { param: m, shape: s },
                Query::Attributes { param: n, shape: t },
            ) => m == n && s == t,
            (
                Query::ItemizeList {
                    args: m,
                    terminator: x,
                    separator: u,
                    shape: s,
                    lo: l,
                    hi: h,
                    leave_last: p,
                },
                Query::ItemizeList {
                    args: n,
                    terminator: y,
                    separator: v,
                    shape: t,
                    lo: k,
                    hi: j,
                    leave_last: q,
                },
            ) => m@ == n@ && x@ == y@ && u@ == v@ && s == t && l == k && h == j && p == q,
            (
                Query::WriteList { items: m, formatting: x },
                Query::WriteList { items: n, formatting: y },
            ) => items_view(m@) == items_view(n@) && x == y,
            _ => false,
        },
{
}

/// Answers, items and stops say what they hold.
pub proof fn law_views(answer: Answer, item: ListItem, items: Seq<ListItem>, stop: Stop)
    ensures
        answer matches Answer::Text(Some(t)) ==> answer@ == AnswerView::Text(Some(t@)),
        answer == Answer::Text(None) ==> answer@ == AnswerView::Text(None),
        answer matches Answer::Source(t) ==> answer@ == AnswerView::Source(t@),
        answer matches Answer::Position(pos) ==> answer@ == AnswerView::Position(pos),
        answer matches Answer::Flag(b) ==> answer@ == AnswerView::Flag(b),
        answer matches Answer::Items(list) ==> answer@ == AnswerView::Items(items_view(list@)),
        item@.pre_comment == opt_text(item.pre_comment),
        item@.pre_comment_style == item.pre_comment_style,
        item@.item == opt_text(item.item),
        item@.post_comment == opt_text(item.post_comment),
        item@.new_lines == item.new_lines,
        items_view(items).len() == items.len(),
        forall|i: int| 0 <= i < items.len() ==> #[trigger] items_view(items)[i] == items[i]@,
        stop is Failed ==> stop@ == StopView::Failed,
        stop matches Stop::Ask(query) ==> stop@ == StopView::Ask(query@),
        opt_text(None) is None,
        forall|t: String| #[trigger] opt_text(Some(t)) == Some(t@),
{
}

/// A function that returns a text returns it as its layout, and one that stops stops it.
pub proof fn law_layout(r: Result<String, Stop>)
    ensures
        r matches Ok(text) ==> layout(r) == Ok::<Seq<char>, StopView>(text@),
        r matches Err(stop) ==> layout(r) == Err::<Seq<char>, StopView>(stop@),
{
}

/// An argument in angle brackets is known by what it is and by its node.
pub proof fn law_param_keys(arg: AngleBracketedArg)
    ensures
        arg matches AngleBracketedArg::Arg(GenericArg::Lifetime(l)) ==> param_key(arg)
            == ParamKey::LifeTime(l.id),
        arg matches AngleBracketedArg::Arg(GenericArg::Type(ty)) ==> param_key(arg)
            == ParamKey::Type(ty.id),
        arg matches AngleBracketedArg::Arg(GenericArg::Const(c)) ==> param_key(arg)
            == ParamKey::Const(c.id),
        arg matches AngleBracketedArg::Constraint(c) ==> param_key(arg) == ParamKey::Binding(c.id),
{
}

/// The arguments of a function are all named, in their order, with their places in the source.
pub proof fn law_arg_keys(tys: Seq<Ty>, params: Seq<Param>)
    ensures
        ty_keys(tys).len() == tys.len(),
        forall|i: int|
            0 <= i < tys.len() ==> #[trigger] ty_keys(tys)[i] == (ArgKey {
                id: tys[i].id,
                span: tys[i].span,
            }),
        fn_param_keys(params).len() == params.len(),
        forall|i: int|
            0 <= i < params.len() ==> #[trigger] fn_param_keys(params)[i] == (ArgKey {
                id: params[i].id,
                span: params[i].span,
            }),
{
}

} // verus!
