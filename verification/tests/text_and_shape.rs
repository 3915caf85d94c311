use type_format::config::{colon_spaces, Config, IndentStyle, SeparatorTactic, TypeDensity};
use type_format::lists::{
    definitive_tactic, DefinitiveListTactic, ListItem, ListItemCommentStyle,
};
use type_format::shape::{Indent, Shape};
use type_format::span::{mk_sp, Span};
use type_format::text::{
    byte_length, contains_newline, ends_with, first_line_width, is_whitespace, join,
    last_line_extendable, last_line_width, line_at_end, line_at_start, starts_with, trim, trim_end,
    trim_start,
};
use type_format::types::{get_tactics, type_bound_colon};
use type_format::query::{Answers, RewriteContext};

fn config() -> Config {
    Config {
        max_width: 100,
        tab_spaces: 4,
        hard_tabs: false,
        indent_style: IndentStyle::Block,
        type_punctuation_density: TypeDensity::Wide,
        trailing_comma: SeparatorTactic::Vertical,
        force_explicit_abi: true,
        space_before_colon: false,
        space_after_colon: true,
    }
}

fn item(text: &str) -> ListItem {
    ListItem {
        pre_comment: None,
        pre_comment_style: ListItemCommentStyle::Absent,
        item: Some(text.to_owned()),
        post_comment: None,
        new_lines: false,
    }
}

fn shape(width: usize, block_indent: usize, alignment: usize, offset: usize) -> Shape {
    Shape { width, indent: Indent { block_indent, alignment }, offset }
}

#[test]
fn white_space_is_that_of_unicode() {
    for n in 0..=0x10ffff_u32 {
        if let Some(c) = char::from_u32(n) {
            assert_eq!(is_whitespace(c), c.is_whitespace(), "{:x}", n);
        }
    }
}

#[test]
fn trimming() {
    for s in ["", " ", " a b ", "\n\ta", "a\u{3000}", "a", " \u{a0}\u{2003}x\u{85}"] {
        assert_eq!(trim_start(s), s.trim_start());
        assert_eq!(trim_end(s), s.trim_end());
        assert_eq!(trim(s), s.trim());
    }
}

#[test]
fn prefixes_and_suffixes() {
    assert!(starts_with("::<T>", "::"));
    assert!(!starts_with(":", "::"));
    assert!(!starts_with("a::", "::"));
    assert!(starts_with("", ""));
    assert!(ends_with("A +", "+"));
    assert!(!ends_with("A + ", "+"));
    assert!(!ends_with("", "+"));
}

#[test]
fn lines_and_widths() {
    assert_eq!(line_at_start("a\nb\nc"), "a");
    assert_eq!(line_at_end("a\nb\nc"), "c");
    assert_eq!(line_at_start("abc"), "abc");
    assert_eq!(line_at_end("abc\n"), "");
    assert_eq!(first_line_width("ab\ncde"), 2);
    assert_eq!(last_line_width("ab\ncde"), 3);
    assert!(contains_newline("a\n"));
    assert!(!contains_newline("a"));
}

#[test]
fn width_is_not_length() {
    assert_eq!(byte_length("漢字"), 6);
    assert_eq!(last_line_width("漢字"), 4);
    assert_eq!(byte_length("é"), 2);
    assert_eq!(first_line_width("é"), 1);
}

#[test]
fn extendable_last_lines() {
    assert!(last_line_extendable("Foo<\n    A,\n>"));
    assert!(last_line_extendable("fn(\n    A,\n) "));
    assert!(!last_line_extendable("Foo<\n    A,\n>::B"));
    assert!(!last_line_extendable("Foo"));
    assert!(last_line_extendable("Foo\n"));
    assert!(last_line_extendable(""));
    assert!(last_line_extendable("r#\"x\"#"));
}

#[test]
fn joining() {
    let parts = vec!["'a".to_owned(), "'b".to_owned(), "T".to_owned()];
    assert_eq!(join(&parts, ", "), "'a, 'b, T");
    assert_eq!(join(&vec![], ", "), "");
    assert_eq!(join(&vec!["'a".to_owned()], ", "), "'a");
}

#[test]
fn spans_in_either_order() {
    assert_eq!(mk_sp(2, 5), Span { lo: 2, hi: 5 });
    assert_eq!(mk_sp(5, 2), Span { lo: 2, hi: 5 });
    assert_eq!(mk_sp(5, 2).lo(), 2);
    assert_eq!(mk_sp(5, 2).hi(), 5);
}

#[test]
fn colons() {
    let mut c = config();
    assert_eq!(colon_spaces(&c), ": ");
    c.space_before_colon = true;
    assert_eq!(colon_spaces(&c), " : ");
    c.space_after_colon = false;
    assert_eq!(colon_spaces(&c), " :");
    c.space_before_colon = false;
    assert_eq!(colon_spaces(&c), ":");
    let context = RewriteContext { config: c, inside_macro: false, answers: Answers::new() };
    assert_eq!(type_bound_colon(&context), ":");
}

#[test]
fn indents_as_text() {
    let indent = Indent { block_indent: 8, alignment: 3 };
    assert_eq!(indent.to_string(&config()), "           ");
    assert_eq!(indent.to_string_with_newline(&config()), "\n           ");
    let mut tabs = config();
    tabs.hard_tabs = true;
    assert_eq!(indent.to_string(&tabs), "\t\t   ");
    assert_eq!(indent.block_only().to_string_with_newline(&tabs), "\n\t\t");
    assert_eq!(Indent { block_indent: 0, alignment: 0 }.to_string(&tabs), "");
    assert_eq!(shape(9, 4, 1, 2).to_string_with_newline(&config()), "\n      ");
}

#[test]
fn shapes_get_narrower() {
    let s = shape(10, 4, 2, 6);
    assert_eq!(s.sub_width(3), Some(shape(7, 4, 2, 6)));
    assert_eq!(s.sub_width(11), None);
    assert_eq!(s.offset_left(3), Some(shape(7, 4, 2, 9)));
    assert_eq!(s.offset_left(11), None);
    assert_eq!(s.shrink_left(3), Some(shape(7, 4, 5, 9)));
    assert_eq!(s.shrink_left(10), Some(shape(0, 4, 12, 16)));
    assert_eq!(s.within(4, 1), Some(shape(6, 4, 3, 3)));
    assert_eq!(s.within(11, 1), None);
    assert_eq!(s.visual_indent(1), Some(shape(10, 4, 7, 7)));
    assert_eq!(s.block(), shape(10, 4, 0, 6));
}

#[test]
fn shapes_get_indented() {
    assert_eq!(shape(10, 4, 0, 6).block_indent(4), Some(shape(10, 8, 0, 0)));
    assert_eq!(shape(10, 4, 2, 6).block_indent(4), Some(shape(10, 4, 6, 6)));
    assert_eq!(shape(10, 4, 0, 6).block_left(4), Some(shape(6, 8, 0, 0)));
    assert_eq!(shape(3, 4, 0, 6).block_left(4), None);
    assert_eq!(shape(10, 4, 2, 6).with_max_width(&config()), shape(94, 4, 2, 6));
    assert_eq!(shape(10, 99, 2, 6).with_max_width(&config()), shape(0, 99, 2, 6));
    let indent = Indent { block_indent: 4, alignment: 0 };
    assert_eq!(indent.block_indent(&config()), Some(Indent { block_indent: 8, alignment: 0 }));
    assert_eq!(Shape::indented(indent, &config()), shape(96, 4, 0, 0));
    assert_eq!(Shape::legacy(5, Indent { block_indent: 4, alignment: 2 }), shape(5, 4, 2, 2));
}

#[test]
fn shapes_that_do_not_fit_are_none() {
    let s = shape(10, usize::MAX, usize::MAX, usize::MAX);
    assert_eq!(s.offset_left(1), None);
    assert_eq!(s.shrink_left(1), None);
    assert_eq!(s.visual_indent(1), None);
    assert_eq!(s.block_indent(1), None);
    assert_eq!(s.indent.align(1), None);
    assert_eq!(s.indent.block_indent(&config()), None);
}

#[test]
fn offsets_add_up() {
    let s = shape(10, 4, 2, 6);
    let twice = s.offset_left(3).and_then(|s| s.offset_left(4));
    assert_eq!(twice, s.offset_left(7));
    let moved = s.offset_left(3).unwrap();
    assert_eq!(moved.offset + moved.width, s.offset + s.width);
}

#[test]
fn extra_offset_of_a_text() {
    let s = shape(40, 4, 0, 6);
    assert_eq!(s.extra_offset("a::b"), 4);
    assert_eq!(s.extra_offset("a<\n            >"), 3);
    assert_eq!(s.extra_offset("a<\n    >"), 0);
}

#[test]
fn list_on_one_line() {
    let items = vec![item("u32"), item("u64")];
    assert_eq!(definitive_tactic(&items, 8), DefinitiveListTactic::Horizontal);
    assert_eq!(definitive_tactic(&items, 7), DefinitiveListTactic::Vertical);
    assert_eq!(definitive_tactic(&vec![], 0), DefinitiveListTactic::Horizontal);
}

#[test]
fn list_with_comments() {
    let mut with_block = item("u32");
    with_block.pre_comment = Some("/* c */".to_owned());
    // 7 for the comment, 6 around it, 3 for the item.
    assert_eq!(definitive_tactic(&vec![with_block], 16), DefinitiveListTactic::Horizontal);
    let mut with_block = item("u32");
    with_block.pre_comment = Some(" /* c */ ".to_owned());
    assert_eq!(definitive_tactic(&vec![with_block], 15), DefinitiveListTactic::Vertical);
    let mut with_line = item("u32");
    with_line.post_comment = Some(" // c".to_owned());
    assert_eq!(definitive_tactic(&vec![with_line], 100), DefinitiveListTactic::Vertical);
    let mut with_lines = item("u32");
    with_lines.post_comment = Some("/*\n*/".to_owned());
    assert_eq!(definitive_tactic(&vec![with_lines], 100), DefinitiveListTactic::Vertical);
    assert_eq!(definitive_tactic(&vec![item("a\nb")], 100), DefinitiveListTactic::Vertical);
}

#[test]
fn tactics_leave_room_for_the_return_type() {
    let items = vec![item("u32"), item("u64")];
    // 8 for the list, 7 for the return type, 2 more.
    assert_eq!(get_tactics(&items, " -> u32", shape(17, 0, 0, 0)), DefinitiveListTactic::Horizontal);
    assert_eq!(get_tactics(&items, " -> u32", shape(16, 0, 0, 0)), DefinitiveListTactic::Vertical);
    assert_eq!(
        get_tactics(&items, " -> Foo<\n    A,\n>", shape(100, 0, 0, 0)),
        DefinitiveListTactic::Vertical
    );
    assert_eq!(get_tactics(&vec![], " -> u32", shape(1, 0, 0, 0)), DefinitiveListTactic::Horizontal);
}

#[test]
fn closing_bracket_on_its_own_line() {
    let vertical = DefinitiveListTactic::Vertical;
    assert!(vertical.ends_with_newline(IndentStyle::Block));
    assert!(!vertical.ends_with_newline(IndentStyle::Visual));
    assert!(!DefinitiveListTactic::Horizontal.ends_with_newline(IndentStyle::Block));
}

#[test]
fn items_are_compared_by_what_they_hold() {
    let mut other = item("u32");
    assert!(item("u32").same(&other));
    assert!(item("u32").duplicate().same(&other));
    other.new_lines = true;
    assert!(!item("u32").same(&other));
    assert!(!item("u32").same(&item("u64")));
}
