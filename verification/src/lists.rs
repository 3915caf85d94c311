//! The items of a comma-separated list, and whether they fit on one line.

use crate::config::{IndentStyle, SeparatorTactic};
use crate::shape::Shape;
use crate::text::{
    byte_len, byte_length, contains_newline, display_width, is_multiline, starts_with, trim,
    trim_start, trimmed, trimmed_start, unicode_str_width,
};
use vstd::prelude::*;

verus! {

/// Where the comment before an item stands.
#[derive(Clone, Copy, Debug, PartialEq, Eq, Structural)]
pub enum ListItemCommentStyle {
    SameLine,
    DifferentLine,
    Absent,
}

/// An item of a list and the comments around it.
#[derive(Debug)]
pub struct ListItem {
    pub pre_comment: Option<String>,
    pub pre_comment_style: ListItemCommentStyle,
    /// The text of the item. `None` if it could not be formatted.
    pub item: Option<String>,
    pub post_comment: Option<String>,
    /// Whether an empty line stands before the item.
    pub new_lines: bool,
}

/// What a [`ListItem`] holds.
pub struct ListItemView {
    pub pre_comment: Option<Seq<char>>,
    pub pre_comment_style: ListItemCommentStyle,
    pub item: Option<Seq<char>>,
    pub post_comment: Option<Seq<char>>,
    pub new_lines: bool,
}

/// The text in an optional string.
pub open spec fn opt_text(s: Option<String>) -> Option<Seq<char>> {
    match s {
        Some(s) => Some(s@),
        None => None,
    }
}

impl View for ListItem {
    type V = ListItemView;

    open spec fn view(&self) -> ListItemView {
        ListItemView {
            pre_comment: opt_text(self.pre_comment),
            pre_comment_style: self.pre_comment_style,
            item: opt_text(self.item),
            post_comment: opt_text(self.post_comment),
            new_lines: self.new_lines,
        }
    }
}

/// What the items of a list hold.
pub open spec fn items_view(items: Seq<ListItem>) -> Seq<ListItemView> {
    items.map_values(|item: ListItem| item@)
}

/// Whether the items of a list go on one line or on a line each.
#[derive(Clone, Copy, Debug, PartialEq, Eq, Structural)]
pub enum DefinitiveListTactic {
    Vertical,
    Horizontal,
}

impl DefinitiveListTactic {
    /// Whether the closing bracket goes on a line of its own.
    pub open spec fn breaks_at_end(self, indent_style: IndentStyle) -> bool {
        indent_style == IndentStyle::Block && self == DefinitiveListTactic::Vertical
    }

    /// Whether the closing bracket goes on a line of its own.
    pub fn ends_with_newline(&self, indent_style: IndentStyle) -> (b: bool)
        ensures
            b == self.breaks_at_end(indent_style),
    {
        match indent_style {
            IndentStyle::Block => *self != DefinitiveListTactic::Horizontal,
            IndentStyle::Visual => false,
        }
    }
}

/// How a list is to be written.
#[derive(Clone, Copy, Debug, PartialEq, Eq, Structural)]
pub struct ListFormatting {
    pub shape: Shape,
    pub tactic: DefinitiveListTactic,
    pub trailing_separator: SeparatorTactic,
    pub ends_with_newline: bool,
    pub preserve_newline: bool,
}

/// Whether a comment runs to the end of its line.
pub open spec fn is_line_comment(comment: Option<Seq<char>>) -> bool {
    match comment {
        Some(s) => "//"@.is_prefix_of(trimmed_start(s)),
        None => false,
    }
}

/// Whether there is a text and it has more than one line.
pub open spec fn opt_multiline(s: Option<Seq<char>>) -> bool {
    match s {
        Some(s) => is_multiline(s),
        None => false,
    }
}

/// The room that a comment takes up within a line: its text, and ` /*` and ` */` around it.
pub open spec fn comment_room(comment: Option<Seq<char>>) -> nat {
    match comment {
        Some(s) => {
            let n = byte_len(trimmed(s));
            if n > 0 {
                n + 6
            } else {
                0
            }
        },
        None => 0,
    }
}

impl ListItemView {
    /// Whether a comment of the item runs to the end of its line.
    pub open spec fn has_line_comment(self) -> bool {
        is_line_comment(self.pre_comment) || is_line_comment(self.post_comment)
    }

    /// Whether the item or one of its comments has more than one line.
    pub open spec fn breaks(self) -> bool {
        ||| opt_multiline(self.item)
        ||| opt_multiline(self.pre_comment)
        ||| opt_multiline(self.post_comment)
    }

    /// The room that the item and its comments take up within a line.
    pub open spec fn room(self) -> nat {
        comment_room(self.pre_comment) + comment_room(self.post_comment) + match self.item {
            Some(s) => display_width(s),
            None => 0,
        }
    }
}

/// The room that the items take up within a line, without what separates them.
pub open spec fn items_room(items: Seq<ListItemView>) -> nat
    decreases items.len(),
{
    if items.len() == 0 {
        0
    } else {
        items_room(items.drop_last()) + items.last().room()
    }
}

/// The room that the items take up within a line, with `, ` between any two.
pub open spec fn list_room(items: Seq<ListItemView>) -> nat {
    items_room(items) + if items.len() > 0 {
        2 * (items.len() - 1) as nat
    } else {
        0
    }
}

/// A list goes on one line if it fits within `width`, if no item has more than one line, and
/// if no comment runs to the end of its line. Otherwise each item gets a line.
pub open spec fn list_tactic(items: Seq<ListItemView>, width: usize) -> DefinitiveListTactic {
    if (exists|i: int| 0 <= i < items.len() && (#[trigger] items[i]).has_line_comment()) || (
    exists|i: int| 0 <= i < items.len() && (#[trigger] items[i]).breaks()) || list_room(items)
        > width {
        DefinitiveListTactic::Vertical
    } else {
        DefinitiveListTactic::Horizontal
    }
}

/// Whether a comment runs to the end of its line.
fn runs_to_line_end(comment: &Option<String>) -> (b: bool)
    ensures
        b == is_line_comment(opt_text(*comment)),
{
    match comment {
        Some(s) => starts_with(trim_start(s), "//"),
        None => false,
    }
}

/// Whether there is a text and it has more than one line.
fn has_newline(s: &Option<String>) -> (b: bool)
    ensures
        b == opt_multiline(opt_text(*s)),
{
    match s {
        Some(s) => contains_newline(s),
        None => false,
    }
}

/// The room for a comment, or `None` if it is more than can be counted.
fn comment_len(comment: &Option<String>) -> (n: Option<usize>)
    ensures
        match n {
            Some(n) => n == comment_room(opt_text(*comment)),
            None => comment_room(opt_text(*comment)) > usize::MAX,
        },
{
    match comment {
        Some(s) => {
            let text_len: usize = byte_length(trim(s));
            if text_len > 0 {
                text_len.checked_add(6)
            } else {
                Some(0)
            }
        },
        None => Some(0),
    }
}

/// The sum, or `None` if it is more than can be counted.
fn sum(a: Option<usize>, b: Option<usize>) -> (n: Option<usize>)
    ensures
        n == (match (a, b) {
            (Some(a), Some(b)) => if a + b <= usize::MAX {
                Some((a + b) as usize)
            } else {
                None
            },
            _ => None,
        }),
{
    match (a, b) {
        (Some(a), Some(b)) => a.checked_add(b),
        _ => None,
    }
}

impl ListItem {
    /// Whether a comment of the item runs to the end of its line.
    pub fn has_single_line_comment(&self) -> (b: bool)
        ensures
            b == self@.has_line_comment(),
    {
        runs_to_line_end(&self.pre_comment) || runs_to_line_end(&self.post_comment)
    }

    /// Whether the item or one of its comments has more than one line.
    pub fn is_multiline(&self) -> (b: bool)
        ensures
            b == self@.breaks(),
    {
        has_newline(&self.item) || has_newline(&self.pre_comment) || has_newline(
            &self.post_comment,
        )
    }

    /// The room for the item, or `None` if it is more than can be counted.
    fn total_width(&self) -> (n: Option<usize>)
        ensures
            match n {
                Some(n) => n == self@.room(),
                None => self@.room() > usize::MAX,
            },
    {
        let width: usize = match &self.item {
            Some(s) => unicode_str_width(s),
            None => 0,
        };
        sum(sum(comment_len(&self.pre_comment), comment_len(&self.post_comment)), Some(width))
    }

    /// A copy of the item.
    pub fn duplicate(&self) -> (copy: ListItem)
        ensures
            copy@ == self@,
    {
        ListItem {
            pre_comment: self.pre_comment.clone(),
            pre_comment_style: self.pre_comment_style,
            item: self.item.clone(),
            post_comment: self.post_comment.clone(),
            new_lines: self.new_lines,
        }
    }

    /// Whether two items hold the same.
    pub fn same(&self, other: &ListItem) -> (b: bool)
        ensures
            b == (self@ == other@),
    {
        same_text(&self.pre_comment, &other.pre_comment) && self.pre_comment_style
            == other.pre_comment_style && same_text(&self.item, &other.item) && same_text(
            &self.post_comment,
            &other.post_comment,
        ) && self.new_lines == other.new_lines
    }
}

/// Whether two optional strings hold the same text.
pub fn same_text(a: &Option<String>, b: &Option<String>) -> (same: bool)
    ensures
        same == (opt_text(*a) == opt_text(*b)),
{
    match (a, b) {
        (Some(a), Some(b)) => *a == *b,
        (None, None) => true,
        _ => false,
    }
}

/// A copy of the items of a list.
pub fn duplicate_items(items: &Vec<ListItem>) -> (copy: Vec<ListItem>)
    ensures
        items_view(copy@) == items_view(items@),
{
    let mut copy: Vec<ListItem> = Vec::new();
    let mut i: usize = 0;
    while i < items.len()
        invariant
            i <= items.len(),
            copy@.len() == i,
            forall|j: int| 0 <= j < i ==> (#[trigger] copy@[j])@ == items@[j]@,
        decreases items.len() - i,
    {
        copy.push(items[i].duplicate());
        i = i + 1;
    }
    assert(items_view(copy@) =~= items_view(items@));
    copy
}

/// Whether two lists hold the same items.
pub fn same_items(a: &Vec<ListItem>, b: &Vec<ListItem>) -> (same: bool)
    ensures
        same == (items_view(a@) == items_view(b@)),
{
    if a.len() != b.len() {
        assert(items_view(a@).len() != items_view(b@).len());
        return false;
    }
    let mut i: usize = 0;
    while i < a.len()
        invariant
            i <= a.len() == b.len(),
            forall|j: int| 0 <= j < i ==> items_view(a@)[j] == items_view(b@)[j],
        decreases a.len() - i,
    {
        if !a[i].same(&b[i]) {
            assert(items_view(a@)[i as int] != items_view(b@)[i as int]);
            return false;
        }
        i = i + 1;
    }
    assert(items_view(a@) =~= items_view(b@));
    true
}

/// Whether a comma-separated list goes on one line of the given width, or each item on its own.
pub fn definitive_tactic(items: &[ListItem], width: usize) -> (tactic: DefinitiveListTactic)
    ensures
        tactic == list_tactic(items_view(items@), width),
{
    let ghost views = items_view(items@);
    let mut room: Option<usize> = Some(0);
    let mut i: usize = 0;
    while i < items.len()
        invariant
            i <= items.len(),
            views == items_view(items@),
            forall|j: int|
                0 <= j < i ==> !(#[trigger] views[j]).has_line_comment() && !views[j].breaks(),
            match room {
                Some(n) => n == items_room(views.take(i as int)),
                None => items_room(views.take(i as int)) > usize::MAX,
            },
        decreases items.len() - i,
    {
        assert(views[i as int] == items@[i as int]@);
        if items[i].has_single_line_comment() || items[i].is_multiline() {
            return DefinitiveListTactic::Vertical;
        }
        assert(views.take(i + 1).drop_last() =~= views.take(i as int));
        room = sum(room, items[i].total_width());
        i = i + 1;
    }
    assert(views.take(i as int) =~= views);
    let mut separators: Option<usize> = Some(0);
    if items.len() > 0 {
        separators = sum(Some(items.len() - 1), Some(items.len() - 1));
    }
    match sum(room, separators) {
        Some(n) => if n <= width {
            DefinitiveListTactic::Horizontal
        } else {
            DefinitiveListTactic::Vertical
        },
        None => DefinitiveListTactic::Vertical,
    }
}

} // verus!
