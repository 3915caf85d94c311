//! Where a piece of text starts and how much room it has.
//!
//! Columns are counted in `usize`. An operation whose result would not fit yields `None`, as
//! one does that takes more width than there is: such a piece of text cannot be laid out.

use crate::config::Config;
use crate::text::{
    append_repeated, byte_len, byte_length, contains_newline, is_multiline, last_line, line_at_end,
    repeated,
};
use vstd::prelude::*;

verus! {

/// How far a line is indented: by whole levels, and then to align it with something above.
#[derive(Clone, Copy, Debug, PartialEq, Eq, Structural)]
pub struct Indent {
    pub block_indent: usize,
    pub alignment: usize,
}

/// The room for a piece of text: the `width` that is left on its first line, the `indent` of
/// the lines after it, and the column `offset` of its start behind the whole levels.
#[derive(Clone, Copy, Debug, PartialEq, Eq, Structural)]
pub struct Shape {
    pub width: usize,
    pub indent: Indent,
    pub offset: usize,
}

impl Indent {
    /// Aligned `n` columns further.
    pub open spec fn aligned(self, n: int) -> Option<Indent> {
        if self.alignment + n <= usize::MAX {
            Some(Indent { alignment: (self.alignment + n) as usize, ..self })
        } else {
            None
        }
    }

    /// One level deeper.
    pub open spec fn deeper(self, config: Config) -> Option<Indent> {
        if self.block_indent + config.tab_spaces <= usize::MAX {
            Some(
                Indent { block_indent: (self.block_indent + config.tab_spaces) as usize, ..self },
            )
        } else {
            None
        }
    }

    /// The characters that indent a line.
    pub open spec fn text(self, config: Config) -> Seq<char> {
        if config.hard_tabs {
            repeated('\t', (self.block_indent / config.tab_spaces) as nat) + repeated(
                ' ',
                self.alignment as nat,
            )
        } else {
            repeated(' ', (self.block_indent + self.alignment) as nat)
        }
    }

    /// A line break and the characters that indent the new line.
    pub open spec fn new_line(self, config: Config) -> Seq<char> {
        seq!['\n'] + self.text(config)
    }

    /// Aligns `n` columns further.
    pub fn align(self, n: usize) -> (indent: Option<Indent>)
        ensures
            indent == self.aligned(n as int),
    {
        match self.alignment.checked_add(n) {
            Some(alignment) => Some(Indent { block_indent: self.block_indent, alignment }),
            None => None,
        }
    }

    /// Indents one level deeper.
    pub fn block_indent(self, config: &Config) -> (indent: Option<Indent>)
        ensures
            indent == self.deeper(*config),
    {
        match self.block_indent.checked_add(config.tab_spaces) {
            Some(block_indent) => Some(Indent { block_indent, alignment: self.alignment }),
            None => None,
        }
    }

    /// Keeps only the whole levels.
    pub fn block_only(self) -> (indent: Indent)
        ensures
            indent == (Indent { alignment: 0, ..self }),
    {
        Indent { block_indent: self.block_indent, alignment: 0 }
    }

    /// Appends the characters that indent a line.
    fn append_to(self, config: &Config, text: &mut String)
        requires
            config.valid(),
        ensures
            final(text)@ == old(text)@ + self.text(*config),
    {
        proof {
            reveal_strlit("\t");
            reveal_strlit(" ");
        }
        if config.hard_tabs {
            append_repeated(text, "\t", self.block_indent / config.tab_spaces);
        } else {
            append_repeated(text, " ", self.block_indent);
        }
        append_repeated(text, " ", self.alignment);
        assert(text@ =~= old(text)@ + self.text(*config));
    }

    /// The characters that indent a line.
    pub fn to_string(self, config: &Config) -> (text: String)
        requires
            config.valid(),
        ensures
            text@ == self.text(*config),
    {
        let mut text = String::new();
        self.append_to(config, &mut text);
        assert(text@ =~= self.text(*config));
        text
    }

    /// A line break and the characters that indent the new line.
    pub fn to_string_with_newline(self, config: &Config) -> (text: String)
        requires
            config.valid(),
        ensures
            text@ == self.new_line(*config),
    {
        let mut text = "\n".to_owned();
        proof {
            reveal_strlit("\n");
            assert(text@ =~= seq!['\n']);
        }
        self.append_to(config, &mut text);
        text
    }
}

/// What is left of `a` when `b` is taken away, and nothing when `b` is more.
pub open spec fn less(a: int, b: int) -> usize {
    if a >= b {
        (a - b) as usize
    } else {
        0
    }
}

impl Shape {
    /// `n` columns narrower.
    pub open spec fn narrower(self, n: int) -> Option<Shape> {
        if n <= self.width {
            Some(Shape { width: (self.width - n) as usize, ..self })
        } else {
            None
        }
    }

    /// Starting `n` columns further, with the lines after the first as before.
    pub open spec fn further(self, n: int) -> Option<Shape> {
        if n <= self.width && self.offset + n <= usize::MAX {
            Some(
                Shape {
                    width: (self.width - n) as usize,
                    offset: (self.offset + n) as usize,
                    ..self
                },
            )
        } else {
            None
        }
    }

    /// Starting `n` columns further, with all lines aligned there.
    pub open spec fn shrunk(self, n: int) -> Option<Shape> {
        match (self.further(n), self.indent.aligned(n)) {
            (Some(shape), Some(indent)) => Some(Shape { indent, ..shape }),
            _ => None,
        }
    }

    /// Aligned `n` columns behind the start.
    pub open spec fn visual(self, n: int) -> Option<Shape> {
        if self.offset + n <= usize::MAX {
            Some(
                Shape {
                    indent: Indent { alignment: (self.offset + n) as usize, ..self.indent },
                    offset: (self.offset + n) as usize,
                    ..self
                },
            )
        } else {
            None
        }
    }

    /// Indented by `n` columns more: by whole levels where nothing is aligned yet.
    pub open spec fn indented_by(self, n: int) -> Option<Shape> {
        if self.indent.alignment == 0 {
            if self.indent.block_indent + n <= usize::MAX {
                Some(
                    Shape {
                        indent: Indent {
                            block_indent: (self.indent.block_indent + n) as usize,
                            alignment: 0,
                        },
                        offset: 0,
                        ..self
                    },
                )
            } else {
                None
            }
        } else {
            match self.indent.aligned(n) {
                Some(indent) => Some(Shape { indent, offset: indent.alignment, ..self }),
                None => None,
            }
        }
    }

    /// A given width behind a given indent.
    pub open spec fn behind(width: usize, indent: Indent) -> Shape {
        Shape { width, indent, offset: indent.alignment }
    }

    /// `taken` columns narrower, with all lines aligned `left` columns further.
    pub open spec fn inside(self, taken: int, left: int) -> Option<Shape> {
        match (self.narrower(taken), self.indent.aligned(left)) {
            (Some(shape), Some(indent)) => Some(Shape::behind(shape.width, indent)),
            _ => None,
        }
    }

    /// The columns that a piece of text takes up behind the start of the shape.
    pub open spec fn taken_by(self, text: Seq<char>) -> int {
        if is_multiline(text) {
            less(
                byte_len(last_line(text)) as int,
                self.indent.block_indent + self.offset,
            ) as int
        } else {
            byte_len(text) as int
        }
    }

    /// As wide as a line behind its indent may be.
    pub open spec fn full_width(self, config: Config) -> Shape {
        Shape {
            width: less(
                config.max_width as int,
                self.indent.block_indent + self.indent.alignment,
            ),
            ..self
        }
    }

    /// Without alignment.
    pub open spec fn unaligned(self) -> Shape {
        Shape { indent: Indent { alignment: 0, ..self.indent }, ..self }
    }

    /// A line break and the characters that align the new line with the start of the shape.
    pub open spec fn start_line(self, config: Config) -> Seq<char> {
        (Indent { alignment: self.offset, ..self.indent }).new_line(config)
    }

    /// A given width behind a given indent.
    pub fn legacy(width: usize, indent: Indent) -> (shape: Shape)
        ensures
            shape == Shape::behind(width, indent),
    {
        Shape { width, indent, offset: indent.alignment }
    }

    /// Within brackets that take up `taken` columns, `left` of them before the text.
    pub fn within(self, taken: usize, left: usize) -> (shape: Option<Shape>)
        ensures
            shape == self.inside(taken as int, left as int),
    {
        match (self.width.checked_sub(taken), self.indent.align(left)) {
            (Some(width), Some(indent)) => Some(Shape::legacy(width, indent)),
            _ => None,
        }
    }

    /// A whole line behind a given indent.
    pub fn indented(indent: Indent, config: &Config) -> (shape: Shape)
        ensures
            shape == Shape::behind(0, indent).full_width(*config),
    {
        Shape::legacy(0, indent).with_max_width(config)
    }

    /// Makes the shape as wide as a line behind its indent may be.
    pub fn with_max_width(self, config: &Config) -> (shape: Shape)
        ensures
            shape == self.full_width(*config),
    {
        let left: usize = config.max_width.saturating_sub(self.indent.block_indent);
        Shape {
            width: left.saturating_sub(self.indent.alignment),
            indent: self.indent,
            offset: self.offset,
        }
    }

    /// Aligns the shape `extra_width` columns behind its start.
    pub fn visual_indent(self, extra_width: usize) -> (shape: Option<Shape>)
        ensures
            shape == self.visual(extra_width as int),
    {
        match self.offset.checked_add(extra_width) {
            Some(alignment) => Some(
                Shape {
                    width: self.width,
                    indent: Indent { block_indent: self.indent.block_indent, alignment },
                    offset: alignment,
                },
            ),
            None => None,
        }
    }

    /// Indents the shape by `extra_width` columns more.
    pub fn block_indent(self, extra_width: usize) -> (shape: Option<Shape>)
        ensures
            shape == self.indented_by(extra_width as int),
    {
        if self.indent.alignment == 0 {
            match self.indent.block_indent.checked_add(extra_width) {
                Some(block_indent) => Some(
                    Shape {
                        width: self.width,
                        indent: Indent { block_indent, alignment: 0 },
                        offset: 0,
                    },
                ),
                None => None,
            }
        } else {
            match self.indent.align(extra_width) {
                Some(indent) => Some(Shape { width: self.width, indent, offset: indent.alignment }),
                None => None,
            }
        }
    }

    /// Drops the alignment.
    pub fn block(self) -> (shape: Shape)
        ensures
            shape == self.unaligned(),
    {
        Shape { width: self.width, indent: self.indent.block_only(), offset: self.offset }
    }

    /// Takes columns from the end of the line.
    pub fn sub_width(self, width: usize) -> (shape: Option<Shape>)
        ensures
            shape == self.narrower(width as int),
    {
        match self.width.checked_sub(width) {
            Some(left) => Some(Shape { width: left, indent: self.indent, offset: self.offset }),
            None => None,
        }
    }

    /// Takes columns from the start of the first line.
    pub fn offset_left(self, width: usize) -> (shape: Option<Shape>)
        ensures
            shape == self.further(width as int),
    {
        match (self.width.checked_sub(width), self.offset.checked_add(width)) {
            (Some(left), Some(offset)) => Some(Shape { width: left, indent: self.indent, offset }),
            _ => None,
        }
    }

    /// Takes columns from the start of all lines.
    pub fn shrink_left(self, width: usize) -> (shape: Option<Shape>)
        ensures
            shape == self.shrunk(width as int),
    {
        match (self.offset_left(width), self.indent.align(width)) {
            (Some(shape), Some(indent)) => Some(
                Shape { width: shape.width, indent, offset: shape.offset },
            ),
            _ => None,
        }
    }

    /// Indents the shape and makes it narrower by as much.
    pub fn block_left(self, width: usize) -> (shape: Option<Shape>)
        ensures
            shape == (match self.indented_by(width as int) {
                Some(shape) => shape.narrower(width as int),
                None => None,
            }),
    {
        match self.block_indent(width) {
            Some(shape) => shape.sub_width(width),
            None => None,
        }
    }

    /// The columns that a piece of text takes up behind the start of the shape.
    pub fn extra_offset(self, text: &str) -> (n: usize)
        ensures
            n == self.taken_by(text@),
    {
        if contains_newline(text) {
            let last: usize = byte_length(line_at_end(text));
            last.saturating_sub(self.indent.block_indent).saturating_sub(self.offset)
        } else {
            byte_length(text)
        }
    }

    /// A line break and the characters that align the new line with the start of the shape.
    pub fn to_string_with_newline(self, config: &Config) -> (text: String)
        requires
            config.valid(),
        ensures
            text@ == self.start_line(*config),
    {
        Indent {
            block_indent: self.indent.block_indent,
            alignment: self.offset,
        }.to_string_with_newline(config)
    }
}

} // verus!
