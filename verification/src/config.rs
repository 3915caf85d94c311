//! The settings that decide how types are laid out.

use vstd::prelude::*;

verus! {

/// How a list that does not fit on one line is indented.
#[derive(Clone, Copy, Debug, PartialEq, Eq, Structural)]
pub enum IndentStyle {
    /// One level deeper than the line it starts on.
    Block,
    /// Aligned with the bracket it starts with.
    Visual,
}

/// Whether `+` and `=` in types have spaces around them.
#[derive(Clone, Copy, Debug, PartialEq, Eq, Structural)]
pub enum TypeDensity {
    Wide,
    Compressed,
}

/// Whether a separator follows the last item of a list.
#[derive(Clone, Copy, Debug, PartialEq, Eq, Structural)]
pub enum SeparatorTactic {
    Always,
    Never,
    Vertical,
}

/// The settings.
#[derive(Clone, Copy, Debug, PartialEq, Eq, Structural)]
pub struct Config {
    pub max_width: usize,
    pub tab_spaces: usize,
    pub hard_tabs: bool,
    pub indent_style: IndentStyle,
    pub type_punctuation_density: TypeDensity,
    pub trailing_comma: SeparatorTactic,
    pub force_explicit_abi: bool,
    pub space_before_colon: bool,
    pub space_after_colon: bool,
}

impl Config {
    /// Indenting with tabs needs a width for a tab.
    pub open spec fn valid(self) -> bool {
        self.hard_tabs ==> self.tab_spaces > 0
    }
}

/// The colon between a name and its type or bounds.
pub open spec fn colon(config: Config) -> Seq<char> {
    if config.space_before_colon && config.space_after_colon {
        " : "@
    } else if config.space_before_colon {
        " :"@
    } else if config.space_after_colon {
        ": "@
    } else {
        ":"@
    }
}

/// The colon, with the spaces around it that the settings ask for.
pub fn colon_spaces(config: &Config) -> (text: &'static str)
    ensures
        text@ == colon(*config),
{
    if config.space_before_colon && config.space_after_colon {
        " : "
    } else if config.space_before_colon {
        " :"
    } else if config.space_after_colon {
        ": "
    } else {
        ":"
    }
}

} // verus!
