use vstd::prelude::*;

verus! {

/// The private-use code points that stand for style directives inside document text.
pub struct Codes;

impl Codes {
    pub const RESET: char = '\u{E000}';
    pub const ITALIC: char = '\u{E003}';
    pub const RESET_ITALIC: char = '\u{E023}';
    pub const UNDERLINE: char = '\u{E004}';
    pub const RESET_UNDERLINE: char = '\u{E024}';
    pub const RESET_FOREGROUND: char = '\u{E100}';
    pub const FOREGROUND_DEFAULT: char = '\u{E101}';
    pub const RESET_BACKGROUND: char = '\u{E200}';
    pub const BACKGROUND_MARKER: char = '\u{E201}';
    pub const BACKGROUND_SELECTION: char = '\u{E202}';
}

/// Whether `c` is one of the style code points.
pub open spec fn is_code(c: char) -> bool {
    c == Codes::RESET || c == Codes::ITALIC || c == Codes::RESET_ITALIC || c == Codes::UNDERLINE
        || c == Codes::RESET_UNDERLINE || c == Codes::RESET_FOREGROUND
        || c == Codes::FOREGROUND_DEFAULT || c == Codes::RESET_BACKGROUND
        || c == Codes::BACKGROUND_MARKER || c == Codes::BACKGROUND_SELECTION
}

} // verus!
