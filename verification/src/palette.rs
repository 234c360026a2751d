//! Terminal colors the views pick; the renderer maps them onto its own color
//! type.

use vstd::prelude::*;

verus! {

/// A named terminal color.
#[derive(Debug, Clone, Copy, PartialEq, Eq, Structural)]
pub enum TermColor {
    Reset,
    Black,
    Red,
    Green,
    Yellow,
    Blue,
    Magenta,
    Cyan,
    Gray,
    DarkGray,
    LightRed,
    LightGreen,
    LightBlue,
    LightMagenta,
    LightCyan,
    White,
}


/// A run of text in one color; `None` draws it unstyled.
#[derive(Debug, Clone, PartialEq, Eq)]
pub struct TextSpan {
    pub text: String,
    pub color: Option<TermColor>,
}

/// Ghost form of [`TextSpan`].
pub ghost struct TextSpanView {
    pub text: Seq<char>,
    pub color: Option<TermColor>,
}

pub open spec fn span_view(s: TextSpan) -> TextSpanView {
    TextSpanView { text: s.text@, color: s.color }
}

pub open spec fn span_views(v: Seq<TextSpan>) -> Seq<TextSpanView> {
    v.map_values(|s: TextSpan| span_view(s))
}

} // verus!
