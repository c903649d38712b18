//! The styles of a pane row and the styled text that the terminal library
//! makes of them.

use vstd::prelude::*;

verus! {

/// The look of one row of a pane.
#[derive(Clone, Copy, Debug, PartialEq, Eq, Structural)]
pub enum RowStyle {
    /// The selected row of the focused pane.
    FocusedSelection,
    /// The selected row of a pane that is not focused.
    Selection,
    /// A directory that is not selected.
    Directory,
    /// A plain file that is not selected, or a row below the listing.
    Plain,
}

/// What the style of a styled text holds, as far as the browser makes it.
#[derive(Clone, Copy, Debug, PartialEq, Eq, Structural)]
pub enum Look {
    /// The foreground colour red and nothing else.
    Red,
    /// The foreground colour green and nothing else.
    Green,
    /// The foreground colour cyan and nothing else.
    Cyan,
    /// The reset attribute and nothing else: the terminal's own look.
    Reset,
}

/// The look in which a row of a given style is printed: red for the
/// selection of the focused pane, green for the selection of another pane,
/// cyan for a directory, and the terminal's own look for everything else.
pub open spec fn look_of(style: RowStyle) -> Look {
    match style {
        RowStyle::FocusedSelection => Look::Red,
        RowStyle::Selection => Look::Green,
        RowStyle::Directory => Look::Cyan,
        RowStyle::Plain => Look::Reset,
    }
}

/// crossterm's `StyledContent`: a content and the style it is printed in.
#[verifier::external_type_specification]
#[verifier::external_body]
#[verifier::reject_recursive_types(D)]
pub struct ExStyledContent<D: core::fmt::Display>(crossterm::style::StyledContent<D>);

/// The text that a styled text holds: the characters of its content.
pub uninterp spec fn styled_text(content: crossterm::style::StyledContent<String>) -> Seq<char>;

/// The look that a styled text holds: what its style is made of, where that
/// is one of the four looks of [`Look`].
pub uninterp spec fn styled_look(content: crossterm::style::StyledContent<String>) -> Look;

/// Calls crossterm's `Stylize::red` on a `String`. The method puts the text,
/// as it is, into a `StyledContent` with a fresh style, and sets the
/// foreground colour of that style to red.
#[verifier::external_body]
fn paint_red(text: String) -> (content: crossterm::style::StyledContent<String>)
    ensures
        styled_text(content) == text@,
        styled_look(content) == Look::Red,
{
    crossterm::style::Stylize::red(text)
}

/// Calls crossterm's `Stylize::green` on a `String`. The method puts the
/// text, as it is, into a `StyledContent` with a fresh style, and sets the
/// foreground colour of that style to green.
#[verifier::external_body]
fn paint_green(text: String) -> (content: crossterm::style::StyledContent<String>)
    ensures
        styled_text(content) == text@,
        styled_look(content) == Look::Green,
{
    crossterm::style::Stylize::green(text)
}

/// Calls crossterm's `Stylize::cyan` on a `String`. The method puts the text,
/// as it is, into a `StyledContent` with a fresh style, and sets the
/// foreground colour of that style to cyan.
#[verifier::external_body]
fn paint_cyan(text: String) -> (content: crossterm::style::StyledContent<String>)
    ensures
        styled_text(content) == text@,
        styled_look(content) == Look::Cyan,
{
    crossterm::style::Stylize::cyan(text)
}

/// Calls crossterm's `Stylize::reset` on a `String`. The method puts the
/// text, as it is, into a `StyledContent` with a fresh style, and sets the
/// reset attribute of that style; it sets no colour.
#[verifier::external_body]
fn paint_reset(text: String) -> (content: crossterm::style::StyledContent<String>)
    ensures
        styled_text(content) == text@,
        styled_look(content) == Look::Reset,
{
    crossterm::style::Stylize::reset(text)
}

/// Styles `text` for a row of the given style: the text stays as it is and
/// gets the look of the style.
pub fn paint(style: RowStyle, text: String) -> (content: crossterm::style::StyledContent<String>)
    ensures
        styled_text(content) == text@,
        styled_look(content) == look_of(style),
{
    match style {
        RowStyle::FocusedSelection => paint_red(text),
        RowStyle::Selection => paint_green(text),
        RowStyle::Directory => paint_cyan(text),
        RowStyle::Plain => paint_reset(text),
    }
}

} // verus!
