//! The looks of each part of the interface.

use vstd::prelude::*;

pub mod mocha;

verus! {

/// How text looks; what is left open shows what lies below.
#[derive(Clone, Copy, Debug, PartialEq, Eq, Structural)]
pub struct Style {
    pub fg: Option<u32>,
    pub bg: Option<u32>,
    pub bold: bool,
    pub underlined: bool,
}

/// A style of two colors.
pub open spec fn plain(fg: u32, bg: u32) -> Style {
    Style { fg: Some(fg), bg: Some(bg), bold: false, underlined: false }
}

/// A style that leaves the background as it is.
pub open spec fn ink(fg: u32) -> Style {
    Style { fg: Some(fg), bg: None, bold: false, underlined: false }
}

/// No style of its own.
pub open spec fn unstyled() -> Style {
    Style { fg: None, bg: None, bold: false, underlined: false }
}

pub fn raw() -> (r: Style)
    ensures
        r == unstyled(),
{
    Style { fg: None, bg: None, bold: false, underlined: false }
}

/// The whole screen.
pub fn app() -> (r: Style)
    ensures
        r == plain(mocha::TEXT, mocha::BASE),
{
    Style {
        fg: Some(mocha::TEXT),
        bg: Some(mocha::BASE),
        bold: false,
        underlined: false,
    }
}

/// The list.
pub fn panel() -> (r: Style)
    ensures
        r == plain(mocha::TEXT, mocha::BASE),
{
    Style {
        fg: Some(mocha::TEXT),
        bg: Some(mocha::BASE),
        bold: false,
        underlined: false,
    }
}

/// What stands above the list.
pub fn header() -> (r: Style)
    ensures
        r == plain(mocha::TEXT, mocha::MANTLE),
{
    Style {
        fg: Some(mocha::TEXT),
        bg: Some(mocha::MANTLE),
        bold: false,
        underlined: false,
    }
}

/// The lines around a part of the screen.
pub fn border() -> (r: Style)
    ensures
        r == ink(mocha::SURFACE_2),
{
    Style {
        fg: Some(mocha::SURFACE_2),
        bg: None,
        bold: false,
        underlined: false,
    }
}

/// The search field while it is empty.
pub fn search_prompt() -> (r: Style)
    ensures
        r == plain(mocha::OVERLAY_0, mocha::MANTLE),
{
    Style {
        fg: Some(mocha::OVERLAY_0),
        bg: Some(mocha::MANTLE),
        bold: false,
        underlined: false,
    }
}

/// What is searched for.
pub fn search_text() -> (r: Style)
    ensures
        r == plain(mocha::TEXT, mocha::MANTLE),
{
    Style {
        fg: Some(mocha::TEXT),
        bg: Some(mocha::MANTLE),
        bold: false,
        underlined: false,
    }
}

/// A list that is not shown.
pub fn tab() -> (r: Style)
    ensures
        r == plain(mocha::SUBTEXT_0, mocha::MANTLE),
{
    Style {
        fg: Some(mocha::SUBTEXT_0),
        bg: Some(mocha::MANTLE),
        bold: false,
        underlined: false,
    }
}

/// The list that is shown.
pub fn selected_tab() -> (r: Style)
    ensures
        r == (Style { bold: true, underlined: true, ..plain(mocha::MAUVE, mocha::SURFACE_1) }),
{
    Style {
        fg: Some(mocha::MAUVE),
        bg: Some(mocha::SURFACE_1),
        bold: true,
        underlined: true,
    }
}

/// The entry in focus.
pub fn selected_row() -> (r: Style)
    ensures
        r == (Style { bold: true, underlined: false, ..plain(mocha::TEXT, mocha::SURFACE_1) }),
{
    Style {
        fg: Some(mocha::TEXT),
        bg: Some(mocha::SURFACE_1),
        bold: true,
        underlined: false,
    }
}

/// A checkbox that is on.
pub fn checked() -> (r: Style)
    ensures
        r == ink(mocha::GREEN),
{
    Style {
        fg: Some(mocha::GREEN),
        bg: None,
        bold: false,
        underlined: false,
    }
}

/// A checkbox that is off.
pub fn unchecked() -> (r: Style)
    ensures
        r == ink(mocha::OVERLAY_0),
{
    Style {
        fg: Some(mocha::OVERLAY_0),
        bg: None,
        bold: false,
        underlined: false,
    }
}

/// A name that the Target does not have.
pub fn alias() -> (r: Style)
    ensures
        r == ink(mocha::GREEN),
{
    Style {
        fg: Some(mocha::GREEN),
        bg: None,
        bold: false,
        underlined: false,
    }
}

/// The state of an entry.
pub fn status() -> (r: Style)
    ensures
        r == ink(mocha::PEACH),
{
    Style {
        fg: Some(mocha::PEACH),
        bg: None,
        bold: false,
        underlined: false,
    }
}

/// An entry with a defect.
pub fn warning() -> (r: Style)
    ensures
        r == ink(mocha::YELLOW),
{
    Style {
        fg: Some(mocha::YELLOW),
        bg: None,
        bold: false,
        underlined: false,
    }
}

/// An error.
pub fn error() -> (r: Style)
    ensures
        r == ink(mocha::RED),
{
    Style {
        fg: Some(mocha::RED),
        bg: None,
        bold: false,
        underlined: false,
    }
}

/// The hints below the list.
pub fn footer() -> (r: Style)
    ensures
        r == plain(mocha::SUBTEXT_0, mocha::SURFACE_0),
{
    Style {
        fg: Some(mocha::SUBTEXT_0),
        bg: Some(mocha::SURFACE_0),
        bold: false,
        underlined: false,
    }
}

/// A dialog.
pub fn dialog() -> (r: Style)
    ensures
        r == plain(mocha::TEXT, mocha::MANTLE),
{
    Style {
        fg: Some(mocha::TEXT),
        bg: Some(mocha::MANTLE),
        bold: false,
        underlined: false,
    }
}

/// The lines around a dialog.
pub fn dialog_border() -> (r: Style)
    ensures
        r == plain(mocha::MAUVE, mocha::MANTLE),
{
    Style {
        fg: Some(mocha::MAUVE),
        bg: Some(mocha::MANTLE),
        bold: false,
        underlined: false,
    }
}

/// What stands above a dialog.
pub fn dialog_title() -> (r: Style)
    ensures
        r == (Style { bold: true, underlined: false, ..plain(mocha::LAVENDER, mocha::MANTLE) }),
{
    Style {
        fg: Some(mocha::LAVENDER),
        bg: Some(mocha::MANTLE),
        bold: true,
        underlined: false,
    }
}

/// What stands in place of an empty list.
pub fn empty() -> (r: Style)
    ensures
        r == plain(mocha::SUBTEXT_0, mocha::BASE),
{
    Style {
        fg: Some(mocha::SUBTEXT_0),
        bg: Some(mocha::BASE),
        bold: false,
        underlined: false,
    }
}

} // verus!
