//! The reference palette chrome is composed in, before a theme maps it.

use vstd::prelude::*;

use crate::cells::{painted, push_char, push_number, push_styled};
use crate::proto::{Cell, CellAttrs, Color};
use crate::text::decimal;
use crate::theme::Theme;

verus! {

/// The space between panes.
#[verifier::allow_in_spec]
pub fn frame() -> Color
    returns
        (Color::Rgb(0x0f, 0x0f, 0x16)),
{
    Color::Rgb(0x0f, 0x0f, 0x16)
}

/// The chrome and pane base surface.
#[verifier::allow_in_spec]
pub fn surface() -> Color
    returns
        (Color::Rgb(0x1a, 0x1b, 0x26)),
{
    Color::Rgb(0x1a, 0x1b, 0x26)
}

/// The raised surface behind active tabs and overlays.
#[verifier::allow_in_spec]
pub fn raised_surface() -> Color
    returns
        (Color::Rgb(0x24, 0x28, 0x3b)),
{
    Color::Rgb(0x24, 0x28, 0x3b)
}

/// The border of an unfocused pane.
#[verifier::allow_in_spec]
pub fn border() -> Color
    returns
        (Color::Rgb(0x2a, 0x2e, 0x42)),
{
    Color::Rgb(0x2a, 0x2e, 0x42)
}

/// Focus, selection, and active controls.
#[verifier::allow_in_spec]
pub fn accent() -> Color
    returns
        (Color::Rgb(0xbb, 0x9a, 0xf7)),
{
    Color::Rgb(0xbb, 0x9a, 0xf7)
}

/// Labels and important text.
#[verifier::allow_in_spec]
pub fn primary() -> Color
    returns
        (Color::Rgb(0xc0, 0xca, 0xf5)),
{
    Color::Rgb(0xc0, 0xca, 0xf5)
}

/// Secondary text.
#[verifier::allow_in_spec]
pub fn muted() -> Color
    returns
        (Color::Rgb(0x56, 0x5f, 0x89)),
{
    Color::Rgb(0x56, 0x5f, 0x89)
}

/// Success and ready state.
#[verifier::allow_in_spec]
pub fn success() -> Color
    returns
        (Color::Rgb(0x9e, 0xce, 0x6a)),
{
    Color::Rgb(0x9e, 0xce, 0x6a)
}

/// Caution and pending state.
#[verifier::allow_in_spec]
pub fn warning() -> Color
    returns
        (Color::Rgb(0xe0, 0xaf, 0x68)),
{
    Color::Rgb(0xe0, 0xaf, 0x68)
}

/// Failure and bell state.
#[verifier::allow_in_spec]
pub fn error() -> Color
    returns
        (Color::Rgb(0xf7, 0x76, 0x8e)),
{
    Color::Rgb(0xf7, 0x76, 0x8e)
}

/// Paths and informational state.
#[verifier::allow_in_spec]
pub fn info() -> Color
    returns
        (Color::Rgb(0x7d, 0xcf, 0xff)),
{
    Color::Rgb(0x7d, 0xcf, 0xff)
}

/// A blank of the chrome surface.
#[verifier::allow_in_spec]
pub fn chrome_blank() -> Cell
    returns
        (Cell { ch: ' ', fg: Color::Default, bg: surface(), attrs: CellAttrs::none() }),
{
    Cell { ch: ' ', fg: Color::Default, bg: surface(), attrs: CellAttrs::none() }
}

/// `text` over the chrome surface.
pub open spec fn plain(text: Seq<char>, fg: Color, attrs: CellAttrs) -> Seq<Cell> {
    painted(text, fg, surface(), attrs)
}

/// Appends `text` over the chrome surface.
pub fn push_str(cells: &mut Vec<Cell>, text: &str, fg: Color, attrs: CellAttrs)
    ensures
        final(cells)@ == old(cells)@ + plain(text@, fg, attrs),
{
    push_styled(cells, text, fg, surface(), attrs);
}

/// Appends one character over the chrome surface.
pub fn push_glyph(cells: &mut Vec<Cell>, ch: char, fg: Color, attrs: CellAttrs)
    ensures
        final(cells)@ == old(cells)@ + plain(seq![ch], fg, attrs),
{
    push_char(cells, ch, fg, surface(), attrs);
}

/// Appends a number over the chrome surface.
pub fn push_count(cells: &mut Vec<Cell>, value: usize, fg: Color, attrs: CellAttrs)
    ensures
        final(cells)@ == old(cells)@ + plain(decimal(value as nat), fg, attrs),
{
    push_number(cells, value as u64, fg, surface(), attrs);
}

/// Chrome is composed in the reference palette: each role's colour is the one
/// that palette has for it, so any other palette can stand in for it.
pub proof fn the_palette_is_the_reference_palette(theme: Theme)
    ensures
        theme.mapped(frame()) == theme.frame,
        theme.mapped(surface()) == theme.surface,
        theme.mapped(raised_surface()) == theme.raised_surface,
        theme.mapped(border()) == theme.border,
        theme.mapped(accent()) == theme.accent,
        theme.mapped(primary()) == theme.primary,
        theme.mapped(muted()) == theme.muted,
        theme.mapped(success()) == theme.success,
        theme.mapped(warning()) == theme.warning,
        theme.mapped(error()) == theme.error,
        theme.mapped(info()) == theme.info,
{
}

} // verus!
