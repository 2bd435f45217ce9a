//! The colours chrome is painted with, by the role each one plays.

use vstd::prelude::*;

use crate::proto::{Cell, Color};

verus! {

/// A role a colour plays in the chrome.
#[derive(Clone, Copy, Debug, PartialEq, Eq, Structural)]
pub enum ThemeToken {
    Frame,
    Surface,
    RaisedSurface,
    Border,
    Accent,
    Primary,
    Muted,
    Success,
    Warning,
    Error,
    Info,
    DefaultText,
}

/// One resolved palette: a colour for every role.
#[derive(Clone, Copy, Debug, PartialEq, Eq, Structural)]
pub struct Theme {
    pub frame: Color,
    pub surface: Color,
    pub raised_surface: Color,
    pub border: Color,
    pub accent: Color,
    pub primary: Color,
    pub muted: Color,
    pub success: Color,
    pub warning: Color,
    pub error: Color,
    pub info: Color,
    pub default_text: Color,
}

impl Theme {
    /// The reference palette every row is composed in before it is mapped.
    #[verifier::allow_in_spec]
    pub fn storm() -> Theme
        returns
            (Theme {
                frame: Color::Rgb(0x0f, 0x0f, 0x16),
                surface: Color::Rgb(0x1a, 0x1b, 0x26),
                raised_surface: Color::Rgb(0x24, 0x28, 0x3b),
                border: Color::Rgb(0x2a, 0x2e, 0x42),
                accent: Color::Rgb(0xbb, 0x9a, 0xf7),
                primary: Color::Rgb(0xc0, 0xca, 0xf5),
                muted: Color::Rgb(0x56, 0x5f, 0x89),
                success: Color::Rgb(0x9e, 0xce, 0x6a),
                warning: Color::Rgb(0xe0, 0xaf, 0x68),
                error: Color::Rgb(0xf7, 0x76, 0x8e),
                info: Color::Rgb(0x7d, 0xcf, 0xff),
                default_text: Color::Rgb(0xc0, 0xca, 0xf5),
            }),
    {
        Theme {
            frame: Color::Rgb(0x0f, 0x0f, 0x16),
            surface: Color::Rgb(0x1a, 0x1b, 0x26),
            raised_surface: Color::Rgb(0x24, 0x28, 0x3b),
            border: Color::Rgb(0x2a, 0x2e, 0x42),
            accent: Color::Rgb(0xbb, 0x9a, 0xf7),
            primary: Color::Rgb(0xc0, 0xca, 0xf5),
            muted: Color::Rgb(0x56, 0x5f, 0x89),
            success: Color::Rgb(0x9e, 0xce, 0x6a),
            warning: Color::Rgb(0xe0, 0xaf, 0x68),
            error: Color::Rgb(0xf7, 0x76, 0x8e),
            info: Color::Rgb(0x7d, 0xcf, 0xff),
            default_text: Color::Rgb(0xc0, 0xca, 0xf5),
        }
    }

    /// The colour `token` has here.
    #[verifier::allow_in_spec]
    pub fn color(self, token: ThemeToken) -> Color
        returns
            (match token {
                ThemeToken::Frame => self.frame,
                ThemeToken::Surface => self.surface,
                ThemeToken::RaisedSurface => self.raised_surface,
                ThemeToken::Border => self.border,
                ThemeToken::Accent => self.accent,
                ThemeToken::Primary => self.primary,
                ThemeToken::Muted => self.muted,
                ThemeToken::Success => self.success,
                ThemeToken::Warning => self.warning,
                ThemeToken::Error => self.error,
                ThemeToken::Info => self.info,
                ThemeToken::DefaultText => self.default_text,
            }),
    {
        match token {
            ThemeToken::Frame => self.frame,
            ThemeToken::Surface => self.surface,
            ThemeToken::RaisedSurface => self.raised_surface,
            ThemeToken::Border => self.border,
            ThemeToken::Accent => self.accent,
            ThemeToken::Primary => self.primary,
            ThemeToken::Muted => self.muted,
            ThemeToken::Success => self.success,
            ThemeToken::Warning => self.warning,
            ThemeToken::Error => self.error,
            ThemeToken::Info => self.info,
            ThemeToken::DefaultText => self.default_text,
        }
    }

    /// The colour that stands here for `color` of the reference palette; a
    /// colour outside that palette is kept.
    pub open spec fn mapped(self, color: Color) -> Color {
        let storm = Theme::storm();
        if color == storm.frame {
            self.frame
        } else if color == storm.surface {
            self.surface
        } else if color == storm.raised_surface {
            self.raised_surface
        } else if color == storm.border {
            self.border
        } else if color == storm.accent {
            self.accent
        } else if color == storm.primary {
            self.primary
        } else if color == storm.muted {
            self.muted
        } else if color == storm.success {
            self.success
        } else if color == storm.warning {
            self.warning
        } else if color == storm.error {
            self.error
        } else if color == storm.info {
            self.info
        } else {
            color
        }
    }

    fn map_color(self, color: Color) -> (mapped: Color)
        ensures
            mapped == self.mapped(color),
    {
        let storm = Theme::storm();
        if color == storm.frame {
            self.frame
        } else if color == storm.surface {
            self.surface
        } else if color == storm.raised_surface {
            self.raised_surface
        } else if color == storm.border {
            self.border
        } else if color == storm.accent {
            self.accent
        } else if color == storm.primary {
            self.primary
        } else if color == storm.muted {
            self.muted
        } else if color == storm.success {
            self.success
        } else if color == storm.warning {
            self.warning
        } else if color == storm.error {
            self.error
        } else if color == storm.info {
            self.info
        } else {
            color
        }
    }

    /// `cell` with both colours mapped into this palette.
    pub open spec fn mapped_cell(self, cell: Cell) -> Cell {
        Cell { ch: cell.ch, fg: self.mapped(cell.fg), bg: self.mapped(cell.bg), attrs: cell.attrs }
    }

    /// `cells`, each mapped into this palette.
    pub open spec fn mapped_cells(self, cells: Seq<Cell>) -> Seq<Cell> {
        cells.map_values(|cell: Cell| self.mapped_cell(cell))
    }

    /// Maps one cell composed in the reference palette.
    pub fn map_storm_cell(self, cell: Cell) -> (mapped: Cell)
        ensures
            mapped == self.mapped_cell(cell),
    {
        Cell {
            ch: cell.ch,
            fg: self.map_color(cell.fg),
            bg: self.map_color(cell.bg),
            attrs: cell.attrs,
        }
    }

    /// Maps a row composed in the reference palette.
    pub fn map_storm_cells(self, cells: Vec<Cell>) -> (mapped: Vec<Cell>)
        ensures
            mapped@ == self.mapped_cells(cells@),
    {
        let mut mapped: Vec<Cell> = Vec::new();
        for i in 0..cells.len()
            invariant
                mapped@ == self.mapped_cells(cells@.take(i as int)),
        {
            mapped.push(self.map_storm_cell(cells[i]));
            assert(cells@.take(i + 1) == cells@.take(i as int).push(cells@[i as int]));
        }
        assert(cells@.take(cells@.len() as int) == cells@);
        mapped
    }

    /// A child's own cell with the terminal defaults resolved: default text
    /// and the pane surface. A colour the child chose is kept.
    pub open spec fn child_cell(self, cell: Cell) -> Cell {
        Cell {
            ch: cell.ch,
            fg: if cell.fg == Color::Default {
                self.default_text
            } else {
                cell.fg
            },
            bg: if cell.bg == Color::Default {
                self.surface
            } else {
                cell.bg
            },
            attrs: cell.attrs,
        }
    }

    /// Resolves the terminal defaults of a child's cell.
    pub fn map_child_cell(self, cell: Cell) -> (mapped: Cell)
        ensures
            mapped == self.child_cell(cell),
    {
        Cell {
            ch: cell.ch,
            fg: if cell.fg == Color::Default {
                self.default_text
            } else {
                cell.fg
            },
            bg: if cell.bg == Color::Default {
                self.surface
            } else {
                cell.bg
            },
            attrs: cell.attrs,
        }
    }
}

/// The reference palette maps to itself.
pub proof fn storm_maps_to_itself(cell: Cell)
    ensures
        Theme::storm().mapped_cell(cell) == cell,
{
}

/// A child's own cell is its own: the character, the attributes and every colour
/// it chose are drawn as they are, palette entries included. Only the terminal's
/// default colours are resolved.
pub proof fn a_childs_own_colours_are_kept(theme: Theme, cell: Cell)
    ensures
        theme.child_cell(cell).ch == cell.ch,
        theme.child_cell(cell).attrs == cell.attrs,
        cell.fg != Color::Default ==> theme.child_cell(cell).fg == cell.fg,
        cell.bg != Color::Default ==> theme.child_cell(cell).bg == cell.bg,
        cell.fg == Color::Default ==> theme.child_cell(cell).fg == theme.default_text,
        cell.bg == Color::Default ==> theme.child_cell(cell).bg == theme.surface,
{
}

/// A palette gives each role of the reference palette its own colour for that
/// role, keeps every other colour, and changes nothing else of a cell.
pub proof fn a_palette_maps_roles_and_nothing_else(theme: Theme, cell: Cell)
    ensures
        theme.mapped_cell(cell).ch == cell.ch,
        theme.mapped_cell(cell).attrs == cell.attrs,
        theme.mapped_cell(cell).fg == theme.mapped(cell.fg),
        theme.mapped_cell(cell).bg == theme.mapped(cell.bg),
        theme.mapped(Color::Rgb(0x0f, 0x0f, 0x16)) == theme.frame,
        theme.mapped(Color::Rgb(0x1a, 0x1b, 0x26)) == theme.surface,
        theme.mapped(Color::Rgb(0x24, 0x28, 0x3b)) == theme.raised_surface,
        theme.mapped(Color::Rgb(0x2a, 0x2e, 0x42)) == theme.border,
        theme.mapped(Color::Rgb(0xbb, 0x9a, 0xf7)) == theme.accent,
        theme.mapped(Color::Rgb(0xc0, 0xca, 0xf5)) == theme.primary,
        theme.mapped(Color::Rgb(0x56, 0x5f, 0x89)) == theme.muted,
        theme.mapped(Color::Rgb(0x9e, 0xce, 0x6a)) == theme.success,
        theme.mapped(Color::Rgb(0xe0, 0xaf, 0x68)) == theme.warning,
        theme.mapped(Color::Rgb(0xf7, 0x76, 0x8e)) == theme.error,
        theme.mapped(Color::Rgb(0x7d, 0xcf, 0xff)) == theme.info,
        theme.mapped(cell.fg) == cell.fg || Seq::new(
            12,
            |i: int| Theme::storm().color(every_role()[i]),
        ).contains(cell.fg),
{
    let roles = Seq::new(12, |i: int| Theme::storm().color(every_role()[i]));
    let storm = Theme::storm();
    assert(roles[0] == storm.frame);
    assert(roles[1] == storm.surface);
    assert(roles[2] == storm.raised_surface);
    assert(roles[3] == storm.border);
    assert(roles[4] == storm.accent);
    assert(roles[5] == storm.primary);
    assert(roles[6] == storm.muted);
    assert(roles[7] == storm.success);
    assert(roles[8] == storm.warning);
    assert(roles[9] == storm.error);
    assert(roles[10] == storm.info);
}

/// Every role.
pub open spec fn every_role() -> Seq<ThemeToken> {
    seq![
        ThemeToken::Frame,
        ThemeToken::Surface,
        ThemeToken::RaisedSurface,
        ThemeToken::Border,
        ThemeToken::Accent,
        ThemeToken::Primary,
        ThemeToken::Muted,
        ThemeToken::Success,
        ThemeToken::Warning,
        ThemeToken::Error,
        ThemeToken::Info,
        ThemeToken::DefaultText,
    ]
}

/// Each role reads its own colour of a palette.
pub proof fn a_role_reads_its_own_colour(theme: Theme)
    ensures
        theme.color(ThemeToken::Frame) == theme.frame,
        theme.color(ThemeToken::Surface) == theme.surface,
        theme.color(ThemeToken::RaisedSurface) == theme.raised_surface,
        theme.color(ThemeToken::Border) == theme.border,
        theme.color(ThemeToken::Accent) == theme.accent,
        theme.color(ThemeToken::Primary) == theme.primary,
        theme.color(ThemeToken::Muted) == theme.muted,
        theme.color(ThemeToken::Success) == theme.success,
        theme.color(ThemeToken::Warning) == theme.warning,
        theme.color(ThemeToken::Error) == theme.error,
        theme.color(ThemeToken::Info) == theme.info,
        theme.color(ThemeToken::DefaultText) == theme.default_text,
{
}

} // verus!
