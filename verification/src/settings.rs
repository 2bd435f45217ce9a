//! The preferences a client draws with, and the read-only surface that reports
//! them beside a live preview.

use vstd::prelude::*;

use crate::attention::Attention;
use crate::cells::{exactly, push_cells, repeated, to_width};
use crate::chrome::{
    body_row, body_span, bottom_frame_cells, framed_cell, header_row, side_frame_cell,
    top_frame_cells, ChromeOptions, PaneChrome, PaneChromeView,
};
use crate::proto::{Cell, CellAttrs, Color, Point};
use crate::rows::{
    blank_cell, field, no_field, row_blank, row_cells, row_line, Field, RowSpec, RowView,
};
use crate::status_bar::StatusMode;
use crate::text::chars_of;
use crate::theme::{Theme, ThemeToken};

verus! {

/// A palette that has a name.
#[derive(Clone, Copy, Debug, PartialEq, Eq, Structural)]
pub enum ThemeName {
    Storm,
    Night,
    Gruvbox,
    Nord,
}

/// Every named palette, in the order they are listed.
pub const THEME_NAMES: [ThemeName; 4] = [
    ThemeName::Storm,
    ThemeName::Night,
    ThemeName::Gruvbox,
    ThemeName::Nord,
];

impl ThemeName {
    /// The word [`as_str`](ThemeName::as_str) answers with.
    pub open spec fn word(self) -> Seq<char> {
        match self {
            ThemeName::Storm => "storm"@,
            ThemeName::Night => "night"@,
            ThemeName::Gruvbox => "gruvbox"@,
            ThemeName::Nord => "nord"@,
        }
    }

    /// How the configuration spells it.
    pub fn as_str(self) -> (word: &'static str)
        ensures
            word@ == self.word(),
    {
        match self {
            ThemeName::Storm => "storm",
            ThemeName::Night => "night",
            ThemeName::Gruvbox => "gruvbox",
            ThemeName::Nord => "nord",
        }
    }
}

/// Which palette the client was asked for.
#[derive(Clone, Copy, Debug, PartialEq, Eq, Structural)]
pub enum ThemeChoice {
    /// One of the named ones.
    Named(ThemeName),
    /// The outer terminal's own.
    Terminal,
}

impl ThemeChoice {
    /// The palette that was named, if one was.
    #[verifier::allow_in_spec]
    pub fn named(self) -> Option<ThemeName>
        returns
            (match self {
                ThemeChoice::Named(name) => Some(name),
                ThemeChoice::Terminal => None,
            }),
    {
        match self {
            ThemeChoice::Named(name) => Some(name),
            ThemeChoice::Terminal => None,
        }
    }

    /// The word [`as_str`](ThemeChoice::as_str) answers with.
    pub open spec fn word(self) -> Seq<char> {
        match self {
            ThemeChoice::Named(name) => name.word(),
            ThemeChoice::Terminal => "terminal"@,
        }
    }

    /// How the configuration spells it.
    pub fn as_str(self) -> (word: &'static str)
        ensures
            word@ == self.word(),
    {
        match self {
            ThemeChoice::Named(name) => name.as_str(),
            ThemeChoice::Terminal => "terminal",
        }
    }
}

/// The preferences one client resolved.
#[derive(Clone, Copy, Debug, PartialEq, Eq, Structural)]
pub struct VisualConfig {
    pub theme: ThemeChoice,
    pub dim_unfocused: bool,
    pub status: StatusMode,
    pub motion: bool,
    pub reduce_motion: bool,
}

impl VisualConfig {
    /// What an empty configuration resolves to.
    #[verifier::allow_in_spec]
    pub fn defaults() -> VisualConfig
        returns
            (VisualConfig {
                theme: ThemeChoice::Named(ThemeName::Storm),
                dim_unfocused: true,
                status: StatusMode::Minimal,
                motion: true,
                reduce_motion: false,
            }),
    {
        VisualConfig {
            theme: ThemeChoice::Named(ThemeName::Storm),
            dim_unfocused: true,
            status: StatusMode::Minimal,
            motion: true,
            reduce_motion: false,
        }
    }
}

/// The named palettes, each resolved for the terminal a client is attached to.
#[derive(Clone, Copy, Debug, PartialEq, Eq, Structural)]
pub struct Swatches {
    pub storm: Theme,
    pub night: Theme,
    pub gruvbox: Theme,
    pub nord: Theme,
}

impl Swatches {
    /// One named palette.
    #[verifier::allow_in_spec]
    pub fn of(self, name: ThemeName) -> Theme
        returns
            (match name {
                ThemeName::Storm => self.storm,
                ThemeName::Night => self.night,
                ThemeName::Gruvbox => self.gruvbox,
                ThemeName::Nord => self.nord,
            }),
    {
        match name {
            ThemeName::Storm => self.storm,
            ThemeName::Night => self.night,
            ThemeName::Gruvbox => self.gruvbox,
            ThemeName::Nord => self.nord,
        }
    }
}

/// The roles one palette's swatch chips stand for.
pub const SWATCH_TOKENS: [ThemeToken; 5] = [
    ThemeToken::Accent,
    ThemeToken::Info,
    ThemeToken::Success,
    ThemeToken::Warning,
    ThemeToken::Error,
];

/// The column the palette names are padded to, so the chips form one column.
pub const THEME_NAME_WIDTH: usize = 7;

/// The narrowest body a preview pane is still legible in.
pub const PREVIEW_MIN_BODY: u16 = 7;

/// The rows the live preview block occupies: its label and a framed pane pair.
pub const PREVIEW_ROWS: usize = 4;

/// The sample line drawn inside each preview pane body.
pub const PREVIEW_BODY: &'static str = "$ cloo";

/// One line of the configuration surface's list.
#[derive(Debug, PartialEq, Eq)]
pub enum ConfigRow {
    /// A muted divider naming what follows.
    Section(&'static str),
    /// One effective preference and the value this client resolved for it.
    Setting { name: &'static str, value: String },
    /// One named palette, and whether it is the active choice.
    Theme { name: ThemeName, active: bool },
}

/// A line of the list by its contents.
#[verifier::ext_equal]
pub enum ConfigRowView {
    Section(Seq<char>),
    Setting { name: Seq<char>, value: Seq<char> },
    Theme { name: ThemeName, active: bool },
}

impl View for ConfigRow {
    type V = ConfigRowView;

    open spec fn view(&self) -> ConfigRowView {
        match self {
            ConfigRow::Section(label) => ConfigRowView::Section(label@),
            ConfigRow::Setting { name, value } => ConfigRowView::Setting {
                name: name@,
                value: value@,
            },
            ConfigRow::Theme { name, active } => ConfigRowView::Theme {
                name: *name,
                active: *active,
            },
        }
    }
}

impl Clone for ConfigRow {
    fn clone(&self) -> (copy: ConfigRow)
        ensures
            copy@ == self@,
    {
        match self {
            ConfigRow::Section(label) => ConfigRow::Section(*label),
            ConfigRow::Setting { name, value } => ConfigRow::Setting {
                name: *name,
                value: value.clone(),
            },
            ConfigRow::Theme { name, active } => ConfigRow::Theme { name: *name, active: *active },
        }
    }
}

/// Lines by their contents.
pub open spec fn config_row_views(rows: Seq<ConfigRow>) -> Seq<ConfigRowView> {
    rows.map_values(|row: ConfigRow| row@)
}

/// A switch in the configuration's words.
pub open spec fn on_off(value: bool) -> Seq<char> {
    if value {
        "on"@
    } else {
        "off"@
    }
}

/// The status row's composition in the configuration's words.
pub open spec fn status_word(status: StatusMode) -> Seq<char> {
    match status {
        StatusMode::Minimal => "minimal"@,
        StatusMode::Powerline => "powerline"@,
    }
}

/// One preference.
pub open spec fn setting(name: Seq<char>, value: Seq<char>) -> ConfigRowView {
    ConfigRowView::Setting { name, value }
}

/// The list: every preference as this client resolved it, then the named
/// palettes, the active one marked.
pub open spec fn config_list(visual: VisualConfig, prefix: Seq<char>) -> Seq<ConfigRowView> {
    seq![
        setting("theme "@, visual.theme.word()),
        setting(
            "focus "@,
            if visual.dim_unfocused {
                "dim unfocused"@
            } else {
                "no dim"@
            },
        ),
        setting("status"@, status_word(visual.status)),
        setting("motion"@, on_off(visual.motion)),
        setting("reduce"@, on_off(visual.reduce_motion)),
        setting("keys  "@, prefix),
        ConfigRowView::Section("themes"@),
        theme_line(ThemeName::Storm, visual),
        theme_line(ThemeName::Night, visual),
        theme_line(ThemeName::Gruvbox, visual),
        theme_line(ThemeName::Nord, visual),
    ]
}

/// The line of one named palette.
pub open spec fn theme_line(name: ThemeName, visual: VisualConfig) -> ConfigRowView {
    ConfigRowView::Theme { name, active: visual.theme == ThemeChoice::Named(name) }
}

fn on_off_word(value: bool) -> (word: &'static str)
    ensures
        word@ == on_off(value),
{
    if value {
        "on"
    } else {
        "off"
    }
}

impl StatusMode {
    /// How the configuration spells it.
    pub fn as_str(self) -> (word: &'static str)
        ensures
            word@ == status_word(self),
    {
        match self {
            StatusMode::Minimal => "minimal",
            StatusMode::Powerline => "powerline",
        }
    }
}

/// The effective runtime configuration, as a read-only surface.
#[derive(Debug, PartialEq, Eq)]
pub struct ConfigPreview {
    visual: VisualConfig,
    swatches: Swatches,
    rows: Vec<ConfigRow>,
}

/// The surface by its contents.
#[verifier::ext_equal]
pub struct ConfigView {
    pub visual: VisualConfig,
    pub swatches: Swatches,
    pub rows: Seq<ConfigRowView>,
}

impl View for ConfigPreview {
    type V = ConfigView;

    closed spec fn view(&self) -> ConfigView {
        ConfigView {
            visual: self.visual,
            swatches: self.swatches,
            rows: config_row_views(self.rows@),
        }
    }
}

/// The surface over one client's preferences.
pub open spec fn config_of(visual: VisualConfig, prefix: Seq<char>, swatches: Swatches) -> ConfigView {
    ConfigView { visual, swatches, rows: config_list(visual, prefix) }
}

impl Clone for ConfigPreview {
    fn clone(&self) -> (copy: ConfigPreview)
        ensures
            copy@ == self@,
    {
        let mut rows: Vec<ConfigRow> = Vec::new();
        for i in 0..self.rows.len()
            invariant
                config_row_views(rows@) == config_row_views(self.rows@).take(i as int),
        {
            let ghost before = config_row_views(rows@);
            let row = self.rows[i].clone();
            rows.push(row);
            assert(config_row_views(rows@) =~= before.push(row@));
            assert(config_row_views(self.rows@).take(i + 1) =~= before.push(
                self.rows@[i as int]@,
            ));
        }
        assert(config_row_views(self.rows@).take(self.rows@.len() as int) =~= config_row_views(
            self.rows@,
        ));
        ConfigPreview { visual: self.visual, swatches: self.swatches, rows }
    }
}

impl ConfigPreview {
    /// Describes the preferences one attached client resolved.
    pub fn new(visual: VisualConfig, prefix: &str, swatches: Swatches) -> (preview: ConfigPreview)
        ensures
            preview@ == config_of(visual, prefix@, swatches),
    {
        let focus: &'static str = if visual.dim_unfocused {
            "dim unfocused"
        } else {
            "no dim"
        };
        let rows: Vec<ConfigRow> = vec![
            ConfigRow::Setting { name: "theme ", value: visual.theme.as_str().to_owned() },
            ConfigRow::Setting { name: "focus ", value: focus.to_owned() },
            ConfigRow::Setting { name: "status", value: visual.status.as_str().to_owned() },
            ConfigRow::Setting { name: "motion", value: on_off_word(visual.motion).to_owned() },
            ConfigRow::Setting {
                name: "reduce",
                value: on_off_word(visual.reduce_motion).to_owned(),
            },
            ConfigRow::Setting { name: "keys  ", value: prefix.to_owned() },
            ConfigRow::Section("themes"),
            ConfigPreview::theme_row(ThemeName::Storm, visual),
            ConfigPreview::theme_row(ThemeName::Night, visual),
            ConfigPreview::theme_row(ThemeName::Gruvbox, visual),
            ConfigPreview::theme_row(ThemeName::Nord, visual),
        ];
        assert(config_row_views(rows@) =~= config_list(visual, prefix@));
        ConfigPreview { visual, swatches, rows }
    }

    fn theme_row(name: ThemeName, visual: VisualConfig) -> (row: ConfigRow)
        ensures
            row@ == theme_line(name, visual),
    {
        ConfigRow::Theme { name, active: visual.theme == ThemeChoice::Named(name) }
    }

    /// The preferences this surface is reporting.
    pub fn visual(&self) -> (visual: VisualConfig)
        ensures
            visual == self@.visual,
    {
        self.visual
    }

    /// How many lines the list has.
    pub fn count(&self) -> (count: usize)
        ensures
            count == self@.rows.len(),
    {
        self.rows.len()
    }

    /// One line of the list as an overlay row.
    pub fn row(&self, index: usize, selected: bool, theme: Theme) -> (row: RowSpec)
        requires
            index < self@.rows.len(),
        ensures
            row@ == config_row(self@, index as int, selected, theme),
    {
        let primary = if selected {
            theme.color(ThemeToken::Accent)
        } else {
            theme.color(ThemeToken::Primary)
        };
        let muted = theme.color(ThemeToken::Muted);
        assert(self@.rows[index as int] == self.rows@[index as int]@);
        match &self.rows[index] {
            ConfigRow::Section(label) => {
                let row = RowSpec {
                    selected,
                    lead: Field::new("", Color::Default, CellAttrs::none()),
                    title: Field::new(*label, muted, CellAttrs::none()),
                    extras: Vec::new(),
                };
                assert(row@ =~= config_row(self@, index as int, selected, theme));
                row
            },
            ConfigRow::Setting { name, value } => {
                let row = RowSpec {
                    selected,
                    lead: Field::new(*name, muted, CellAttrs::none()),
                    title: Field::new(value.as_str(), primary, CellAttrs::none()),
                    extras: Vec::new(),
                };
                assert(row@ =~= config_row(self@, index as int, selected, theme));
                row
            },
            ConfigRow::Theme { name, active } => {
                let swatch = self.swatches.of(*name);
                let lead = if *active {
                    Field::new("*", theme.color(ThemeToken::Success), CellAttrs::none())
                } else {
                    Field::new(" ", muted, CellAttrs::none())
                };
                let row = RowSpec {
                    selected,
                    lead,
                    title: Field::of_chars(padded_name(*name), primary, CellAttrs::bold()),
                    extras: swatch_fields(swatch),
                };
                assert(row@ =~= config_row(self@, index as int, selected, theme));
                row
            },
        }
    }
}

/// A palette's name, padded so the chips behind it line up.
pub open spec fn name_column(name: ThemeName) -> Seq<char> {
    name.word() + Seq::new(
        if name.word().len() >= THEME_NAME_WIDTH {
            0
        } else {
            (THEME_NAME_WIDTH - name.word().len()) as nat
        },
        |i: int| ' ',
    )
}

fn padded_name(name: ThemeName) -> (chars: Vec<char>)
    ensures
        chars@ == name_column(name),
{
    let mut chars = chars_of(name.as_str());
    let ghost word = name.word();
    while chars.len() < THEME_NAME_WIDTH
        invariant
            word == name.word(),
            chars@.len() >= word.len(),
            chars@ == word + Seq::new((chars@.len() - word.len()) as nat, |i: int| ' '),
            chars@.len() <= THEME_NAME_WIDTH || chars@ == word,
        decreases THEME_NAME_WIDTH - chars.len(),
    {
        let ghost before = chars@;
        chars.push(' ');
        assert(chars@ =~= word + Seq::new((chars@.len() - word.len()) as nat, |i: int| ' '));
    }
    assert(chars@ =~= name_column(name));
    chars
}

/// The chips of one palette.
pub open spec fn chips(swatch: Theme) -> Seq<crate::rows::FieldView> {
    seq![
        field("#"@, swatch.accent, CellAttrs::none()),
        field("#"@, swatch.info, CellAttrs::none()),
        field("#"@, swatch.success, CellAttrs::none()),
        field("#"@, swatch.warning, CellAttrs::none()),
        field("#"@, swatch.error, CellAttrs::none()),
    ]
}

fn swatch_fields(swatch: Theme) -> (fields: Vec<Field>)
    ensures
        crate::rows::field_views(fields@) == chips(swatch),
{
    let mut fields: Vec<Field> = Vec::new();
    for i in 0..5usize
        invariant
            crate::rows::field_views(fields@) == chips(swatch).take(i as int),
    {
        let ghost before = crate::rows::field_views(fields@);
        let chip = Field::new("#", swatch.color(SWATCH_TOKENS[i]), CellAttrs::none());
        fields.push(chip);
        assert(crate::rows::field_views(fields@) =~= before.push(chip@));
        assert(chips(swatch).take(i + 1) =~= before.push(chips(swatch)[i as int]));
    }
    assert(chips(swatch).take(5) =~= chips(swatch));
    fields
}

/// One line of the list as an overlay row: a setting's name leads its value,
/// and the active palette is marked in the lead, which never yields to width.
pub open spec fn config_row(config: ConfigView, index: int, selected: bool, theme: Theme) -> RowView {
    let primary = if selected {
        theme.accent
    } else {
        theme.primary
    };
    match config.rows[index] {
        ConfigRowView::Section(label) => RowView {
            selected,
            lead: no_field(),
            title: field(label, theme.muted, CellAttrs::none()),
            extras: seq![],
        },
        ConfigRowView::Setting { name, value } => RowView {
            selected,
            lead: field(name, theme.muted, CellAttrs::none()),
            title: field(value, primary, CellAttrs::none()),
            extras: seq![],
        },
        ConfigRowView::Theme { name, active } => RowView {
            selected,
            lead: if active {
                field("*"@, theme.success, CellAttrs::none())
            } else {
                field(" "@, theme.muted, CellAttrs::none())
            },
            title: field(name_column(name), primary, CellAttrs::bold()),
            extras: chips(config.swatches.of(name)),
        },
    }
}

// The live preview.

/// The options a client draws real panes with.
pub open spec fn preview_options(visual: VisualConfig, theme: Theme) -> ChromeOptions {
    ChromeOptions { dim_unfocused: visual.dim_unfocused, theme }
}

/// The header of one preview pane.
pub open spec fn preview_pane(index: u16, title: Seq<char>, focused: bool) -> PaneChromeView {
    PaneChromeView {
        index,
        title,
        task: None,
        attention: Attention::Quiet,
        focused,
        zoomed: false,
    }
}

/// The sample line of a preview pane, filled out with the child's blank.
pub open spec fn sample_row(width: nat) -> Seq<Cell> {
    exactly(sample_cells(PREVIEW_BODY@), width, Cell::blank())
}

/// Characters as a child's default cells.
pub open spec fn sample_cells(text: Seq<char>) -> Seq<Cell> {
    text.map_values(|ch: char| sample_cell(ch))
}

/// A child's default cell holding `ch`.
pub open spec fn sample_cell(ch: char) -> Cell {
    Cell { ch, ..Cell::blank() }
}

/// One framed body row of a preview pane, sides included.
pub open spec fn preview_body(width: nat, focused: bool, options: ChromeOptions) -> Seq<Cell> {
    seq![framed_cell('│', focused, options)] + body_row(sample_row(width), focused, options) + seq![
        framed_cell('│', focused, options),
    ]
}

/// One framed top edge of a preview pane.
pub open spec fn preview_top(pane: PaneChromeView, width: nat, options: ChromeOptions) -> Seq<Cell> {
    seq![framed_cell('┌', pane.focused, options)] + header_row(pane, width, options) + seq![
        framed_cell('┐', pane.focused, options),
    ]
}

/// One framed bottom edge of a preview pane.
pub open spec fn preview_bottom(width: nat, focused: bool, options: ChromeOptions) -> Seq<Cell> {
    seq![framed_cell('└', focused, options)] + repeated(
        framed_cell('─', focused, options),
        width,
    ) + seq![framed_cell('┘', focused, options)]
}

/// Two panes beside each other in a row of `width`, a gutter between them.
pub open spec fn side_by_side(left: Seq<Cell>, right: Seq<Cell>, width: nat, theme: Theme) -> Seq<Cell> {
    exactly(left.push(row_blank(theme)) + right, width, row_blank(theme))
}

/// The cells the left of two panes takes in a row of `width`.
pub open spec fn left_share(width: int) -> int {
    (width - 1) / 2
}

/// Whether two framed panes in a row of `width` are both legible.
pub open spec fn previewable(width: nat) -> bool {
    width >= 1 && left_share(width as int) - 2 >= PREVIEW_MIN_BODY
}

/// The row naming the preview.
pub open spec fn preview_label(theme: Theme) -> RowView {
    RowView {
        selected: false,
        lead: no_field(),
        title: field("preview"@, theme.muted, CellAttrs::none()),
        extras: seq![],
    }
}

/// The live preview block: its label, then a focused and an unfocused pane;
/// nothing where the box is too narrow for two framed panes.
pub open spec fn preview_block(visual: VisualConfig, width: nat, theme: Theme) -> Seq<Seq<Cell>> {
    if !previewable(width) {
        seq![]
    } else {
        let options = preview_options(visual, theme);
        let left = (left_share(width as int) - 2) as nat;
        let right = (width - 1 - left_share(width as int) - 2) as nat;
        seq![
            row_line(preview_label(theme), width, theme),
            side_by_side(
                preview_top(preview_pane(1, "focused"@, true), left, options),
                preview_top(preview_pane(2, "unfocused"@, false), right, options),
                width,
                theme,
            ),
            side_by_side(
                preview_body(left, true, options),
                preview_body(right, false, options),
                width,
                theme,
            ),
            side_by_side(
                preview_bottom(left, true, options),
                preview_bottom(right, false, options),
                width,
                theme,
            ),
        ]
    }
}

/// Rows by their cells.
pub open spec fn lines(rows: Seq<Vec<Cell>>) -> Seq<Seq<Cell>> {
    rows.map_values(|row: Vec<Cell>| row@)
}

fn beside(left: Vec<Cell>, right: Vec<Cell>, width: u16, theme: Theme) -> (row: Vec<Cell>)
    ensures
        row@ == side_by_side(left@, right@, width as nat, theme),
        row@.len() == width,
{
    let mut row = left;
    row.push(blank_cell(theme));
    push_cells(&mut row, right.as_slice());
    to_width(&mut row, width as usize, blank_cell(theme));
    row
}

/// One framed body row of a preview pane, sides included.
fn pane_body_row(body_width: u16, focused: bool, options: ChromeOptions) -> (row: Vec<Cell>)
    ensures
        row@ == preview_body(body_width as nat, focused, options),
{
    let chars = chars_of(PREVIEW_BODY);
    let mut sample: Vec<Cell> = Vec::new();
    assert(sample@ =~= sample_cells(chars@.take(0)));
    for i in 0..chars.len()
        invariant
            sample@ == sample_cells(chars@.take(i as int)),
    {
        let blank = Cell::blank();
        let ghost before = sample_cells(chars@.take(i as int));
        sample.push(Cell { ch: chars[i], fg: blank.fg, bg: blank.bg, attrs: blank.attrs });
        assert(chars@.take(i + 1) =~= chars@.take(i as int).push(chars@[i as int]));
        assert(sample_cells(chars@.take(i + 1)) =~= before.push(sample_cell(chars@[i as int])));
    }
    assert(chars@.take(chars@.len() as int) =~= chars@);
    to_width(&mut sample, body_width as usize, Cell::blank());
    let mut row: Vec<Cell> = Vec::new();
    row.push(side_frame_cell(focused, options));
    let body = body_span(Point::new(0, 0), sample.as_slice(), focused, options);
    push_cells(&mut row, body.cells.as_slice());
    row.push(side_frame_cell(focused, options));
    assert(row@ =~= preview_body(body_width as nat, focused, options));
    row
}

/// The live preview block, drawn by the same frame helpers that draw real
/// panes. Empty where the box is too narrow for two framed panes.
pub fn preview_cells(preview: &ConfigPreview, width: u16, theme: Theme) -> (block: Vec<Vec<Cell>>)
    ensures
        lines(block@) == preview_block(preview@.visual, width as nat, theme),
        block@.len() == if previewable(width as nat) {
            4int
        } else {
            0
        },
        forall|i: int| 0 <= i < block@.len() ==> (#[trigger] block@[i])@.len() == width,
{
    if width < 1 {
        return empty_block();
    }
    let left: u16 = (width - 1) / 2;
    let right: u16 = width - 1 - left;
    if left < PREVIEW_MIN_BODY + 2 || right < PREVIEW_MIN_BODY + 2 {
        return empty_block();
    }
    let left_body: u16 = left - 2;
    let right_body: u16 = right - 2;
    let options = ChromeOptions { dim_unfocused: preview.visual.dim_unfocused, theme };
    let focused = PaneChrome::new(1, "focused").attention(Attention::Quiet).focused(true);
    let unfocused = PaneChrome::new(2, "unfocused").attention(Attention::Quiet);
    let label = RowSpec {
        selected: false,
        lead: Field::new("", Color::Default, CellAttrs::none()),
        title: Field::new("preview", theme.color(ThemeToken::Muted), CellAttrs::none()),
        extras: Vec::new(),
    };
    assert(label@ =~= preview_label(theme));
    let mut block: Vec<Vec<Cell>> = Vec::new();
    block.push(row_cells(&label, width, theme));
    block.push(
        beside(
            top_frame_cells(&focused, left_body, options),
            top_frame_cells(&unfocused, right_body, options),
            width,
            theme,
        ),
    );
    block.push(
        beside(
            pane_body_row(left_body, true, options),
            pane_body_row(right_body, false, options),
            width,
            theme,
        ),
    );
    block.push(
        beside(
            bottom_frame_cells(true, left_body, options),
            bottom_frame_cells(false, right_body, options),
            width,
            theme,
        ),
    );
    assert(lines(block@) =~= preview_block(preview@.visual, width as nat, theme));
    block
}

fn empty_block() -> (block: Vec<Vec<Cell>>)
    ensures
        block@.len() == 0,
        lines(block@) == Seq::<Seq<Cell>>::empty(),
{
    let block: Vec<Vec<Cell>> = Vec::new();
    assert(lines(block@) =~= Seq::<Seq<Cell>>::empty());
    block
}

/// A configuration that does not dim previews an undimmed neighbour: its pane
/// takes the treatment a real unfocused pane takes.
pub proof fn the_preview_follows_the_focus_preference(cells: Seq<Cell>, visual: VisualConfig, theme: Theme)
    requires
        !visual.dim_unfocused,
    ensures
        body_row(cells, false, preview_options(visual, theme)) == cells.map_values(
            |cell: Cell| theme.child_cell(cell),
        ),
{
}

/// At most one palette is marked active, and none where the terminal's own is
/// in use.
pub proof fn one_palette_is_active(a: ThemeName, b: ThemeName, visual: VisualConfig)
    ensures
        theme_line(a, visual)->active && theme_line(b, visual)->active ==> a == b,
        visual.theme is Terminal ==> !(theme_line(a, visual)->active),
{
}

} // verus!
