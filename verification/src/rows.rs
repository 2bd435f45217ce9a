//! One row of an overlay: what it holds, and what it gives up as width runs out.

use vstd::prelude::*;

use crate::cells::{cut, exactly, painted, push_char, push_chars, styled, to_width};
use crate::proto::{Cell, CellAttrs, Color};
use crate::text::chars_of;
use crate::theme::{Theme, ThemeToken};

verus! {

/// One styled run of overlay text.
#[derive(Debug, PartialEq, Eq)]
pub struct Field {
    pub text: Vec<char>,
    pub fg: Color,
    pub attrs: CellAttrs,
}

/// A field by its contents.
#[verifier::ext_equal]
pub struct FieldView {
    pub text: Seq<char>,
    pub fg: Color,
    pub attrs: CellAttrs,
}

impl View for Field {
    type V = FieldView;

    open spec fn view(&self) -> FieldView {
        FieldView { text: self.text@, fg: self.fg, attrs: self.attrs }
    }
}

/// A run of one style.
pub open spec fn field(text: Seq<char>, fg: Color, attrs: CellAttrs) -> FieldView {
    FieldView { text, fg, attrs }
}

/// Fields by their contents.
pub open spec fn field_views(fields: Seq<Field>) -> Seq<FieldView> {
    fields.map_values(|field: Field| field@)
}

impl Field {
    /// A run of one style.
    pub fn new(text: &str, fg: Color, attrs: CellAttrs) -> (made: Field)
        ensures
            made@ == field(text@, fg, attrs),
    {
        Field { text: chars_of(text), fg, attrs }
    }

    /// A run of one style, from its characters.
    pub fn of_chars(text: Vec<char>, fg: Color, attrs: CellAttrs) -> (made: Field)
        ensures
            made@ == field(text@, fg, attrs),
    {
        Field { text, fg, attrs }
    }
}

/// One overlay row, before it is fitted to a width.
///
/// The marker and the lead are what a row is; the extras go first when width
/// runs out, and the title is cut only after every extra is gone.
#[derive(Debug, PartialEq, Eq)]
pub struct RowSpec {
    pub selected: bool,
    pub lead: Field,
    pub title: Field,
    pub extras: Vec<Field>,
}

/// A row by its contents.
#[verifier::ext_equal]
pub struct RowView {
    pub selected: bool,
    pub lead: FieldView,
    pub title: FieldView,
    pub extras: Seq<FieldView>,
}

impl View for RowSpec {
    type V = RowView;

    open spec fn view(&self) -> RowView {
        RowView {
            selected: self.selected,
            lead: self.lead@,
            title: self.title@,
            extras: field_views(self.extras@),
        }
    }
}

/// Rows by their contents.
pub open spec fn row_views(rows: Seq<RowSpec>) -> Seq<RowView> {
    rows.map_values(|row: RowSpec| row@)
}

/// A field that draws nothing.
pub open spec fn no_field() -> FieldView {
    field(""@, Color::Default, CellAttrs::none())
}

/// The cell a row is filled out with.
pub open spec fn row_blank(theme: Theme) -> Cell {
    styled(' ', theme.default_text, theme.raised_surface, CellAttrs::none())
}

/// The cell a row is filled out with.
pub fn blank_cell(theme: Theme) -> (cell: Cell)
    ensures
        cell == row_blank(theme),
{
    Cell {
        ch: ' ',
        fg: theme.color(ThemeToken::DefaultText),
        bg: theme.color(ThemeToken::RaisedSurface),
        attrs: CellAttrs::none(),
    }
}

/// The marker of the row the keyboard cursor is on, and its unmarked width.
pub open spec fn marker(selected: bool, theme: Theme) -> FieldView {
    if selected {
        field("> "@, theme.accent, CellAttrs::bold())
    } else {
        field("  "@, theme.border, CellAttrs::none())
    }
}

/// The cells one run of extras costs, each with its leading gap.
pub open spec fn extras_len(extras: Seq<FieldView>) -> nat
    decreases extras.len(),
{
    if extras.len() == 0 {
        0
    } else {
        extras_len(extras.drop_last()) + 1 + extras.last().text.len()
    }
}

/// The cells the marker and the lead cost: a row without a lead spends no gap
/// on it.
pub open spec fn fixed_len(row: RowView) -> nat {
    if row.lead.text.len() == 0 {
        2
    } else {
        3 + row.lead.text.len()
    }
}

/// How many of the first `count` extras stay: they go from the end until the
/// rest fits beside the whole title.
pub open spec fn kept_of(row: RowView, width: nat, count: nat) -> nat
    decreases count,
{
    if count > 0 && fixed_len(row) + row.title.text.len() + extras_len(
        row.extras.take(count as int),
    ) > width {
        kept_of(row, width, (count - 1) as nat)
    } else {
        count
    }
}

/// How many extras a row keeps in `width`.
pub open spec fn kept(row: RowView, width: nat) -> nat {
    kept_of(row, width, row.extras.len())
}

/// How many characters of its title a row shows in `width`.
pub open spec fn title_budget(row: RowView, width: nat) -> nat {
    let spent = fixed_len(row) + extras_len(row.extras.take(kept(row, width) as int));
    if spent >= width {
        0
    } else {
        (width - spent) as nat
    }
}

/// A field over the overlay surface.
pub open spec fn field_cells(part: FieldView, theme: Theme) -> Seq<Cell> {
    painted(part.text, part.fg, theme.raised_surface, part.attrs)
}

/// The one-cell gap between two fields.
pub open spec fn gap_cells(theme: Theme) -> Seq<Cell> {
    painted(seq![' '], theme.muted, theme.raised_surface, CellAttrs::none())
}

/// The extras, each behind its gap.
pub open spec fn extras_cells(extras: Seq<FieldView>, theme: Theme) -> Seq<Cell>
    decreases extras.len(),
{
    if extras.len() == 0 {
        seq![]
    } else {
        extras_cells(extras.drop_last(), theme) + gap_cells(theme) + field_cells(
            extras.last(),
            theme,
        )
    }
}

/// The marker and the lead of a row.
pub open spec fn row_start(row: RowView, theme: Theme) -> Seq<Cell> {
    let lead = field_cells(marker(row.selected, theme), theme) + field_cells(row.lead, theme);
    if row.lead.text.len() == 0 {
        lead
    } else {
        lead + gap_cells(theme)
    }
}

/// One overlay row in exactly `width` cells.
pub open spec fn row_line(row: RowView, width: nat, theme: Theme) -> Seq<Cell> {
    exactly(
        row_start(row, theme) + painted(
            cut(row.title.text, title_budget(row, width)),
            row.title.fg,
            theme.raised_surface,
            row.title.attrs,
        ) + extras_cells(row.extras.take(kept(row, width) as int), theme),
        width,
        row_blank(theme),
    )
}

/// `n` where it fits in a `usize`, the greatest `usize` where it does not.
spec fn capped(n: nat) -> nat {
    if n <= usize::MAX {
        n
    } else {
        usize::MAX as nat
    }
}

/// The cells the first `count` extras cost.
fn measure_extras(extras: &[Field], count: usize) -> (cost: usize)
    requires
        count <= extras@.len(),
    ensures
        cost == capped(extras_len(field_views(extras@).take(count as int))),
{
    let mut cost: usize = 0;
    assert(field_views(extras@).take(0) =~= Seq::<FieldView>::empty());
    for i in 0..count
        invariant
            count <= extras@.len(),
            cost == capped(extras_len(field_views(extras@).take(i as int))),
    {
        let ghost next = field_views(extras@).take(i + 1);
        assert(next.drop_last() =~= field_views(extras@).take(i as int));
        assert(next.last() == extras@[i as int]@);
        cost = cost.saturating_add(1).saturating_add(extras[i].text.len());
    }
    cost
}

/// The cells the marker and the lead cost.
fn measure_fixed(row: &RowSpec) -> (cost: usize)
    ensures
        cost == capped(fixed_len(row@)),
{
    if row.lead.text.len() == 0 {
        2
    } else {
        row.lead.text.len().saturating_add(3)
    }
}

proof fn kept_is_bounded(row: RowView, width: nat, count: nat)
    ensures
        kept_of(row, width, count) <= count,
    decreases count,
{
    if count > 0 {
        kept_is_bounded(row, width, (count - 1) as nat);
    }
}

/// How many extras stay in `width`.
fn measure_kept(row: &RowSpec, width: usize) -> (count: usize)
    requires
        width < usize::MAX,
    ensures
        count == kept(row@, width as nat),
        count <= row.extras@.len(),
{
    let fixed = measure_fixed(row);
    let mut count: usize = row.extras.len();
    let mut over = fixed.saturating_add(row.title.text.len()).saturating_add(
        measure_extras(row.extras.as_slice(), count),
    ) > width;
    while count > 0 && over
        invariant
            width < usize::MAX,
            fixed == capped(fixed_len(row@)),
            count <= row.extras@.len(),
            kept(row@, width as nat) == kept_of(row@, width as nat, count as nat),
            over == (fixed_len(row@) + row@.title.text.len() + extras_len(
                row@.extras.take(count as int),
            ) > width),
        decreases count,
    {
        count = count - 1;
        over = fixed.saturating_add(row.title.text.len()).saturating_add(
            measure_extras(row.extras.as_slice(), count),
        ) > width;
    }
    count
}

/// Appends the marker and the lead of a row.
fn push_start(cells: &mut Vec<Cell>, row: &RowSpec, theme: Theme)
    requires
        old(cells)@.len() == 0,
    ensures
        final(cells)@ == row_start(row@, theme),
{
    let surface = theme.color(ThemeToken::RaisedSurface);
    let mark = if row.selected {
        Field::new("> ", theme.color(ThemeToken::Accent), CellAttrs::bold())
    } else {
        Field::new("  ", theme.color(ThemeToken::Border), CellAttrs::none())
    };
    push_chars(cells, mark.text.as_slice(), mark.fg, surface, mark.attrs);
    assert(cells@ =~= field_cells(marker(row.selected, theme), theme));
    push_chars(cells, row.lead.text.as_slice(), row.lead.fg, surface, row.lead.attrs);
    if row.lead.text.len() > 0 {
        push_char(cells, ' ', theme.color(ThemeToken::Muted), surface, CellAttrs::none());
    }
}

/// Builds one overlay row, exactly `width` cells wide.
///
/// Width is spent in a fixed order: extras go from the end, then the title is
/// cut, and only then does the fixed part run off the row.
pub fn row_cells(row: &RowSpec, width: u16, theme: Theme) -> (cells: Vec<Cell>)
    ensures
        cells@ == row_line(row@, width as nat, theme),
        cells@.len() == width,
{
    let total: usize = width as usize;
    let surface = theme.color(ThemeToken::RaisedSurface);
    let count = measure_kept(row, total);
    let spent = measure_fixed(row).saturating_add(measure_extras(row.extras.as_slice(), count));
    let budget: usize = if spent >= total {
        0
    } else {
        total - spent
    };
    assert(budget == title_budget(row@, width as nat));

    let mut cells: Vec<Cell> = Vec::new();
    push_start(&mut cells, row, theme);
    let shown: usize = if row.title.text.len() <= budget {
        row.title.text.len()
    } else {
        budget
    };
    let title = vstd::slice::slice_subrange(row.title.text.as_slice(), 0, shown);
    assert(title@ =~= cut(row@.title.text, budget as nat));
    push_chars(&mut cells, title, row.title.fg, surface, row.title.attrs);
    let ghost before = cells@;
    let ghost extras = row@.extras;
    assert(extras_cells(extras.take(0), theme) =~= Seq::<Cell>::empty());
    assert(before =~= before + extras_cells(extras.take(0), theme));
    for i in 0..count
        invariant
            count <= row.extras@.len(),
            extras == field_views(row.extras@),
            surface == theme.raised_surface,
            cells@ == before + extras_cells(extras.take(i as int), theme),
    {
        let ghost next = extras.take(i + 1);
        assert(next.drop_last() =~= extras.take(i as int));
        assert(next.last() == row.extras@[i as int]@);
        push_char(&mut cells, ' ', theme.color(ThemeToken::Muted), surface, CellAttrs::none());
        push_chars(
            &mut cells,
            row.extras[i].text.as_slice(),
            row.extras[i].fg,
            surface,
            row.extras[i].attrs,
        );
        assert(cells@ =~= before + extras_cells(next, theme));
    }
    to_width(&mut cells, total, blank_cell(theme));
    cells
}

/// A title is cut only on a row that keeps no extra.
pub proof fn titles_yield_after_extras(row: RowView, width: nat)
    requires
        kept(row, width) > 0,
    ensures
        cut(row.title.text, title_budget(row, width)) == row.title.text,
{
    kept_fits(row, width, row.extras.len());
}

proof fn kept_fits(row: RowView, width: nat, count: nat)
    ensures
        kept_of(row, width, count) > 0 ==> fixed_len(row) + row.title.text.len() + extras_len(
            row.extras.take(kept_of(row, width, count) as int),
        ) <= width,
    decreases count,
{
    if count > 0 {
        kept_fits(row, width, (count - 1) as nat);
    }
}

/// What stays of a row's extras is the first of them, whole: an extra is never
/// shown while one before it is missing.
pub proof fn extras_go_from_the_end(row: RowView, width: nat)
    ensures
        kept(row, width) <= row.extras.len(),
        kept(row, width) < row.extras.len() ==> fixed_len(row) + row.title.text.len() + extras_len(
            row.extras.take((kept(row, width) + 1) as int),
        ) > width,
{
    kept_is_bounded(row, width, row.extras.len());
    next_does_not_fit(row, width, row.extras.len());
}

proof fn next_does_not_fit(row: RowView, width: nat, count: nat)
    ensures
        kept_of(row, width, count) < count ==> fixed_len(row) + row.title.text.len() + extras_len(
            row.extras.take((kept_of(row, width, count) + 1) as int),
        ) > width,
    decreases count,
{
    if count > 0 {
        kept_is_bounded(row, width, (count - 1) as nat);
        next_does_not_fit(row, width, (count - 1) as nat);
    }
}

/// A row as wide as its marker and lead shows both of them whole.
pub proof fn a_row_keeps_its_lead(row: RowView, width: nat, theme: Theme)
    requires
        fixed_len(row) <= width,
    ensures
        row_line(row, width, theme).take(fixed_len(row) as int) == row_start(row, theme),
{
    reveal_strlit("> ");
    reveal_strlit("  ");
    assert(row_line(row, width, theme).take(fixed_len(row) as int) =~= row_start(row, theme));
}

} // verus!
