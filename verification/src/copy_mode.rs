//! Client-side rendering of server-owned copy mode, and the explicit copy.
//!
//! A selection is a rendition, never a cell: highlights read the client's grid
//! and leave it as it was. A copy is explicit, and the client is the last gate.

use vstd::prelude::*;

use crate::cells::{cut, exactly, painted, push_chars, text_of, to_width};
use crate::effects::{effect_bytes, framed, permitted_payload, EffectPolicy};
use crate::proto::{
    Action, Cell, CellAttrs, ClientMessage, ClipboardTarget, Color, CopyModeState, CopySelection,
    OuterTerminalEffect, Point, ScrollPoint, SearchMatch, TermCaps,
};
use crate::renderer::{span_views, Grid, Span, SpanView};
use crate::text::{chars_of, decimal, decimal_chars, push_all};
use crate::theme::Theme;

verus! {

/// What a highlighted cell takes part in, weakest first. Each role differs from
/// the others in attributes as well as colour.
#[derive(Clone, Copy, Debug, PartialEq, Eq, PartialOrd, Ord, Structural)]
pub enum Highlight {
    /// A result of the active regex search.
    Match,
    /// Part of the live visual selection.
    Selection,
    /// The copy cursor itself.
    Cursor,
}

impl Highlight {
    /// Every role, weakest first.
    pub const ALL: [Highlight; 3] = [Highlight::Match, Highlight::Selection, Highlight::Cursor];

    /// The word [`label`](Highlight::label) answers with.
    pub open spec fn word(self) -> Seq<char> {
        match self {
            Highlight::Match => "match"@,
            Highlight::Selection => "selection"@,
            Highlight::Cursor => "cursor"@,
        }
    }

    /// The role's name, for a status row.
    pub fn label(self) -> (label: &'static str)
        ensures
            label@ == self.word(),
    {
        match self {
            Highlight::Match => "match",
            Highlight::Selection => "selection",
            Highlight::Cursor => "cursor",
        }
    }

    /// Applies the role's rendition to one cached cell, keeping its character
    /// and its own attributes.
    #[verifier::allow_in_spec]
    pub fn apply(self, cell: Cell, theme: Theme) -> Cell
        returns
            (Cell {
                ch: cell.ch,
                fg: theme.frame,
                bg: match self {
                    Highlight::Match => theme.info,
                    Highlight::Selection => theme.accent,
                    Highlight::Cursor => theme.accent,
                },
                attrs: cell.attrs.union(
                    match self {
                        Highlight::Match => CellAttrs::underline(),
                        Highlight::Selection => CellAttrs::none(),
                        Highlight::Cursor => CellAttrs::reverse().union(CellAttrs::bold()),
                    },
                ),
            }),
    {
        let (bg, attrs): (Color, CellAttrs) = match self {
            Highlight::Match => (theme.info, CellAttrs::underline()),
            Highlight::Selection => (theme.accent, CellAttrs::none()),
            Highlight::Cursor => (theme.accent, CellAttrs::reverse().union(CellAttrs::bold())),
        };
        Cell { ch: cell.ch, fg: theme.frame, bg, attrs: cell.attrs.union(attrs) }
    }
}

/// Where a retained-scrollback line sits in the visible grid. `None` means the
/// line is scrolled out of the pane; it is never clamped onto a visible row.
pub fn viewport_row(state: &CopyModeState, line: u32, rows: u16) -> (row: Option<u16>)
    ensures
        row is Some <==> state.viewport_top <= line < state.viewport_top + rows,
        row matches Some(found) ==> state.viewport_top + found == line && found < rows,
{
    if line < state.viewport_top {
        return None;
    }
    let offset: u32 = line - state.viewport_top;
    if offset < rows as u32 {
        Some(offset as u16)
    } else {
        None
    }
}

/// The two ends of a selection in retained-scrollback order.
#[verifier::allow_in_spec]
pub fn ordered(anchor: ScrollPoint, head: ScrollPoint) -> (ScrollPoint, ScrollPoint)
    returns
        (if anchor.at_or_before(head) {
            (anchor, head)
        } else {
            (head, anchor)
        }),
{
    if anchor.at_or_before(head) {
        (anchor, head)
    } else {
        (head, anchor)
    }
}

/// Whether a search result covers a position.
pub open spec fn matched_at(found: SearchMatch, line: u32, column: int) -> bool {
    found.start.line == line && found.start.column <= column < found.end.column
}

/// Whether any search result covers a position.
pub open spec fn any_match_at(matches: Seq<SearchMatch>, line: u32, column: int) -> bool {
    exists|i: int| 0 <= i < matches.len() && matched_at(#[trigger] matches[i], line, column)
}

/// Whether the live selection covers a position.
pub open spec fn selected_at(state: &CopyModeState, line: u32, column: int) -> bool {
    match state.selection {
        None => false,
        Some(selection) => {
            let (start, end) = ordered(selection.anchor, selection.head);
            &&& start.line <= line <= end.line
            &&& line == start.line ==> start.column <= column
            &&& line == end.line ==> column <= end.column
        },
    }
}

/// The strongest role a position of retained scrollback has.
pub open spec fn role_at(state: &CopyModeState, line: u32, column: int) -> Option<Highlight> {
    if state.cursor.line == line && state.cursor.column == column {
        Some(Highlight::Cursor)
    } else if selected_at(state, line, column) {
        Some(Highlight::Selection)
    } else if any_match_at(state.matches@, line, column) {
        Some(Highlight::Match)
    } else {
        None
    }
}

/// The retained-scrollback line a visible row shows.
#[verifier::allow_in_spec]
pub fn visible_line(state: &CopyModeState, row: u16) -> u32
    returns
        (state.viewport_top.saturating_add(row as u32)),
{
    state.viewport_top.saturating_add(row as u32)
}

/// The strongest role of each column of one visible row.
pub open spec fn roles_of(state: &CopyModeState, row: u16, cols: u16) -> Seq<Option<Highlight>> {
    Seq::new(cols as nat, |column: int| role_at(state, visible_line(state, row), column))
}

fn match_covers(matches: &Vec<SearchMatch>, line: u32, column: u16) -> (covered: bool)
    ensures
        covered == any_match_at(matches@, line, column as int),
{
    for i in 0..matches.len()
        invariant
            forall|k: int| 0 <= k < i ==> !matched_at(#[trigger] matches@[k], line, column as int),
    {
        let found = matches[i];
        if found.start.line == line && found.start.column <= column && column < found.end.column {
            assert(matched_at(matches@[i as int], line, column as int));
            return true;
        }
    }
    false
}

fn selection_covers(state: &CopyModeState, line: u32, column: u16) -> (covered: bool)
    ensures
        covered == selected_at(state, line, column as int),
{
    match state.selection {
        None => false,
        Some(selection) => {
            let (start, end) = ordered(selection.anchor, selection.head);
            start.line <= line && line <= end.line && (line != start.line || start.column <= column)
                && (line != end.line || column <= end.column)
        },
    }
}

fn row_roles(state: &CopyModeState, row: u16, cols: u16) -> (roles: Vec<Option<Highlight>>)
    ensures
        roles@ == roles_of(state, row, cols),
{
    let line: u32 = visible_line(state, row);
    let mut roles: Vec<Option<Highlight>> = Vec::new();
    let mut column: u16 = 0;
    while column < cols
        invariant
            column <= cols,
            line == visible_line(state, row),
            roles@ == roles_of(state, row, cols).take(column as int),
        decreases cols - column,
    {
        let role: Option<Highlight> = if state.cursor.line == line && state.cursor.column
            == column {
            Some(Highlight::Cursor)
        } else if selection_covers(state, line, column) {
            Some(Highlight::Selection)
        } else if match_covers(&state.matches, line, column) {
            Some(Highlight::Match)
        } else {
            None
        };
        roles.push(role);
        column = column + 1;
        assert(roles@ =~= roles_of(state, row, cols).take(column as int));
    }
    assert(roles@ =~= roles_of(state, row, cols));
    roles
}

/// Where the run of roles holding `from` ends.
pub open spec fn run_end(roles: Seq<Option<Highlight>>, from: nat) -> nat
    decreases roles.len() - from,
{
    if from >= roles.len() || roles[from as int] is None {
        from
    } else {
        run_end(roles, from + 1)
    }
}

/// The runs of roles from a column on, each as its first column and the column
/// past its last.
pub open spec fn runs_from(roles: Seq<Option<Highlight>>, from: nat) -> Seq<(nat, nat)>
    decreases roles.len() - from,
{
    if from >= roles.len() {
        seq![]
    } else if roles[from as int] is None {
        runs_from(roles, from + 1)
    } else {
        let end = run_end(roles, from);
        if end <= from || end > roles.len() {
            seq![]
        } else {
            seq![(from, end)] + runs_from(roles, end)
        }
    }
}

/// `run` of a row, painted with its roles and placed where the pane is.
pub open spec fn run_span(
    at: Point,
    row: u16,
    cells: Seq<Cell>,
    roles: Seq<Option<Highlight>>,
    run: (nat, nat),
    theme: Theme,
) -> SpanView {
    SpanView {
        at: Point {
            col: at.col.saturating_add(run.0 as u16),
            row: at.row.saturating_add(row),
        },
        cells: Seq::new(
            (run.1 - run.0) as nat,
            |i: int| (roles[run.0 + i]->0).apply(cells[run.0 + i], theme),
        ),
    }
}

/// The highlights of one row.
pub open spec fn row_highlights(
    at: Point,
    row: u16,
    cells: Seq<Cell>,
    roles: Seq<Option<Highlight>>,
    theme: Theme,
) -> Seq<SpanView> {
    runs_from(roles, 0).map_values(
        |run: (nat, nat)| run_span(at, row, cells, roles, run, theme),
    )
}

/// The highlights of the first `rows` rows of a pane.
pub open spec fn highlights(
    at: Point,
    contents: Seq<Seq<Cell>>,
    cols: u16,
    state: &CopyModeState,
    theme: Theme,
    rows: nat,
) -> Seq<SpanView>
    decreases rows,
{
    if rows == 0 {
        seq![]
    } else {
        let row = (rows - 1) as u16;
        highlights(at, contents, cols, state, theme, (rows - 1) as nat) + row_highlights(
            at,
            row,
            contents[rows - 1],
            roles_of(state, row, cols),
            theme,
        )
    }
}

/// Appends the highlights of one row.
fn push_row_highlights(
    spans: &mut Vec<Span>,
    at: Point,
    row: u16,
    cells: &[Cell],
    roles: &Vec<Option<Highlight>>,
    theme: Theme,
)
    requires
        cells@.len() == roles@.len(),
        roles@.len() <= u16::MAX,
    ensures
        span_views(final(spans)@) == span_views(old(spans)@) + row_highlights(
            at,
            row,
            cells@,
            roles@,
            theme,
        ),
{
    let ghost paint = |run: (nat, nat)| run_span(at, row, cells@, roles@, run, theme);
    let ghost all = runs_from(roles@, 0);
    let ghost mut done: nat = 0;
    let mut column: usize = 0;
    assert(all.skip(0) =~= all);
    assert(span_views(spans@) =~= span_views(old(spans)@) + all.take(0).map_values(paint));
    while column < roles.len()
        invariant
            column <= roles.len(),
            cells@.len() == roles@.len(),
            roles@.len() <= u16::MAX,
            all == runs_from(roles@, 0),
            paint == (|run: (nat, nat)| run_span(at, row, cells@, roles@, run, theme)),
            done <= all.len(),
            all.skip(done as int) == runs_from(roles@, column as nat),
            span_views(spans@) == span_views(old(spans)@) + all.take(done as int).map_values(paint),
        decreases roles.len() - column,
    {
        if roles[column].is_none() {
            column = column + 1;
        } else {
            let start: usize = column;
            let mut run: Vec<Cell> = Vec::new();
            let mut open: bool = true;
            while open && column < roles.len()
                invariant
                    start <= column <= roles.len(),
                    cells@.len() == roles@.len(),
                    roles@[start as int] is Some,
                    run@.len() == column - start,
                    forall|i: int| start <= i < column ==> (#[trigger] roles@[i]) is Some,
                    forall|i: int|
                        0 <= i < run@.len() ==> #[trigger] run@[i] == (roles@[start + i]->0).apply(
                            cells@[start + i],
                            theme,
                        ),
                    run_end(roles@, start as nat) == run_end(roles@, column as nat),
                    open && column == start ==> roles@[column as int] is Some,
                    !open ==> column < roles.len() && roles@[column as int] is None,
                    start < roles.len(),
                    !open ==> column > start,
                decreases roles.len() - column, (if open { 1int } else { 0int }),
            {
                match roles[column] {
                    Some(role) => {
                        run.push(role.apply(cells[column], theme));
                        column = column + 1;
                    },
                    None => {
                        open = false;
                    },
                }
            }
            proof {
                let end = run_end(roles@, start as nat);
                assert(end == column);
                let found: (nat, nat) = (start as nat, column as nat);
                assert(runs_from(roles@, start as nat) == seq![found] + runs_from(
                    roles@,
                    column as nat,
                ));
                assert(all.skip(done as int)[0] == found);
                assert(all[done as int] == found);
                assert(all.skip(done as int + 1) =~= all.skip(done as int).skip(1));
                assert((seq![found] + runs_from(roles@, column as nat)).skip(1) =~= runs_from(
                    roles@,
                    column as nat,
                ));
            }
            let span = Span::new(
                Point::new(at.col.saturating_add(start as u16), at.row.saturating_add(row)),
                run,
            );
            proof {
                assert(span@.cells =~= paint(all[done as int]).cells);
                assert(span@ == paint(all[done as int]));
            }
            let ghost before = spans@;
            spans.push(span);
            proof {
                assert(span_views(spans@) =~= span_views(before).push(paint(all[done as int])));
                assert(all.take(done as int + 1) =~= all.take(done as int).push(all[done as int]));
                assert(all.take(done as int + 1).map_values(paint) =~= all.take(
                    done as int,
                ).map_values(paint).push(paint(all[done as int])));
                done = done + 1;
                assert(span_views(spans@) =~= span_views(old(spans)@) + all.take(
                    done as int,
                ).map_values(paint));
            }
        }
    }
    proof {
        assert(all.skip(done as int).len() == 0);
        assert(all.take(done as int) =~= all);
        assert(all.map_values(paint) =~= row_highlights(at, row, cells@, roles@, theme));
    }
}

/// Builds the highlight spans for one pane, reading its grid and never changing
/// it. `at` is the pane body's first cell; a row with nothing highlighted
/// produces no span.
pub fn highlight_spans(at: Point, grid: &Grid, state: &CopyModeState, theme: Theme) -> (spans: Vec<
    Span,
>)
    requires
        grid.wf(),
    ensures
        span_views(spans@) == highlights(
            at,
            grid.contents(),
            grid.extent().cols,
            state,
            theme,
            grid.extent().rows as nat,
        ),
{
    let size = grid.size();
    let mut spans: Vec<Span> = Vec::new();
    assert(span_views(spans@) =~= seq![]);
    let mut row: u16 = 0;
    while row < size.rows
        invariant
            grid.wf(),
            size == grid.extent(),
            row <= size.rows,
            span_views(spans@) == highlights(
                at,
                grid.contents(),
                size.cols,
                state,
                theme,
                row as nat,
            ),
        decreases size.rows - row,
    {
        match grid.row(row) {
            None => {},
            Some(cells) => {
                let roles = row_roles(state, row, size.cols);
                push_row_highlights(&mut spans, at, row, cells, &roles, theme);
            },
        }
        row = row + 1;
    }
    spans
}

/// One field of the status row.
pub struct FieldView {
    pub text: Seq<char>,
    pub fg: Color,
    pub attrs: CellAttrs,
}

/// The fields of a copy-mode row behind its label, in the order width is spent
/// on them: position, selection marker, query, match count. A field with
/// nothing to say is empty.
pub open spec fn status_fields(state: &CopyModeState, theme: Theme) -> Seq<FieldView> {
    seq![
        FieldView {
            text: seq![' '] + decimal(state.cursor.line as nat) + seq![':'] + decimal(
                state.cursor.column as nat,
            ),
            fg: theme.muted,
            attrs: CellAttrs::none(),
        },
        FieldView {
            text: if state.selection is Some {
                " SEL"@
            } else {
                seq![]
            },
            fg: theme.accent,
            attrs: CellAttrs::none(),
        },
        FieldView {
            text: match state.query {
                Some(query) => if query@.len() == 0 {
                    seq![]
                } else {
                    seq![' ', '/'] + query@
                },
                None => seq![],
            },
            fg: theme.info,
            attrs: CellAttrs::none(),
        },
        FieldView {
            text: if state.query is Some {
                seq![' '] + decimal(state.matches@.len()) + " matches"@
            } else {
                seq![]
            },
            fg: theme.muted,
            attrs: CellAttrs::none(),
        },
    ]
}

/// The fields that fit behind `used` cells: as many from the front as there is
/// width for. A field that does not fit takes those behind it along.
pub open spec fn spent(fields: Seq<FieldView>, used: nat, width: nat, bg: Color) -> Seq<Cell>
    decreases fields.len(),
{
    if fields.len() == 0 {
        seq![]
    } else {
        let field = fields[0];
        if used + field.text.len() > width {
            seq![]
        } else {
            painted(field.text, field.fg, bg, field.attrs) + spent(
                fields.drop_first(),
                used + field.text.len(),
                width,
                bg,
            )
        }
    }
}

/// The copy-mode status row.
pub open spec fn status_row(state: &CopyModeState, width: nat, theme: Theme) -> Seq<Cell> {
    let label = painted(cut("COPY"@, width), theme.accent, theme.surface, CellAttrs::bold());
    let fields = if width < 4 {
        seq![]
    } else {
        spent(status_fields(state, theme), 4, width, theme.surface)
    };
    exactly(
        label + fields,
        width,
        Cell {
            ch: ' ',
            fg: theme.default_text,
            bg: theme.surface,
            attrs: CellAttrs::none(),
        },
    )
}

/// Appends a field where it and everything before it fit.
fn spend(cells: &mut Vec<Cell>, open: bool, width: usize, text: &[char], fg: Color, bg: Color) -> (
    fits: bool)
    requires
        old(cells)@.len() <= width,
    ensures
        fits == (open && old(cells)@.len() + text@.len() <= width),
        fits ==> final(cells)@ == old(cells)@ + painted(text@, fg, bg, CellAttrs::none()),
        !fits ==> final(cells)@ == old(cells)@,
        final(cells)@.len() <= width,
{
    if open && text.len() <= width - cells.len() {
        push_chars(cells, text, fg, bg, CellAttrs::none());
        true
    } else {
        false
    }
}

fn position_chars(state: &CopyModeState) -> (chars: Vec<char>)
    ensures
        chars@ == seq![' '] + decimal(state.cursor.line as nat) + seq![':'] + decimal(
            state.cursor.column as nat,
        ),
{
    let mut chars: Vec<char> = vec![' '];
    let line = decimal_chars(state.cursor.line as u64);
    push_all(&mut chars, line.as_slice());
    chars.push(':');
    let column = decimal_chars(state.cursor.column as u64);
    push_all(&mut chars, column.as_slice());
    chars
}

fn selection_chars(state: &CopyModeState) -> (chars: Vec<char>)
    ensures
        chars@ == if state.selection is Some {
            " SEL"@
        } else {
            seq![]
        },
{
    if state.selection.is_some() {
        chars_of(" SEL")
    } else {
        Vec::new()
    }
}

fn query_chars(state: &CopyModeState) -> (chars: Vec<char>)
    ensures
        chars@ == match state.query {
            Some(query) => if query@.len() == 0 {
                seq![]
            } else {
                seq![' ', '/'] + query@
            },
            None => seq![],
        },
{
    match &state.query {
        None => Vec::new(),
        Some(query) => {
            let text = chars_of(query.as_str());
            if text.len() == 0 {
                Vec::new()
            } else {
                let mut shown: Vec<char> = vec![' ', '/'];
                push_all(&mut shown, text.as_slice());
                shown
            }
        },
    }
}

fn count_chars(state: &CopyModeState) -> (chars: Vec<char>)
    ensures
        chars@ == if state.query is Some {
            seq![' '] + decimal(state.matches@.len()) + " matches"@
        } else {
            seq![]
        },
{
    if state.query.is_none() {
        return Vec::new();
    }
    let mut shown: Vec<char> = vec![' '];
    let number = decimal_chars(state.matches.len() as u64);
    push_all(&mut shown, number.as_slice());
    let noun = chars_of(" matches");
    push_all(&mut shown, noun.as_slice());
    shown
}

/// Appends the fields of a copy-mode row as far as they fit.
fn push_fields(cells: &mut Vec<Cell>, state: &CopyModeState, width: usize, theme: Theme)
    requires
        old(cells)@.len() <= width,
    ensures
        final(cells)@ == old(cells)@ + spent(
            status_fields(state, theme),
            old(cells)@.len(),
            width as nat,
            theme.surface,
        ),
{
    let position = position_chars(state);
    let selection = selection_chars(state);
    let query = query_chars(state);
    let count = count_chars(state);
    let bg = theme.surface;
    let ghost start = cells@;
    let ghost fields = status_fields(state, theme);
    let ghost rest1 = fields.drop_first();
    let ghost rest2 = rest1.drop_first();
    let ghost rest3 = rest2.drop_first();
    let ghost rest4 = rest3.drop_first();
    let first: bool = spend(cells, true, width, position.as_slice(), theme.muted, bg);
    let ghost at1 = cells@;
    let second: bool = spend(cells, first, width, selection.as_slice(), theme.accent, bg);
    let ghost at2 = cells@;
    let third: bool = spend(cells, second, width, query.as_slice(), theme.info, bg);
    let ghost at3 = cells@;
    let fourth: bool = spend(cells, third, width, count.as_slice(), theme.muted, bg);
    proof {
        assert(rest1[0] == fields[1]);
        assert(rest2[0] == fields[2]);
        assert(rest3[0] == fields[3]);
        assert(rest4.len() == 0);
        let w = width as nat;
        assert(third ==> cells@ =~= at3 + spent(rest3, at3.len(), w, bg)) by {
            assert(spent(rest4, cells@.len(), w, bg) =~= seq![]);
            if fourth {
                assert(at3.len() + count@.len() == cells@.len());
            }
        }
        assert(second ==> cells@ =~= at2 + spent(rest2, at2.len(), w, bg));
        assert(first ==> cells@ =~= at1 + spent(rest1, at1.len(), w, bg));
        assert(cells@ =~= start + spent(fields, start.len(), w, bg));
    }
}

/// Builds the copy-mode status row, exactly `width` cells wide.
///
/// Width is spent in one fixed order. The mode label is what the row is and is
/// the last thing standing; the match count goes first when space runs out,
/// then the query, then the selection marker, and only then the position.
pub fn status_cells(state: &CopyModeState, width: u16, theme: Theme) -> (cells: Vec<Cell>)
    ensures
        cells@ == status_row(state, width as nat, theme),
        cells@.len() == width,
{
    proof {
        reveal_strlit("COPY");
    }
    let width: usize = width as usize;
    let blank = Cell {
        ch: ' ',
        fg: theme.default_text,
        bg: theme.surface,
        attrs: CellAttrs::none(),
    };
    let mut label = chars_of("COPY");
    if label.len() > width {
        label.truncate(width);
    }
    let mut cells: Vec<Cell> = Vec::new();
    push_chars(&mut cells, label.as_slice(), theme.accent, theme.surface, CellAttrs::bold());
    let ghost head = painted(
        cut("COPY"@, width as nat),
        theme.accent,
        theme.surface,
        CellAttrs::bold(),
    );
    assert(cells@ =~= head);
    if width >= 4 {
        push_fields(&mut cells, state, width, theme);
    } else {
        assert(cells@ =~= head + Seq::<Cell>::empty());
    }
    to_width(&mut cells, width, blank);
    cells
}

/// Builds the copy-mode status row as a positioned span.
pub fn status_span(at: Point, state: &CopyModeState, width: u16, theme: Theme) -> (span: Span)
    ensures
        span@ == (SpanView { at, cells: status_row(state, width as nat, theme) }),
{
    Span::new(at, status_cells(state, width, theme))
}

/// The request that asks the server for the current selection, or nothing when
/// this client could not act on the answer.
pub fn copy_request(caps: TermCaps, policy: EffectPolicy, target: ClipboardTarget) -> (request:
    Option<ClientMessage>)
    ensures
        request == (if policy.permits_clipboard(caps) {
            Some(ClientMessage::Command(Action::CopySelection(target)))
        } else {
            None
        }),
{
    if policy.permits_clipboard(caps) {
        Some(ClientMessage::Command(Action::CopySelection(target)))
    } else {
        None
    }
}

/// The bytes an explicit copy writes for the effect the server answered with:
/// those of a permitted clipboard store, and of nothing else.
pub fn copy_bytes(caps: TermCaps, policy: EffectPolicy, effect: &OuterTerminalEffect) -> (bytes:
    Option<Vec<u8>>)
    ensures
        effect !is ClipboardStore ==> bytes is None,
        effect is ClipboardStore ==> match permitted_payload(caps, policy, *effect) {
            Some(payload) => bytes is Some && bytes->0@ == framed(payload),
            None => bytes is None,
        },
{
    match effect {
        OuterTerminalEffect::ClipboardStore { .. } => effect_bytes(caps, policy, effect),
        _ => None,
    }
}

/// A highlight is a rendition and never a substitution: it keeps the character
/// and every attribute the cell had.
pub proof fn highlights_keep_characters(role: Highlight, cell: Cell, theme: Theme)
    ensures
        role.apply(cell, theme).ch == cell.ch,
        role.apply(cell, theme).attrs.contains(cell.attrs),
{
}

/// The three roles of a plain cell differ in attributes, so they stay apart
/// without colour.
pub proof fn roles_differ_without_colour(a: Highlight, b: Highlight, cell: Cell, theme: Theme)
    requires
        cell.attrs == CellAttrs::none(),
        a != b,
    ensures
        a.apply(cell, theme).attrs != b.apply(cell, theme).attrs,
{
}

/// A row is highlighted for the scrollback line it shows and for no other: a
/// position scrolled out of the pane is never clamped into it.
pub proof fn rows_show_their_own_line(state: &CopyModeState, row: u16, cols: u16, column: int)
    requires
        state.viewport_top + row <= u32::MAX,
        0 <= column < cols,
    ensures
        roles_of(state, row, cols)[column] == role_at(
            state,
            (state.viewport_top + row) as u32,
            column,
        ),
{
}

/// A client that could not store a clipboard does not ask for its text, and one
/// that asks can store it.
pub proof fn a_copy_is_asked_for_only_where_it_can_be_stored(
    caps: TermCaps,
    policy: EffectPolicy,
    target: ClipboardTarget,
    text: String,
)
    ensures
        policy.permits_clipboard(caps) <==> permitted_payload(
            caps,
            policy,
            OuterTerminalEffect::ClipboardStore { target, text },
        ) is Some,
{
}

/// Whether a position of retained scrollback comes no later than another: on an
/// earlier line, or on the same one no further right.
pub open spec fn no_later(line: int, column: int, other_line: int, other_column: int) -> bool {
    line < other_line || (line == other_line && column <= other_column)
}

/// A selection is everything between its two ends, both of them with it, whichever
/// was set first. The cursor alone stands out of it.
pub proof fn a_selection_is_everything_between_its_ends(
    state: &CopyModeState,
    selection: CopySelection,
    line: u32,
    column: int,
)
    requires
        state.selection == Some(selection),
        !(state.cursor.line == line && state.cursor.column == column),
    ensures
        role_at(state, line, column) == Some(Highlight::Selection) <==> {
            let (a, h) = (selection.anchor, selection.head);
            ||| no_later(a.line as int, a.column as int, line as int, column) && no_later(
                line as int,
                column,
                h.line as int,
                h.column as int,
            )
            ||| no_later(h.line as int, h.column as int, line as int, column) && no_later(
                line as int,
                column,
                a.line as int,
                a.column as int,
            )
        },
{
}

/// The same selection made the other way round is the same selection.
pub proof fn a_selection_has_no_direction(
    state: &CopyModeState,
    other: &CopyModeState,
    selection: CopySelection,
    line: u32,
    column: int,
)
    requires
        state.selection == Some(selection),
        other.selection == Some(CopySelection { anchor: selection.head, head: selection.anchor }),
        other.cursor == state.cursor,
        other.matches@ == state.matches@,
    ensures
        role_at(other, line, column) == role_at(state, line, column),
{
}

/// The cursor is always marked as the cursor; a search result is marked where
/// nothing stronger is; and what is neither selected nor found is not marked.
pub proof fn a_position_has_its_strongest_role(state: &CopyModeState, line: u32, column: int)
    ensures
        role_at(state, line, column) == Some(Highlight::Cursor) <==> (state.cursor.line == line
            && state.cursor.column == column),
        state.selection is None ==> role_at(state, line, column) != Some(Highlight::Selection),
        role_at(state, line, column) != Some(Highlight::Cursor) && role_at(state, line, column)
            != Some(Highlight::Selection) ==> (role_at(state, line, column) == Some(
            Highlight::Match,
        ) <==> exists|i: int|
            0 <= i < state.matches@.len() && (#[trigger] state.matches@[i]).start.line == line
                && state.matches@[i].start.column <= column < state.matches@[i].end.column),
        role_at(state, line, column) is None ==> !exists|i: int|
            0 <= i < state.matches@.len() && (#[trigger] state.matches@[i]).start.line == line
                && state.matches@[i].start.column <= column < state.matches@[i].end.column,
{
    if any_match_at(state.matches@, line, column) {
        let i = choose|i: int|
            0 <= i < state.matches@.len() && matched_at(#[trigger] state.matches@[i], line, column);
        assert(state.matches@[i].start.line == line);
    }
    if exists|i: int|
        0 <= i < state.matches@.len() && (#[trigger] state.matches@[i]).start.line == line
            && state.matches@[i].start.column <= column < state.matches@[i].end.column {
        let i = choose|i: int|
            0 <= i < state.matches@.len() && (#[trigger] state.matches@[i]).start.line == line
                && state.matches@[i].start.column <= column < state.matches@[i].end.column;
        assert(matched_at(state.matches@[i], line, column));
    }
}

/// Each role has its own rendition: a search result is underlined on the
/// informational colour, a selection is on the accent, and the cursor is bold
/// and reversed on it.
pub proof fn each_role_has_its_rendition(cell: Cell, theme: Theme)
    ensures
        Highlight::Match.apply(cell, theme) == (Cell {
            ch: cell.ch,
            fg: theme.frame,
            bg: theme.info,
            attrs: CellAttrs { underline: true, ..cell.attrs },
        }),
        Highlight::Selection.apply(cell, theme) == (Cell {
            ch: cell.ch,
            fg: theme.frame,
            bg: theme.accent,
            attrs: cell.attrs,
        }),
        Highlight::Cursor.apply(cell, theme) == (Cell {
            ch: cell.ch,
            fg: theme.frame,
            bg: theme.accent,
            attrs: CellAttrs { bold: true, reverse: true, ..cell.attrs },
        }),
{
}

proof fn run_end_bounds(roles: Seq<Option<Highlight>>, from: nat)
    requires
        from <= roles.len(),
    ensures
        from <= run_end(roles, from) <= roles.len(),
        forall|c: int| from <= c < run_end(roles, from) ==> (#[trigger] roles[c]) is Some,
        run_end(roles, from) < roles.len() ==> roles[run_end(roles, from) as int] is None,
    decreases roles.len() - from,
{
    if from < roles.len() && roles[from as int] is Some {
        run_end_bounds(roles, from + 1);
    }
}

/// Whether a run of columns covers one of them.
pub open spec fn covers_column(run: (nat, nat), column: int) -> bool {
    run.0 <= column < run.1
}

proof fn runs_cover_roles(roles: Seq<Option<Highlight>>, from: nat)
    requires
        from <= roles.len(),
    ensures
        forall|c: int|
            from <= c < roles.len() && (#[trigger] roles[c]) is Some ==> exists|k: int|
                0 <= k < runs_from(roles, from).len() && covers_column(
                    #[trigger] runs_from(roles, from)[k],
                    c,
                ),
        forall|k: int|
            0 <= k < runs_from(roles, from).len() ==> {
                let run = #[trigger] runs_from(roles, from)[k];
                from <= run.0 < run.1 <= roles.len()
            },
        forall|k: int, c: int|
            0 <= k < runs_from(roles, from).len() && #[trigger] covers_column(
                runs_from(roles, from)[k],
                c,
            ) ==> roles[c] is Some,
    decreases roles.len() - from,
{
    let runs = runs_from(roles, from);
    if from < roles.len() {
        if roles[from as int] is None {
            runs_cover_roles(roles, from + 1);
        } else {
            let end = run_end(roles, from);
            run_end_bounds(roles, from);
            assert(end > from) by {
                run_end_bounds(roles, from + 1);
            }
            runs_cover_roles(roles, end);
            let rest = runs_from(roles, end);
            assert(runs == seq![(from, end)] + rest);
            assert forall|c: int|
                from <= c < roles.len() && (#[trigger] roles[c]) is Some implies exists|k: int|
                0 <= k < runs.len() && covers_column(#[trigger] runs[k], c) by {
                if c < end {
                    assert(covers_column(runs[0], c));
                } else {
                    let k = choose|k: int| 0 <= k < rest.len() && covers_column(#[trigger] rest[k], c);
                    assert(runs[k + 1] == rest[k]);
                }
            }
            assert forall|k: int| 0 <= k < runs.len() implies {
                let run = #[trigger] runs[k];
                from <= run.0 < run.1 <= roles.len()
            } by {
                if k > 0 {
                    assert(runs[k] == rest[k - 1]);
                }
            }
            assert forall|k: int, c: int|
                0 <= k < runs.len() && #[trigger] covers_column(runs[k], c) implies roles[c] is Some by {
                if k > 0 {
                    assert(runs[k] == rest[k - 1]);
                    assert(covers_column(rest[k - 1], c));
                }
            }
        }
    }
}

/// Whether a span of a pane drawn at `at` paints a cell of the pane's grid.
pub open spec fn paints(span: SpanView, at: Point, row: int, column: int, cell: Cell) -> bool {
    &&& span.at.row == at.row + row
    &&& span.at.col <= at.col + column < span.at.col + span.cells.len()
    &&& span.cells[at.col + column - span.at.col] == cell
}

/// Every marked position that is visible is painted over its cell, with the
/// rendition of its role, at the place where the pane shows it.
#[verifier::rlimit(40)]
pub proof fn every_marked_cell_is_painted(
    at: Point,
    contents: Seq<Seq<Cell>>,
    cols: u16,
    state: &CopyModeState,
    theme: Theme,
    rows: nat,
    row: int,
    column: int,
)
    requires
        0 <= row < rows <= contents.len(),
        rows + at.row <= u16::MAX,
        cols + at.col <= u16::MAX,
        0 <= column < cols,
        contents[row].len() == cols,
        state.viewport_top + row <= u32::MAX,
        role_at(state, (state.viewport_top + row) as u32, column) is Some,
    ensures
        exists|k: int|
            0 <= k < highlights(at, contents, cols, state, theme, rows).len() && paints(
                #[trigger] highlights(at, contents, cols, state, theme, rows)[k],
                at,
                row,
                column,
                (role_at(state, (state.viewport_top + row) as u32, column)->0).apply(
                    contents[row][column],
                    theme,
                ),
            ),
    decreases rows,
{
    let all = highlights(at, contents, cols, state, theme, rows);
    let earlier = highlights(at, contents, cols, state, theme, (rows - 1) as nat);
    let marked = (role_at(state, (state.viewport_top + row) as u32, column)->0).apply(
        contents[row][column],
        theme,
    );
    if row < rows - 1 {
        every_marked_cell_is_painted(
            at,
            contents,
            cols,
            state,
            theme,
            (rows - 1) as nat,
            row,
            column,
        );
        let k = choose|k: int|
            0 <= k < earlier.len() && paints(#[trigger] earlier[k], at, row, column, marked);
        assert(all[k] == earlier[k]);
    } else {
        let roles = roles_of(state, row as u16, cols);
        runs_cover_roles(roles, 0);
        assert(roles[column] is Some);
        let runs = runs_from(roles, 0);
        let k = choose|k: int| 0 <= k < runs.len() && covers_column(#[trigger] runs[k], column);
        let painted_row = row_highlights(at, row as u16, contents[row], roles, theme);
        let span = painted_row[k];
        assert(span == run_span(at, row as u16, contents[row], roles, runs[k], theme));
        assert(span.cells[column - runs[k].0] == marked);
        assert(all[earlier.len() + k] == span);
        assert(paints(all[earlier.len() + k], at, row, column, marked));
    }
}

/// Nothing else is painted: every cell of a highlight is that of a marked
/// position the pane shows.
#[verifier::rlimit(40)]
pub proof fn only_marked_cells_are_painted(
    at: Point,
    contents: Seq<Seq<Cell>>,
    cols: u16,
    state: &CopyModeState,
    theme: Theme,
    rows: nat,
    k: int,
    j: int,
)
    requires
        rows <= contents.len(),
        rows + at.row <= u16::MAX,
        cols + at.col <= u16::MAX,
        state.viewport_top + rows <= u32::MAX,
        0 <= k < highlights(at, contents, cols, state, theme, rows).len(),
        0 <= j < highlights(at, contents, cols, state, theme, rows)[k].cells.len(),
    ensures
        ({
            let span = highlights(at, contents, cols, state, theme, rows)[k];
            let row = span.at.row - at.row;
            let column = span.at.col + j - at.col;
            &&& 0 <= row < rows
            &&& 0 <= column < cols
            &&& role_at(state, (state.viewport_top + row) as u32, column) is Some
        }),
    decreases rows,
{
    if rows > 0 {
        let all = highlights(at, contents, cols, state, theme, rows);
        let earlier = highlights(at, contents, cols, state, theme, (rows - 1) as nat);
        if k < earlier.len() {
            assert(all[k] == earlier[k]);
            only_marked_cells_are_painted(
                at,
                contents,
                cols,
                state,
                theme,
                (rows - 1) as nat,
                k,
                j,
            );
        } else {
            let row = (rows - 1) as u16;
            let roles = roles_of(state, row, cols);
            runs_cover_roles(roles, 0);
            let run = runs_from(roles, 0)[k - earlier.len()];
            assert(all[k] == run_span(at, row, contents[rows - 1], roles, run, theme));
            assert(covers_column(run, run.0 + j));
            assert(roles[run.0 + j] is Some);
        }
    }
}

/// The row opens with its mode, then says where the cursor is, whether something
/// is selected, what is searched for and how much was found, as long as all of
/// it fits.
#[verifier::rlimit(40)]
pub proof fn a_wide_row_says_everything(state: &CopyModeState, width: nat, theme: Theme)
    requires
        ({
            let position = seq![' '] + decimal(state.cursor.line as nat) + seq![':'] + decimal(
                state.cursor.column as nat,
            );
            let query = match state.query {
                Some(text) => text@.len() + 2 + decimal(state.matches@.len()).len() + 9,
                None => 0,
            };
            4 + position.len() + 4 + query <= width
        }),
    ensures
        ({
            let position = seq![' '] + decimal(state.cursor.line as nat) + seq![':'] + decimal(
                state.cursor.column as nat,
            );
            let selected = if state.selection is Some {
                seq![' ', 'S', 'E', 'L']
            } else {
                seq![]
            };
            let query = match state.query {
                Some(text) => if text@.len() > 0 {
                    seq![' ', '/'] + text@
                } else {
                    seq![]
                },
                None => seq![],
            };
            let count = match state.query {
                Some(_) => seq![' '] + decimal(state.matches@.len()) + seq![
                    ' ',
                    'm',
                    'a',
                    't',
                    'c',
                    'h',
                    'e',
                    's',
                ],
                None => seq![],
            };
            let said = seq!['C', 'O', 'P', 'Y'] + position + selected + query + count;
            &&& status_row(state, width, theme).len() == width
            &&& text_of(status_row(state, width, theme)).take(said.len() as int) == said
        }),
{
    reveal_strlit("COPY");
    reveal_strlit(" SEL");
    reveal_strlit(" matches");
    reveal_with_fuel(spent, 5);
    let fields = status_fields(state, theme);
    let rest1 = fields.drop_first();
    let rest2 = rest1.drop_first();
    let rest3 = rest2.drop_first();
    let rest4 = rest3.drop_first();
    assert(rest1[0] == fields[1] && rest2[0] == fields[2] && rest3[0] == fields[3]);
    assert(rest4.len() == 0);
    let bg = theme.surface;
    let one = painted(fields[0].text, fields[0].fg, bg, fields[0].attrs);
    let two = painted(fields[1].text, fields[1].fg, bg, fields[1].attrs);
    let three = painted(fields[2].text, fields[2].fg, bg, fields[2].attrs);
    let four = painted(fields[3].text, fields[3].fg, bg, fields[3].attrs);
    let n1 = 4 + fields[0].text.len();
    let n2 = n1 + fields[1].text.len();
    let n3 = n2 + fields[2].text.len();
    let n4 = n3 + fields[3].text.len();
    assert(spent(rest4, n4, width, bg) =~= seq![]);
    assert(spent(rest3, n3, width, bg) =~= four);
    assert(spent(rest2, n2, width, bg) =~= three + four);
    assert(spent(rest1, n1, width, bg) =~= two + (three + four));
    assert(spent(fields, 4, width, bg) =~= one + (two + (three + four)));
    assert("COPY"@ =~= seq!['C', 'O', 'P', 'Y']);
    assert(" SEL"@ =~= seq![' ', 'S', 'E', 'L']);
    assert(" matches"@ =~= seq![' ', 'm', 'a', 't', 'c', 'h', 'e', 's']);
    let said = "COPY"@ + fields[0].text + fields[1].text + fields[2].text + fields[3].text;
    assert(text_of(status_row(state, width, theme)).take(said.len() as int) =~= said);
}

/// However narrow the row, it is exactly as wide as asked for and keeps its mode,
/// and says where the cursor is as soon as that fits.
pub proof fn a_narrow_row_keeps_its_mode(state: &CopyModeState, width: nat, theme: Theme)
    ensures
        status_row(state, width, theme).len() == width,
        forall|i: int|
            0 <= i < width && i < 4 ==> (#[trigger] status_row(state, width, theme)[i]).ch
                == seq!['C', 'O', 'P', 'Y'][i],
        ({
            let position = seq![' '] + decimal(state.cursor.line as nat) + seq![':'] + decimal(
                state.cursor.column as nat,
            );
            4 + position.len() <= width ==> forall|i: int|
                0 <= i < position.len() ==> (#[trigger] status_row(state, width, theme)[4 + i]).ch
                    == position[i]
        }),
{
    reveal_strlit("COPY");
}

/// The mode is lit, a selection is marked in the accent colour and a query told in
/// that of information; where the cursor is and how much was found are muted. All
/// of it stands on the surface of the chrome.
pub proof fn a_copy_row_has_its_colours(state: &CopyModeState, width: nat, theme: Theme, i: int)
    requires
        0 <= i < width,
    ensures
        ({
            let fields = status_fields(state, theme);
            &&& fields.len() == 4
            &&& fields[0].fg == theme.muted
            &&& fields[1].fg == theme.accent
            &&& fields[2].fg == theme.info
            &&& fields[3].fg == theme.muted
        }),
        i < 4 ==> status_row(state, width, theme)[i].fg == theme.accent && status_row(
            state,
            width,
            theme,
        )[i].attrs.bold,
        status_row(state, width, theme)[i].bg == theme.surface,
{
    reveal_strlit("COPY");
    if width >= 4 {
        spent_lies_on(status_fields(state, theme), 4, width, theme.surface);
    }
}

proof fn spent_lies_on(fields: Seq<FieldView>, used: nat, width: nat, bg: Color)
    ensures
        forall|i: int|
            0 <= i < spent(fields, used, width, bg).len() ==> (#[trigger] spent(
                fields,
                used,
                width,
                bg,
            )[i]).bg == bg,
    decreases fields.len(),
{
    if fields.len() > 0 && used + fields[0].text.len() <= width {
        let field = fields[0];
        let first = painted(field.text, field.fg, bg, field.attrs);
        let rest = spent(fields.drop_first(), used + field.text.len(), width, bg);
        spent_lies_on(fields.drop_first(), used + field.text.len(), width, bg);
        let all = spent(fields, used, width, bg);
        assert forall|i: int| 0 <= i < all.len() implies (#[trigger] all[i]).bg == bg by {
            if i >= first.len() {
                assert(all[i] == rest[i - first.len()]);
            }
        }
    }
}

} // verus!
