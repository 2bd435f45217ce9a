//! One terminal frame: the tab row, every pane in its frame, the status row.

use vstd::prelude::*;

use crate::cells::{copy_cells, repeated};
use crate::chrome::{
    a_focused_body_is_the_applications, an_unfocused_body_recedes, body_row, body_span,
    bottom_frame_cells, framed_cell, header_row, side_frame_cell, top_frame_cells, ChromeOptions,
    PaneChrome, PaneChromeView,
};
use crate::input::PaneArea;
use crate::proto::{Cell, Color, CursorShape, Point, Size};
use crate::renderer::{span_views, Grid, Span, SpanView};
use crate::status_bar::{status_bar, status_bar_span, StatusBar};
use crate::tabs::{tab_row, tab_row_span, TabBar};

verus! {

/// The outer terminal's cursor.
#[derive(Clone, Copy, Debug, PartialEq, Eq, Structural)]
pub struct Cursor {
    pub pos: Point,
    pub shape: CursorShape,
}

impl Cursor {
    #[verifier::allow_in_spec]
    pub fn new(pos: Point, shape: CursorShape) -> Cursor
        returns
            (Cursor { pos, shape }),
    {
        Cursor { pos, shape }
    }
}

/// One pane to draw: where its grid stands, what it shows, and its header.
#[derive(Debug)]
pub struct FramePane<'a> {
    pub area: PaneArea,
    pub grid: &'a Grid,
    pub header: PaneChrome,
}

/// A pane to draw, by its contents.
#[verifier::ext_equal]
pub struct FramePaneView {
    pub area: PaneArea,
    pub rows: Seq<Seq<Cell>>,
    pub header: PaneChromeView,
}

impl<'a> View for FramePane<'a> {
    type V = FramePaneView;

    open spec fn view(&self) -> FramePaneView {
        FramePaneView { area: self.area, rows: self.grid.contents(), header: self.header@ }
    }
}

/// Panes to draw, by their contents.
pub open spec fn frame_pane_views(panes: Seq<FramePane>) -> Seq<FramePaneView> {
    panes.map_values(|pane: FramePane| pane@)
}

/// One before `at`, stopping at the edge.
pub open spec fn before(at: u16) -> u16 {
    if at == 0 {
        0
    } else {
        (at - 1) as u16
    }
}

/// `by` behind `at`, stopping at the last coordinate there is.
pub open spec fn behind(at: u16, by: int) -> u16 {
    if at + by <= u16::MAX {
        (at + by) as u16
    } else {
        u16::MAX
    }
}

/// A run of cells in its place.
pub open spec fn span_at(col: u16, row: u16, cells: Seq<Cell>) -> SpanView {
    SpanView { at: Point { col, row }, cells }
}

/// One row of a pane: its left edge, its cells, its right edge.
pub open spec fn pane_row_spans(pane: FramePaneView, row: int, options: ChromeOptions) -> Seq<SpanView> {
    let focused = pane.header.focused;
    let at = behind(pane.area.y, row);
    let edge = seq![framed_cell('│', focused, options)];
    seq![
        span_at(before(pane.area.x), at, edge),
        span_at(pane.area.x, at, body_row(pane.rows[row], focused, options)),
        span_at(behind(pane.area.x, pane.area.size.cols as int), at, edge),
    ]
}

/// The first `count` rows of a pane.
pub open spec fn pane_rows_spans(pane: FramePaneView, count: nat, options: ChromeOptions) -> Seq<SpanView>
    decreases count,
{
    if count == 0 {
        seq![]
    } else {
        pane_rows_spans(pane, (count - 1) as nat, options) + pane_row_spans(
            pane,
            count - 1,
            options,
        )
    }
}

/// One pane in its frame: the header between two corners, its rows, the bottom
/// edge.
pub open spec fn pane_spans(pane: FramePaneView, options: ChromeOptions) -> Seq<SpanView> {
    let focused = pane.header.focused;
    let width = pane.area.size.cols as nat;
    let top = seq![framed_cell('┌', focused, options)] + header_row(pane.header, width, options)
        + seq![framed_cell('┐', focused, options)];
    let bottom = seq![framed_cell('└', focused, options)] + repeated(
        framed_cell('─', focused, options),
        width,
    ) + seq![framed_cell('┘', focused, options)];
    seq![span_at(before(pane.area.x), before(pane.area.y), top)] + pane_rows_spans(
        pane,
        pane.rows.len(),
        options,
    ) + seq![
        span_at(before(pane.area.x), behind(pane.area.y, pane.area.size.rows as int), bottom),
    ]
}

/// The first `count` panes, each in its frame.
pub open spec fn panes_spans(panes: Seq<FramePaneView>, count: nat, options: ChromeOptions) -> Seq<SpanView>
    decreases count,
{
    if count == 0 {
        seq![]
    } else {
        panes_spans(panes, (count - 1) as nat, options) + pane_spans(panes[count - 1], options)
    }
}

/// The whole frame: the tab row above, the panes, the status row on the last
/// row.
pub open spec fn composed(
    outer: Size,
    bar: TabBar,
    panes: Seq<FramePaneView>,
    status: StatusBar,
    options: ChromeOptions,
) -> Seq<SpanView> {
    seq![span_at(0, 0, tab_row(bar, outer.cols as nat, options))] + panes_spans(
        panes,
        panes.len(),
        options,
    ) + seq![span_at(0, before(outer.rows), status_bar(status, outer.cols as nat, options))]
}

/// Appends `more` spans.
pub(crate) fn push_spans(spans: &mut Vec<Span>, more: Vec<Span>)
    ensures
        span_views(final(spans)@) == span_views(old(spans)@) + span_views(more@),
{
    let ghost start = span_views(spans@);
    let ghost added = span_views(more@);
    assert(start =~= start + added.take(0));
    for i in 0..more.len()
        invariant
            added == span_views(more@),
            span_views(spans@) == start + added.take(i as int),
    {
        let ghost before = span_views(spans@);
        let span = Span::new(more[i].at, copy_cells(more[i].cells.as_slice()));
        assert(span@ == added[i as int]);
        spans.push(span);
        assert(span_views(spans@) =~= before.push(span@));
        assert(added.take(i + 1) =~= added.take(i as int).push(added[i as int]));
        assert(span_views(spans@) =~= start + added.take(i + 1));
    }
    assert(added.take(more@.len() as int) =~= added);
}

/// Appends one span.
pub(crate) fn push_span(spans: &mut Vec<Span>, span: Span)
    ensures
        span_views(final(spans)@) == span_views(old(spans)@).push(span@),
{
    let ghost before = span_views(spans@);
    spans.push(span);
    assert(span_views(spans@) =~= before.push(span@));
}

/// Appends one row of a pane between its side edges.
fn push_pane_row(spans: &mut Vec<Span>, pane: &FramePane, row: u16, options: ChromeOptions)
    requires
        pane.grid.wf(),
        row < pane.grid.extent().rows,
    ensures
        span_views(final(spans)@) == span_views(old(spans)@) + pane_row_spans(
            pane@,
            row as int,
            options,
        ),
{
    let ghost start = span_views(spans@);
    let focused = pane.header.focused;
    let at: u16 = pane.area.y.saturating_add(row);
    let left: u16 = pane.area.x.saturating_sub(1);
    let mut edge: Vec<Cell> = Vec::new();
    edge.push(side_frame_cell(focused, options));
    assert(edge@ =~= seq![framed_cell('│', focused, options)]);
    push_span(spans, Span::new(Point::new(left, at), edge));
    match pane.grid.row(row) {
        Some(cells) => {
            push_span(spans, body_span(Point::new(pane.area.x, at), cells, focused, options));
        },
        None => {},
    }
    let mut edge: Vec<Cell> = Vec::new();
    edge.push(side_frame_cell(focused, options));
    assert(edge@ =~= seq![framed_cell('│', focused, options)]);
    let right: u16 = pane.area.x.saturating_add(pane.area.size.cols);
    push_span(spans, Span::new(Point::new(right, at), edge));
    assert(span_views(spans@) =~= start + pane_row_spans(pane@, row as int, options));
}

/// Appends one pane in its frame.
fn push_pane(spans: &mut Vec<Span>, pane: &FramePane, options: ChromeOptions)
    requires
        pane.grid.wf(),
    ensures
        span_views(final(spans)@) == span_views(old(spans)@) + pane_spans(pane@, options),
{
    let ghost start = span_views(spans@);
    let left: u16 = pane.area.x.saturating_sub(1);
    let top: u16 = pane.area.y.saturating_sub(1);
    let cells = top_frame_cells(&pane.header, pane.area.size.cols, options);
    push_span(spans, Span::new(Point::new(left, top), cells));
    let ghost above = span_views(spans@);
    let rows = pane.grid.size().rows;
    assert(pane@.rows.len() == rows);
    assert(above =~= above + pane_rows_spans(pane@, 0, options));
    for row in 0..rows
        invariant
            pane.grid.wf(),
            rows == pane.grid.extent().rows,
            span_views(spans@) == above + pane_rows_spans(pane@, row as nat, options),
    {
        let ghost so_far = pane_rows_spans(pane@, row as nat, options);
        push_pane_row(spans, pane, row, options);
        assert(span_views(spans@) =~= above + (so_far + pane_row_spans(
            pane@,
            row as int,
            options,
        )));
        assert(pane_rows_spans(pane@, (row + 1) as nat, options) == so_far + pane_row_spans(
            pane@,
            row as int,
            options,
        ));
    }
    let cells = bottom_frame_cells(pane.header.focused, pane.area.size.cols, options);
    let bottom: u16 = pane.area.y.saturating_add(pane.area.size.rows);
    push_span(spans, Span::new(Point::new(left, bottom), cells));
    assert(span_views(spans@) =~= start + pane_spans(pane@, options));
}

/// Composes one whole frame.
pub fn compose_frame(
    outer: Size,
    bar: TabBar<'_>,
    panes: &[FramePane<'_>],
    status: StatusBar<'_>,
    options: ChromeOptions,
) -> (spans: Vec<Span>)
    requires
        forall|i: int| 0 <= i < panes@.len() ==> (#[trigger] panes@[i]).grid.wf(),
    ensures
        span_views(spans@) == composed(outer, bar, frame_pane_views(panes@), status, options),
{
    let mut spans: Vec<Span> = Vec::new();
    assert(span_views(spans@) =~= seq![]);
    push_span(&mut spans, tab_row_span(Point::new(0, 0), bar, outer.cols, options));
    let ghost above = span_views(spans@);
    let ghost views = frame_pane_views(panes@);
    assert(above =~= above + panes_spans(views, 0, options));
    for i in 0..panes.len()
        invariant
            views == frame_pane_views(panes@),
            forall|i: int| 0 <= i < panes@.len() ==> (#[trigger] panes@[i]).grid.wf(),
            span_views(spans@) == above + panes_spans(views, i as nat, options),
    {
        let ghost so_far = panes_spans(views, i as nat, options);
        assert(views[i as int] == panes@[i as int]@);
        push_pane(&mut spans, &panes[i], options);
        assert(span_views(spans@) =~= above + (so_far + pane_spans(views[i as int], options)));
        assert(panes_spans(views, (i + 1) as nat, options) == so_far + pane_spans(
            views[i as int],
            options,
        ));
    }
    let row: u16 = outer.rows.saturating_sub(1);
    push_span(&mut spans, status_bar_span(Point::new(0, row), status, outer.cols, options));
    assert(span_views(spans@) =~= composed(outer, bar, views, status, options));
    spans
}

/// The status row is the last thing drawn, on the last row of the terminal, and
/// the tab row the first, on its first.
pub proof fn the_frame_keeps_its_chrome_rows(
    outer: Size,
    bar: TabBar,
    panes: Seq<FramePaneView>,
    status: StatusBar,
    options: ChromeOptions,
)
    requires
        outer.rows > 0,
    ensures
        composed(outer, bar, panes, status, options).first().at == (Point { col: 0, row: 0 }),
        composed(outer, bar, panes, status, options).last().at == (Point {
            col: 0,
            row: (outer.rows - 1) as u16,
        }),
{
}

/// Whether a span holds one cell.
pub open spec fn is_cell(span: SpanView, col: int, row: int, cell: Cell) -> bool {
    span.at.col == col && span.at.row == row && span.cells == seq![cell]
}

/// Whether a span holds a row of a pane, drawn as its application wrote it: the
/// characters in place, and on a focused pane every attribute and every colour
/// that was chosen.
pub open spec fn is_pane_row(
    span: SpanView,
    col: int,
    row: int,
    cells: Seq<Cell>,
    focused: bool,
    options: ChromeOptions,
) -> bool {
    &&& span.at.col == col
    &&& span.at.row == row
    &&& span.cells.len() == cells.len()
    &&& forall|c: int|
        0 <= c < cells.len() ==> (#[trigger] span.cells[c]).ch == cells[c].ch && (focused
            || !options.dim_unfocused ==> {
            &&& span.cells[c].attrs == cells[c].attrs
            &&& cells[c].fg != Color::Default ==> span.cells[c].fg == cells[c].fg
            &&& cells[c].bg != Color::Default ==> span.cells[c].bg == cells[c].bg
            &&& cells[c].fg == Color::Default ==> span.cells[c].fg == options.theme.default_text
            &&& cells[c].bg == Color::Default ==> span.cells[c].bg == options.theme.surface
        })
}

proof fn pane_rows_hold_each_row(pane: FramePaneView, count: nat, options: ChromeOptions, row: int)
    requires
        0 <= row < count,
    ensures
        pane_rows_spans(pane, count, options).len() == 3 * count,
        pane_rows_spans(pane, count, options)[3 * row] == pane_row_spans(pane, row, options)[0],
        pane_rows_spans(pane, count, options)[3 * row + 1] == pane_row_spans(pane, row, options)[1],
        pane_rows_spans(pane, count, options)[3 * row + 2] == pane_row_spans(pane, row, options)[2],
    decreases count,
{
    if count > 1 && row < count - 1 {
        pane_rows_hold_each_row(pane, (count - 1) as nat, options, row);
    } else if count > 1 {
        pane_rows_hold_each_row(pane, (count - 1) as nat, options, 0);
    } else {
        assert(pane_rows_spans(pane, 0, options).len() == 0);
    }
}

proof fn panes_hold_each_pane(
    panes: Seq<FramePaneView>,
    count: nat,
    options: ChromeOptions,
    i: int,
    k: int,
)
    requires
        0 <= i < count <= panes.len(),
        0 <= k < pane_spans(panes[i], options).len(),
    ensures
        panes_spans(panes, count, options).contains(pane_spans(panes[i], options)[k]),
    decreases count,
{
    let earlier = panes_spans(panes, (count - 1) as nat, options);
    let all = panes_spans(panes, count, options);
    if i < count - 1 {
        panes_hold_each_pane(panes, (count - 1) as nat, options, i, k);
        let j = choose|j: int|
            0 <= j < earlier.len() && earlier[j] == pane_spans(panes[i], options)[k];
        assert(all[j] == earlier[j]);
    } else {
        assert(all[earlier.len() + k] == pane_spans(panes[i], options)[k]);
    }
}

/// Every row of every pane is drawn in its place between its two edges.
pub proof fn every_row_is_drawn_in_its_place(
    outer: Size,
    bar: TabBar,
    panes: Seq<FramePaneView>,
    status: StatusBar,
    options: ChromeOptions,
    i: int,
    row: int,
)
    requires
        0 <= i < panes.len(),
        0 <= row < panes[i].rows.len(),
        1 <= panes[i].area.x,
        1 <= panes[i].area.y,
        panes[i].area.x + panes[i].area.size.cols <= u16::MAX,
        panes[i].area.y + panes[i].rows.len() <= u16::MAX,
    ensures
        ({
            let spans = composed(outer, bar, panes, status, options);
            let pane = panes[i];
            let focused = pane.header.focused;
            let (x, y) = (pane.area.x, pane.area.y + row);
            &&& exists|k: int|
                0 <= k < spans.len() && is_pane_row(
                    #[trigger] spans[k],
                    x as int,
                    y,
                    pane.rows[row],
                    focused,
                    options,
                )
            &&& exists|k: int|
                0 <= k < spans.len() && is_cell(
                    #[trigger] spans[k],
                    x - 1,
                    y,
                    framed_cell('│', focused, options),
                )
            &&& exists|k: int|
                0 <= k < spans.len() && is_cell(
                    #[trigger] spans[k],
                    x + pane.area.size.cols,
                    y,
                    framed_cell('│', focused, options),
                )
        }),
{
    let pane = panes[i];
    let spans = composed(outer, bar, panes, status, options);
    let own = pane_spans(pane, options);
    pane_rows_hold_each_row(pane, pane.rows.len(), options, row);
    let rows = pane_rows_spans(pane, pane.rows.len(), options);
    assert(own[1 + 3 * row] == rows[3 * row]);
    assert(own[2 + 3 * row] == rows[3 * row + 1]);
    assert(own[3 + 3 * row] == rows[3 * row + 2]);
    the_frame_holds_each_span(outer, bar, panes, status, options, i, 1 + 3 * row);
    the_frame_holds_each_span(outer, bar, panes, status, options, i, 2 + 3 * row);
    the_frame_holds_each_span(outer, bar, panes, status, options, i, 3 + 3 * row);
    let body = own[2 + 3 * row];
    let cells = pane.rows[row];
    let focused = pane.header.focused;
    assert forall|c: int| 0 <= c < cells.len() implies (#[trigger] body.cells[c]).ch == cells[c].ch
        && (focused || !options.dim_unfocused ==> {
        &&& body.cells[c].attrs == cells[c].attrs
        &&& cells[c].fg != Color::Default ==> body.cells[c].fg == cells[c].fg
        &&& cells[c].bg != Color::Default ==> body.cells[c].bg == cells[c].bg
        &&& cells[c].fg == Color::Default ==> body.cells[c].fg == options.theme.default_text
        &&& cells[c].bg == Color::Default ==> body.cells[c].bg == options.theme.surface
    }) by {
        if focused || !options.dim_unfocused {
            a_focused_body_is_the_applications(cells, focused, options, c);
        } else {
            an_unfocused_body_recedes(cells, options, c);
        }
    }
    let a = choose|k: int| 0 <= k < spans.len() && spans[k] == own[1 + 3 * row];
    assert(is_cell(
        spans[a],
        pane.area.x - 1,
        pane.area.y + row,
        framed_cell('│', focused, options),
    ));
    let b = choose|k: int| 0 <= k < spans.len() && spans[k] == own[2 + 3 * row];
    assert(is_pane_row(
        spans[b],
        pane.area.x as int,
        pane.area.y + row,
        cells,
        focused,
        options,
    ));
    let c = choose|k: int| 0 <= k < spans.len() && spans[k] == own[3 + 3 * row];
    assert(is_cell(
        spans[c],
        pane.area.x + pane.area.size.cols,
        pane.area.y + row,
        framed_cell('│', focused, options),
    ));
}

proof fn the_frame_holds_each_span(
    outer: Size,
    bar: TabBar,
    panes: Seq<FramePaneView>,
    status: StatusBar,
    options: ChromeOptions,
    i: int,
    k: int,
)
    requires
        0 <= i < panes.len(),
        0 <= k < pane_spans(panes[i], options).len(),
    ensures
        composed(outer, bar, panes, status, options).contains(pane_spans(panes[i], options)[k]),
{
    panes_hold_each_pane(panes, panes.len(), options, i, k);
    let inner = panes_spans(panes, panes.len(), options);
    let span = pane_spans(panes[i], options)[k];
    let j = choose|j: int| 0 <= j < inner.len() && inner[j] == span;
    assert(composed(outer, bar, panes, status, options)[1 + j] == span);
}

/// Every pane is framed: its header between two corners on the row above it, and
/// a closed edge on the row below.
#[verifier::rlimit(40)]
pub proof fn every_pane_is_framed(
    outer: Size,
    bar: TabBar,
    panes: Seq<FramePaneView>,
    status: StatusBar,
    options: ChromeOptions,
    i: int,
)
    requires
        0 <= i < panes.len(),
        1 <= panes[i].area.x,
        1 <= panes[i].area.y,
        panes[i].area.y + panes[i].area.size.rows <= u16::MAX,
    ensures
        ({
            let spans = composed(outer, bar, panes, status, options);
            let pane = panes[i];
            let focused = pane.header.focused;
            let width = pane.area.size.cols as nat;
            let edge = |ch: char| framed_cell(ch, focused, options);
            &&& spans.contains(
                SpanView {
                    at: Point { col: (pane.area.x - 1) as u16, row: (pane.area.y - 1) as u16 },
                    cells: seq![edge('┌')] + header_row(pane.header, width, options) + seq![
                        edge('┐'),
                    ],
                },
            )
            &&& spans.contains(
                SpanView {
                    at: Point {
                        col: (pane.area.x - 1) as u16,
                        row: (pane.area.y + pane.area.size.rows) as u16,
                    },
                    cells: seq![edge('└')] + Seq::new(width, |c: int| edge('─')) + seq![edge('┘')],
                },
            )
        }),
{
    let pane = panes[i];
    let own = pane_spans(pane, options);
    let last = own.len() - 1;
    the_frame_holds_each_span(outer, bar, panes, status, options, i, 0);
    the_frame_holds_each_span(outer, bar, panes, status, options, i, last);
    let focused = pane.header.focused;
    let width = pane.area.size.cols as nat;
    let edge = |ch: char| framed_cell(ch, focused, options);
    assert(own[last].cells =~= seq![edge('└')] + Seq::new(width, |c: int| edge('─')) + seq![
        edge('┘'),
    ]);
}

/// The chrome rows are the tab row and the status row themselves.
pub proof fn the_chrome_rows_are_drawn(
    outer: Size,
    bar: TabBar,
    panes: Seq<FramePaneView>,
    status: StatusBar,
    options: ChromeOptions,
)
    requires
        outer.rows > 0,
    ensures
        composed(outer, bar, panes, status, options).first() == (SpanView {
            at: Point { col: 0, row: 0 },
            cells: tab_row(bar, outer.cols as nat, options),
        }),
        composed(outer, bar, panes, status, options).last() == (SpanView {
            at: Point { col: 0, row: (outer.rows - 1) as u16 },
            cells: status_bar(status, outer.cols as nat, options),
        }),
{
}

} // verus!
