//! The frame a client draws from its projection: panes and chrome, then the
//! layers over them, then an open overlay over all of it.

use vstd::prelude::*;

use crate::chrome::{
    resize_affordance_spans, resize_spans, ChromeOptions, PaneChrome, PaneChromeView,
};
use crate::copy_mode::{highlight_spans, highlights, status_row, status_span};
use crate::frame::{
    before, behind, compose_frame, composed, frame_pane_views, push_span, push_spans, span_at,
    FramePane, FramePaneView,
};
use crate::input::PaneArea;
use crate::launch::{launch_notice_span, notice_row};
use crate::live::{grid_view, position, repository_view, text_view, LiveState, LiveView};
use crate::motion::{moved_cells, phase_span};
use crate::overlay::{
    backdrop, backdrop_span, overlay_box, overlay_spans, placed, KindView, Overlay,
};
use crate::panes::{lookup, rank};
use crate::proto::{LayoutView, PaneId, Point, Size};
use crate::renderer::{span_views, Grid, Span, SpanView};
use crate::rows::row_line;
use crate::status_bar::{
    attention_count, attention_field, clock_field, minimal_marks, minimal_reference,
    minimal_session, repository_field, status_bar, PrefixHint, StatusBar, StatusMode,
};
use crate::tabs::{tab_row, tab_row_reference, TabBar};
use crate::theme::{Theme, ThemeToken};
use crate::toast::{
    last_toast_row, rows_from, toast_row, toast_rows, toast_stack_span, toast_width, ToastView,
};

verus! {

/// One frame, with the server-owned pane cells marked apart from chrome.
#[derive(Debug)]
pub struct RenderFrame {
    pub spans: Vec<Span>,
    pub chrome: Vec<bool>,
}

/// Whether a tab bar says what the projection says: the daemon's session and
/// client count where they were told, and the panes this client draws.
pub open spec fn tab_bar_says(view: LiveView, panes: nat, bar: TabBar) -> bool {
    &&& bar.tabs@ == view.tabs
    &&& bar.panes == Some(panes as usize)
    &&& match view.status {
        Some(status) => bar.clients == Some(status.clients) && if status.name.len() > 0 {
            bar.session matches Some(name) && name@ == status.name
        } else {
            bar.session is None
        },
        None => bar.clients is None && bar.session is None,
    }
}

/// Whether a status bar says what the projection says, in the composition the
/// client prefers and with nothing in the place of a field nobody told.
pub open spec fn status_bar_says(view: LiveView, bar: StatusBar) -> bool {
    &&& bar.tabs@ == view.tabs
    &&& bar.queue@ == view.queue
    &&& bar.hint.prefix@ == view.prefix
    &&& bar.hint.guide == (view.areas.len() <= 1)
    &&& bar.hint.pending == view.prefix_pending
    &&& match view.status {
        Some(status) => bar.clients == Some(status.clients) && bar.effective_size == Some(
            status.effective_size,
        ) && if status.name.len() > 0 {
            bar.session matches Some(name) && name@ == status.name
        } else {
            bar.session is None
        },
        None => bar.clients is None && bar.effective_size is None && bar.session is None,
    }
    &&& match view.repository {
        Some(repository) => bar.repository matches Some(said) && repository_view(Some(*said))
            == Some(repository),
        None => bar.repository is None,
    }
    &&& match view.clock {
        Some(clock) => bar.clock matches Some(said) && said@ == clock,
        None => bar.clock is None,
    }
    &&& bar.mode == view.visual.status
    &&& bar.powerline_separators == (view.visual.status == StatusMode::Powerline)
}

/// Where a toast is drawn, at whatever step of its entrance it has reached.
pub open spec fn toast_at(outer: Size, row: u16, toast: ToastView, theme: Theme) -> SpanView {
    let cells = toast_row(toast, toast_width(outer), theme);
    SpanView {
        at: Point {
            col: if outer.cols < 1 + cells.len() {
                0
            } else {
                (outer.cols - 1 - cells.len()) as u16
            },
            row,
        },
        cells: match toast.phase {
            Some(phase) => moved_cells(cells, phase, theme.frame),
            None => cells,
        },
    }
}

/// The first of two counts that is smaller.
pub open spec fn fewer(a: nat, b: nat) -> nat {
    if a < b {
        a
    } else {
        b
    }
}

/// Whether a span lies wholly within a pane's grid.
pub open spec fn lies_in(area: PaneArea, span: SpanView) -> bool {
    &&& area.y <= span.at.row
    &&& span.at.row < behind(area.y, area.size.rows as int)
    &&& area.x <= span.at.col
    &&& behind(span.at.col, span.cells.len() as int) <= behind(area.x, area.size.cols as int)
}

/// Whether a span is pane content rather than chrome.
pub open spec fn is_body(areas: Seq<(PaneId, PaneArea)>, span: SpanView) -> bool {
    exists|i: int| 0 <= i < areas.len() && lies_in((#[trigger] areas[i]).1, span)
}

/// The header a pane is drawn with.
pub open spec fn live_header(view: LiveView, index: nat, pane: PaneId) -> PaneChromeView {
    let info = lookup(view.panes, pane);
    PaneChromeView {
        index: position(index),
        title: match info {
            Some(known) => known.name@,
            None => "pane"@,
        },
        task: match info {
            Some(known) => text_view(known.task),
            None => None,
        },
        attention: view.state_of(pane),
        focused: view.focused() == Some(pane),
        zoomed: match view.layout {
            Some(layout) => layout.zoomed == Some(pane),
            None => false,
        },
    }
}

impl LiveView {
    /// The first `count` panes of the layout that can be drawn.
    pub open spec fn frame_panes(self, count: nat) -> Seq<FramePaneView>
        decreases count,
    {
        if count == 0 {
            seq![]
        } else {
            let rest = self.frame_panes((count - 1) as nat);
            match self.layout {
                None => rest,
                Some(layout) => {
                    let pane = layout.panes[count - 1].pane;
                    match (lookup(self.areas, pane), lookup(self.grids, pane)) {
                        (Some(area), Some(grid)) => rest.push(
                            FramePaneView {
                                area,
                                rows: grid.rows,
                                header: live_header(self, (count - 1) as nat, pane),
                            },
                        ),
                        _ => rest,
                    }
                },
            }
        }
    }

    /// The panes a frame draws.
    pub open spec fn drawn_panes(self) -> Seq<FramePaneView> {
        match self.layout {
            Some(layout) => self.frame_panes(layout.panes.len()),
            None => seq![],
        }
    }

    /// The treatment chrome is drawn with.
    pub open spec fn options(self) -> ChromeOptions {
        ChromeOptions { dim_unfocused: self.visual.dim_unfocused, theme: self.theme }
    }

    /// Copy mode over its pane, and its status over the status row.
    pub open spec fn copy_layer(self) -> Seq<SpanView> {
        match self.copy_mode {
            Some(copy_mode) => match (
                lookup(self.areas, copy_mode.pane),
                lookup(self.grids, copy_mode.pane),
            ) {
                (Some(area), Some(grid)) => highlights(
                    Point { col: area.x, row: area.y },
                    grid.rows,
                    grid.size.cols,
                    &copy_mode,
                    self.theme,
                    grid.size.rows as nat,
                ).push(
                    span_at(
                        0,
                        before(self.outer_size.rows),
                        status_row(&copy_mode, self.outer_size.cols as nat, self.theme),
                    ),
                ),
                _ => seq![],
            },
            None => seq![],
        }
    }

    /// The launch notice over the status row.
    pub open spec fn launch_layer(self) -> Seq<SpanView> {
        match self.launch {
            Some(notice) => seq![
                span_at(
                    0,
                    before(self.outer_size.rows),
                    row_line(
                        notice_row(notice, self.theme),
                        self.outer_size.cols as nat,
                        self.theme,
                    ),
                ),
            ],
            None => seq![],
        }
    }

    /// The divider being moved, lit where it is drawn.
    pub open spec fn resize_layer(self, points: Seq<Point>) -> Seq<SpanView> {
        match self.resize {
            Some(resize) => resize_spans(
                points,
                resize.divider.dir,
                resize.share,
                self.outer_size,
                self.theme,
            ),
            None => seq![],
        }
    }

    /// Whether `spans` are the frame under the notices and the overlay: the
    /// composed panes and chrome rows, copy mode, the launch notice, the
    /// divider being moved. There is no frame before there is a layout.
    pub open spec fn drawn(self, points: Seq<Point>, spans: Seq<SpanView>) -> bool {
        match self.layout {
            None => spans == Seq::<SpanView>::empty(),
            Some(_) => exists|bar: TabBar, status: StatusBar| #[trigger]
                tab_bar_says(self, self.drawn_panes().len(), bar) && #[trigger] status_bar_says(
                    self,
                    status,
                ) && spans == composed(
                    self.outer_size,
                    bar,
                    self.drawn_panes(),
                    status,
                    self.options(),
                ) + self.copy_layer() + self.launch_layer() + self.resize_layer(points),
        }
    }

    /// The row the focused cursor is on.
    pub open spec fn cursor_row(self) -> Option<u16> {
        match self.cursor() {
            Some(cursor) => Some(cursor.pos.row),
            None => None,
        }
    }

    /// The rows the notices are drawn on.
    pub open spec fn notice_rows(self) -> Seq<u16> {
        rows_from(
            1,
            last_toast_row(self.outer_size),
            self.toasts.toasts.len(),
            self.cursor_row(),
        )
    }

    /// The notices, in the upper-right safe area and off the cursor's row.
    pub open spec fn toast_layer(self) -> Seq<SpanView> {
        Seq::new(
            fewer(self.notice_rows().len(), self.toasts.toasts.len()),
            |i: int|
                toast_at(self.outer_size, self.notice_rows()[i], self.toasts.toasts[i], self.theme),
        )
    }

    /// The box an overlay is drawn in: as tall as its list plus its chrome,
    /// within bounds.
    pub open spec fn overlay_size(self, kind: KindView) -> Size {
        let wanted = kind.len() + kind.chrome_rows();
        let rows: int = if wanted < 2 {
            2
        } else if wanted > 20 {
            20
        } else {
            wanted as int
        };
        Size {
            cols: if self.outer_size.cols < 60 {
                self.outer_size.cols
            } else {
                60
            },
            rows: if rows < self.outer_size.rows {
                rows as u16
            } else {
                self.outer_size.rows
            },
        }
    }

    /// An open overlay in the middle of the frame.
    pub open spec fn overlay_layer(self) -> Seq<SpanView> {
        match self.overlay {
            Some(overlay) => {
                let size = self.overlay_size(overlay.kind);
                placed(
                    Point {
                        col: ((self.outer_size.cols - size.cols) / 2) as u16,
                        row: ((self.outer_size.rows - size.rows) / 2) as u16,
                    },
                    overlay_box(overlay, size, self.theme),
                )
            },
            None => seq![],
        }
    }

    /// Spans as they show under an open overlay.
    pub open spec fn underneath(self, spans: Seq<SpanView>) -> Seq<SpanView> {
        if self.overlay is Some {
            spans.map_values(|span: SpanView| dimmed_span(span, self.theme))
        } else {
            spans
        }
    }

    /// Every span of the frame over `base`.
    pub open spec fn layered(self, base: Seq<SpanView>) -> Seq<SpanView> {
        self.underneath(base + self.toast_layer()) + self.overlay_layer()
    }

    /// Which of those spans are chrome: everything but pane content.
    pub open spec fn chrome_flags(self, base: Seq<SpanView>) -> Seq<bool> {
        base.map_values(|span: SpanView| !is_body(self.areas, span)) + Seq::new(
            self.toast_layer().len() + self.overlay_layer().len(),
            |i: int| true,
        )
    }
}

/// A span of the backdrop.
pub open spec fn dimmed_span(span: SpanView, theme: Theme) -> SpanView {
    SpanView { at: span.at, cells: backdrop(span.cells, theme) }
}

impl LiveState {
    /// A pane's grid, with what is known of it.
    fn grid_of(&self, pane: PaneId) -> (grid: Option<&Grid>)
        requires
            self.wf(),
        ensures
            match grid {
                Some(found) => found.wf() && lookup(self@.grids, pane) == Some(grid_view(*found)),
                None => lookup(self@.grids, pane) is None,
            },
    {
        let grid = self.grids.get(pane);
        proof {
            crate::live::grids_by_contents(self.grids@, pane);
            if grid is Some {
                assert(self.grids@[rank(self.grids@, pane) as int].1 == *grid->0);
            }
        }
        grid
    }

    /// The header a pane is drawn with.
    fn header_of(&self, index: usize, pane: PaneId) -> (header: PaneChrome)
        ensures
            header@ == live_header(self@, index as nat, pane),
    {
        let place: u16 = if index < u16::MAX as usize {
            (index + 1) as u16
        } else {
            u16::MAX
        };
        let info = self.panes.get(pane);
        let title: &str = match info {
            Some(known) => known.name.as_str(),
            None => "pane",
        };
        let (focused, zoomed) = match &self.layout {
            Some(layout) => (layout.focused == Some(pane), layout.zoomed == Some(pane)),
            None => (false, false),
        };
        let header = PaneChrome::new(place, title).attention(self.state_of(pane)).focused(
            focused,
        ).zoomed(zoomed);
        match info {
            Some(known) => match &known.task {
                Some(task) => header.task(task.as_str()),
                None => header,
            },
            None => header,
        }
    }

    /// The panes the frame draws.
    fn frame_panes(&self) -> (panes: Vec<FramePane<'_>>)
        requires
            self.wf(),
        ensures
            frame_pane_views(panes@) == self@.drawn_panes(),
            forall|i: int| 0 <= i < panes@.len() ==> (#[trigger] panes@[i]).grid.wf(),
    {
        let mut panes: Vec<FramePane<'_>> = Vec::new();
        assert(frame_pane_views(panes@) =~= seq![]);
        match &self.layout {
            Some(layout) => {
                for i in 0..layout.panes.len()
                    invariant
                        self.wf(),
                        self.layout == Some(*layout),
                        frame_pane_views(panes@) == self@.frame_panes(i as nat),
                        forall|i: int| 0 <= i < panes@.len() ==> (#[trigger] panes@[i]).grid.wf(),
                {
                    let pane = layout.panes[i].pane;
                    match (self.areas.get(pane), self.grid_of(pane)) {
                        (Some(area), Some(grid)) => {
                            let ghost before = frame_pane_views(panes@);
                            let drawn = FramePane {
                                area: *area,
                                grid,
                                header: self.header_of(i, pane),
                            };
                            panes.push(drawn);
                            assert(frame_pane_views(panes@) =~= before.push(drawn@));
                        },
                        _ => {},
                    }
                }
            },
            None => {},
        }
        panes
    }

    /// The tab bar of the frame.
    fn tab_bar(&self, panes: usize) -> (bar: TabBar<'_>)
        ensures
            tab_bar_says(self@, panes as nat, bar),
    {
        let bar = TabBar::new(self.tabs.as_slice()).panes(panes);
        match &self.status {
            Some(status) => {
                let counted = bar.clients(status.clients);
                if status.name.as_str().unicode_len() > 0 {
                    counted.session(status.name.as_str())
                } else {
                    counted
                }
            },
            None => bar,
        }
    }

    /// The status bar of the frame.
    fn status_bar<'a>(&'a self, hint: &'a PrefixHint) -> (bar: StatusBar<'a>)
        requires
            hint.prefix@ == self@.prefix,
            hint.guide == (self@.areas.len() <= 1),
            hint.pending == self@.prefix_pending,
        ensures
            status_bar_says(self@, bar),
    {
        let bar = StatusBar::new(self.tabs.as_slice(), &self.queue, hint).mode(self.visual.status);
        let bar = match &self.status {
            Some(status) => {
                let counted = bar.clients(status.clients).effective_size(status.effective_size);
                if status.name.as_str().unicode_len() > 0 {
                    counted.session(status.name.as_str())
                } else {
                    counted
                }
            },
            None => bar,
        };
        let bar = match &self.local_status.repository {
            Some(repository) => bar.repository(repository),
            None => bar,
        };
        match &self.local_status.clock {
            Some(clock) => bar.clock(clock.as_str()),
            None => bar,
        }
    }

    /// Appends copy mode's layer.
    fn push_copy_layer(&self, spans: &mut Vec<Span>)
        requires
            self.wf(),
        ensures
            span_views(final(spans)@) == span_views(old(spans)@) + self@.copy_layer(),
    {
        let ghost start = span_views(spans@);
        match &self.copy_mode {
            Some(copy_mode) => match (self.areas.get(copy_mode.pane), self.grid_of(copy_mode.pane)) {
                (Some(area), Some(grid)) => {
                    let marks = highlight_spans(
                        Point::new(area.x, area.y),
                        grid,
                        copy_mode,
                        self.theme,
                    );
                    push_spans(spans, marks);
                    push_span(
                        spans,
                        status_span(
                            Point::new(0, self.outer_size.rows.saturating_sub(1)),
                            copy_mode,
                            self.outer_size.cols,
                            self.theme,
                        ),
                    );
                },
                _ => {},
            },
            None => {},
        }
        assert(span_views(spans@) =~= start + self@.copy_layer());
    }

    /// Composes the frame from the exact areas the mouse hit tester uses.
    /// `points` are the cells of the divider being moved.
    pub fn spans(&self, points: &[Point]) -> (spans: Vec<Span>)
        requires
            self.wf(),
        ensures
            self@.drawn(points@, span_views(spans@)),
    {
        let mut spans: Vec<Span> = Vec::new();
        assert(span_views(spans@) =~= seq![]);
        if self.layout.is_none() {
            return spans;
        }
        let panes = self.frame_panes();
        assert(panes@.len() == frame_pane_views(panes@).len());
        let bar = self.tab_bar(panes.len());
        let hint = self.prefix_hint();
        let status = self.status_bar(&hint);
        spans = compose_frame(
            self.outer_size,
            bar,
            panes.as_slice(),
            status,
            self.chrome_options(),
        );
        let ghost base = composed(
            self@.outer_size,
            bar,
            self@.drawn_panes(),
            status,
            self@.options(),
        );
        assert(span_views(spans@) == base);
        self.push_copy_layer(&mut spans);
        let ghost copied = span_views(spans@);
        match &self.launch {
            Some(notice) => {
                push_span(
                    &mut spans,
                    launch_notice_span(
                        Point::new(0, self.outer_size.rows.saturating_sub(1)),
                        notice,
                        self.outer_size.cols,
                        self.theme,
                    ),
                );
            },
            None => {},
        }
        assert(span_views(spans@) =~= copied + self@.launch_layer());
        let ghost launched = span_views(spans@);
        match self.resize {
            Some(resize) => {
                let lit = resize_affordance_spans(
                    points,
                    resize.divider.dir,
                    resize.share,
                    self.outer_size,
                    self.theme,
                );
                push_spans(&mut spans, lit);
            },
            None => {},
        }
        assert(span_views(spans@) =~= launched + self@.resize_layer(points@));
        assert(tab_bar_says(self@, self@.drawn_panes().len(), bar));
        assert(status_bar_says(self@, status));
        spans
    }

    /// The bounded toast stack, drawn in the upper-right safe area. A notice
    /// never covers the row the focused cursor is on.
    pub fn toast_spans(&self) -> (spans: Vec<Span>)
        requires
            self.wf(),
        ensures
            span_views(spans@) == self@.toast_layer(),
    {
        let avoid = match self.cursor() {
            Some(cursor) => Some(cursor.pos.row),
            None => None,
        };
        let toasts = self.toasts.toasts();
        let ghost views = self.toasts@.toasts;
        assert(toasts@.len() == crate::toast::toast_views(toasts@).len());
        let rows = toast_rows(self.outer_size, toasts.len(), avoid);
        assert(rows@ == self@.notice_rows());
        let count: usize = if rows.len() < toasts.len() {
            rows.len()
        } else {
            toasts.len()
        };
        let ghost layer = self@.toast_layer();
        let mut spans: Vec<Span> = Vec::new();
        assert(span_views(spans@) =~= layer.take(0));
        for i in 0..count
            invariant
                rows@ == self@.notice_rows(),
                crate::toast::toast_views(toasts@) == views,
                views == self@.toasts.toasts,
                count == fewer(rows@.len(), toasts@.len()),
                toasts@.len() == views.len(),
                layer == self@.toast_layer(),
                span_views(spans@) == layer.take(i as int),
        {
            assert(views[i as int] == toasts@[i as int]@);
            let still = toast_stack_span(self.outer_size, rows[i], &toasts[i], self.theme);
            let span = match toasts[i].phase() {
                Some(phase) => phase_span(&still, phase, self.theme.color(ThemeToken::Frame)),
                None => still,
            };
            assert(span@ == toast_at(self@.outer_size, rows@[i as int], views[i as int], self@.theme));
            push_span(&mut spans, span);
            assert(layer.take(i + 1) =~= layer.take(i as int).push(layer[i as int]));
        }
        assert(layer.take(count as int) =~= layer);
        spans
    }

    /// Whether a span is pane content rather than a client-owned layer.
    pub fn is_body_span(&self, span: &Span) -> (body: bool)
        ensures
            body == is_body(self@.areas, span@),
    {
        let len: u16 = if span.cells.len() <= u16::MAX as usize {
            span.cells.len() as u16
        } else {
            u16::MAX
        };
        let end: u16 = span.at.col.saturating_add(len);
        assert(end == behind(span@.at.col, span@.cells.len() as int));
        let list = self.areas.entries();
        for i in 0..list.len()
            invariant
                list@.len() == self.areas@.len(),
                forall|k: int|
                    0 <= k < list@.len() ==> *(#[trigger] list@[k]).1 == self.areas@[k].1,
                end == behind(span@.at.col, span@.cells.len() as int),
                forall|k: int| 0 <= k < i ==> !lies_in((#[trigger] self.areas@[k]).1, span@),
        {
            let area = *list[i].1;
            if span.at.row >= area.y && span.at.row < area.y.saturating_add(area.size.rows)
                && span.at.col >= area.x && end <= area.x.saturating_add(area.size.cols) {
                assert(lies_in(self.areas@[i as int].1, span@));
                return true;
            }
        }
        false
    }

    /// The box an overlay is drawn in.
    pub fn overlay_size(&self, overlay: &Overlay) -> (size: Size)
        requires
            overlay.wf(),
        ensures
            size == self@.overlay_size(overlay@.kind),
    {
        let wanted = overlay.preferred_rows();
        let rows: u16 = if wanted < 2 {
            2
        } else if wanted > 20 {
            20
        } else {
            wanted as u16
        };
        Size::new(
            if self.outer_size.cols < 60 {
                self.outer_size.cols
            } else {
                60
            },
            if rows < self.outer_size.rows {
                rows
            } else {
                self.outer_size.rows
            },
        )
    }

    /// Which spans are chrome.
    fn marks(&self, spans: &Vec<Span>) -> (chrome: Vec<bool>)
        ensures
            chrome@ == span_views(spans@).map_values(
                |span: SpanView| !is_body(self@.areas, span),
            ),
    {
        let ghost views = span_views(spans@);
        let ghost flags = views.map_values(|span: SpanView| !is_body(self@.areas, span));
        let mut chrome: Vec<bool> = Vec::new();
        for i in 0..spans.len()
            invariant
                views == span_views(spans@),
                flags == views.map_values(|span: SpanView| !is_body(self@.areas, span)),
                chrome@ == flags.take(i as int),
        {
            assert(views[i as int] == spans@[i as int]@);
            chrome.push(!self.is_body_span(&spans[i]));
            assert(flags.take(i + 1) =~= flags.take(i as int).push(flags[i as int]));
        }
        assert(flags.take(views.len() as int) =~= flags);
        chrome
    }

    /// Everything beneath an overlay, dimmed.
    fn backdrop(&self, under: &Vec<Span>) -> (spans: Vec<Span>)
        ensures
            span_views(spans@) == span_views(under@).map_values(
                |span: SpanView| dimmed_span(span, self@.theme),
            ),
    {
        let ghost beneath = span_views(under@);
        let ghost dimmed = beneath.map_values(|span: SpanView| dimmed_span(span, self@.theme));
        let mut spans: Vec<Span> = Vec::new();
        assert(span_views(spans@) =~= dimmed.take(0));
        for i in 0..under.len()
            invariant
                beneath == span_views(under@),
                dimmed == beneath.map_values(|span: SpanView| dimmed_span(span, self@.theme)),
                span_views(spans@) == dimmed.take(i as int),
        {
            assert(beneath[i as int] == under@[i as int]@);
            push_span(
                &mut spans,
                backdrop_span(under[i].at, under[i].cells.as_slice(), self.theme),
            );
            assert(dimmed.take(i + 1) =~= dimmed.take(i as int).push(dimmed[i as int]));
        }
        assert(dimmed.take(under@.len() as int) =~= dimmed);
        spans
    }

    /// Composes pane contents plus every client-owned layer. `points` are the
    /// cells of the divider being moved.
    pub fn frame(&self, points: &[Point]) -> (frame: RenderFrame)
        requires
            self.wf(),
        ensures
            exists|base: Seq<SpanView>| #[trigger]
                self@.drawn(points@, base) && span_views(frame.spans@) == self@.layered(base)
                    && frame.chrome@ == self@.chrome_flags(base),
    {
        let mut under = self.spans(points);
        let ghost base = span_views(under@);
        let mut chrome = self.marks(&under);
        let toasts = self.toast_spans();
        assert(toasts@.len() == span_views(toasts@).len());
        push_true(&mut chrome, toasts.len());
        push_spans(&mut under, toasts);
        let ghost beneath = span_views(under@);
        let mut spans: Vec<Span> = Vec::new();
        match &self.overlay {
            Some(overlay) => {
                spans = self.backdrop(&under);
                let size = self.overlay_size(overlay);
                let at = Point::new(
                    (self.outer_size.cols - size.cols) / 2,
                    (self.outer_size.rows - size.rows) / 2,
                );
                let boxed = overlay_spans(at, overlay, size, self.theme);
                assert(span_views(boxed@) == self@.overlay_layer());
                assert(boxed@.len() == span_views(boxed@).len());
                push_true(&mut chrome, boxed.len());
                push_spans(&mut spans, boxed);
            },
            None => {
                spans = under;
            },
        }
        assert(span_views(spans@) =~= self@.layered(base));
        assert(chrome@ =~= self@.chrome_flags(base));
        RenderFrame { spans, chrome }
    }
}

/// Appends `count` marks.
fn push_true(flags: &mut Vec<bool>, count: usize)
    ensures
        final(flags)@ == old(flags)@ + Seq::new(count as nat, |i: int| true),
{
    for i in 0..count
        invariant
            flags@ == old(flags)@ + Seq::new(i as nat, |i: int| true),
    {
        flags.push(true);
        assert(flags@ =~= old(flags)@ + Seq::new((i + 1) as nat, |i: int| true));
    }
    assert(flags@ =~= old(flags)@ + Seq::new(count as nat, |i: int| true));
}

/// Every span of a frame is marked, as chrome or as pane content.
pub proof fn every_span_is_marked(state: LiveView, base: Seq<SpanView>)
    ensures
        state.chrome_flags(base).len() == state.layered(base).len(),
{
}

/// An open overlay and every notice are chrome, wherever they land.
pub proof fn overlays_and_notices_are_chrome(state: LiveView, base: Seq<SpanView>, i: int)
    requires
        base.len() <= i < state.chrome_flags(base).len(),
    ensures
        state.chrome_flags(base)[i],
{
}

/// A notice never covers the row the focused cursor is on, nor a chrome row.
pub proof fn a_notice_never_covers_the_input_row(state: LiveView, i: int)
    requires
        0 <= i < state.toast_layer().len(),
    ensures
        state.cursor_row() != Some(state.toast_layer()[i].at.row),
        state.toast_layer()[i].at.row >= 1,
        state.toast_layer()[i].at.row + 1 < state.outer_size.rows,
{
    crate::toast::toasts_keep_to_the_safe_rows(
        state.outer_size,
        state.toasts.toasts.len(),
        state.cursor_row(),
        i,
    );
}

/// An overlay's box never leaves the terminal.
pub proof fn an_overlay_fits_the_terminal(state: LiveView, kind: KindView)
    ensures
        state.overlay_size(kind).cols <= state.outer_size.cols,
        state.overlay_size(kind).rows <= state.outer_size.rows,
{
}

proof fn tab_rows_agree(view: LiveView, a: TabBar, b: TabBar)
    requires
        tab_bar_says(view, view.drawn_panes().len(), a),
        tab_bar_says(view, view.drawn_panes().len(), b),
    ensures
        tab_row(a, view.outer_size.cols as nat, view.options()) == tab_row(
            b,
            view.outer_size.cols as nat,
            view.options(),
        ),
{
    assert(a.name() == b.name());
    assert(a.metadata_full() == b.metadata_full());
    assert(a.metadata_short() == b.metadata_short());
    assert(tab_row_reference(a, view.outer_size.cols as nat) == tab_row_reference(
        b,
        view.outer_size.cols as nat,
    ));
}

proof fn status_rows_agree(view: LiveView, a: StatusBar, b: StatusBar)
    requires
        status_bar_says(view, a),
        status_bar_says(view, b),
    ensures
        status_bar(a, view.outer_size.cols as nat, view.options()) == status_bar(
            b,
            view.outer_size.cols as nat,
            view.options(),
        ),
{
    let width = view.outer_size.cols as nat;
    assert(minimal_session(a.session) == minimal_session(b.session));
    assert(attention_field(a.queue) == attention_field(b.queue));
    assert(attention_count(a.queue) == attention_count(b.queue));
    assert(a.hint.chord() == b.hint.chord());
    assert(a.hint.last_char() == b.hint.last_char());
    assert(a.hint.guide(1) == b.hint.guide(1));
    assert(a.hint.guide(2) == b.hint.guide(2));
    assert(a.hint.guide(3) == b.hint.guide(3));
    assert(repository_field(a.repository) == repository_field(b.repository));
    assert(clock_field(a.clock) == clock_field(b.clock));
    assert(minimal_marks(a.hint, width) == minimal_marks(b.hint, width));
    assert(minimal_reference(a, width) == minimal_reference(b, width));
}

/// The projection determines its frame: whatever is drawn for it is drawn for
/// it always.
pub proof fn a_projection_has_one_frame(
    view: LiveView,
    points: Seq<Point>,
    first: Seq<SpanView>,
    second: Seq<SpanView>,
)
    requires
        view.drawn(points, first),
        view.drawn(points, second),
    ensures
        first == second,
{
    if view.layout is Some {
        let (bar, status) = choose|bar: TabBar, status: StatusBar| #[trigger]
            tab_bar_says(view, view.drawn_panes().len(), bar) && #[trigger] status_bar_says(
                view,
                status,
            ) && first == composed(
                view.outer_size,
                bar,
                view.drawn_panes(),
                status,
                view.options(),
            ) + view.copy_layer() + view.launch_layer() + view.resize_layer(points);
        let (other, said) = choose|bar: TabBar, status: StatusBar| #[trigger]
            tab_bar_says(view, view.drawn_panes().len(), bar) && #[trigger] status_bar_says(
                view,
                status,
            ) && second == composed(
                view.outer_size,
                bar,
                view.drawn_panes(),
                status,
                view.options(),
            ) + view.copy_layer() + view.launch_layer() + view.resize_layer(points);
        tab_rows_agree(view, bar, other);
        status_rows_agree(view, status, said);
    }
}

/// Every laid-out pane that has a place and contents is drawn, with those, under
/// the position a user refers to it by, its own name and task and state, marked
/// where it has focus and where it is zoomed.
pub proof fn every_laid_pane_is_drawn(
    view: LiveView,
    layout: LayoutView,
    at: int,
    area: PaneArea,
    grid: crate::live::GridView,
)
    requires
        view.layout == Some(layout),
        0 <= at < layout.panes.len() <= u16::MAX,
        lookup(view.areas, layout.panes[at].pane) == Some(area),
        lookup(view.grids, layout.panes[at].pane) == Some(grid),
    ensures
        ({
            let pane = layout.panes[at].pane;
            exists|k: int|
                0 <= k < view.drawn_panes().len() && {
                    let drawn = #[trigger] view.drawn_panes()[k];
                    &&& drawn.area == area
                    &&& drawn.rows == grid.rows
                    &&& drawn.header.index == at + 1
                    &&& drawn.header.focused == (layout.focused == Some(pane))
                    &&& drawn.header.zoomed == (layout.zoomed == Some(pane))
                    &&& match lookup(view.panes, pane) {
                        Some(info) => drawn.header.title == info.name@ && match info.task {
                            Some(task) => drawn.header.task == Some(task@),
                            None => drawn.header.task is None,
                        },
                        None => drawn.header.task is None && drawn.header.title == seq![
                            'p',
                            'a',
                            'n',
                            'e',
                        ],
                    }
                    &&& match lookup(view.attention, pane) {
                        Some(state) => crate::live_laws::shown_as(
                            state.state,
                            drawn.header.attention,
                        ),
                        None => drawn.header.attention == crate::attention::Attention::Unknown,
                    }
                }
        }),
{
    let pane = layout.panes[at].pane;
    let header = live_header(view, at as nat, pane);
    drawn_by(view, layout, at, layout.panes.len(), area, grid);
    let panes = view.drawn_panes();
    let k = choose|k: int|
        0 <= k < panes.len() && (#[trigger] panes[k]) == (FramePaneView {
            area,
            rows: grid.rows,
            header,
        });
    assert(panes[k].header == header);
    reveal_strlit("pane");
    assert("pane"@ =~= seq!['p', 'a', 'n', 'e']);
    if let Some(state) = lookup(view.attention, pane) {
        crate::live_laws::a_state_is_shown_as_itself(state.state);
    }
}

proof fn drawn_by(
    view: LiveView,
    layout: LayoutView,
    at: int,
    count: nat,
    area: PaneArea,
    grid: crate::live::GridView,
)
    requires
        view.layout == Some(layout),
        0 <= at < count <= layout.panes.len() <= u16::MAX,
        lookup(view.areas, layout.panes[at].pane) == Some(area),
        lookup(view.grids, layout.panes[at].pane) == Some(grid),
    ensures
        exists|k: int|
            0 <= k < view.frame_panes(count).len() && (#[trigger] view.frame_panes(count)[k]) == (
            FramePaneView {
                area,
                rows: grid.rows,
                header: live_header(view, at as nat, layout.panes[at].pane),
            }),
    decreases count,
{
    let made = FramePaneView {
        area,
        rows: grid.rows,
        header: live_header(view, at as nat, layout.panes[at].pane),
    };
    let all = view.frame_panes(count);
    let rest = view.frame_panes((count - 1) as nat);
    if at < count - 1 {
        drawn_by(view, layout, at, (count - 1) as nat, area, grid);
        let k = choose|k: int| 0 <= k < rest.len() && (#[trigger] rest[k]) == made;
        assert(all[k] == made);
    } else {
        assert(all[rest.len() as int] == made);
    }
}

/// Chrome is drawn in the client's own theme, and dims as the client prefers.
pub proof fn chrome_follows_the_preferences(view: LiveView)
    ensures
        view.options().theme == view.theme,
        view.options().dim_unfocused == view.visual.dim_unfocused,
{
}

/// The layers lie in order over the frame, each whole: notices over the panes,
/// and an open overlay over everything, the rest behind it dimmed but in place.
pub proof fn layers_lie_in_order(view: LiveView, base: Seq<SpanView>, i: int)
    requires
        0 <= i < base.len(),
    ensures
        view.layered(base).len() == base.len() + view.toast_layer().len()
            + view.overlay_layer().len(),
        view.layered(base)[i].at == base[i].at,
        view.layered(base)[i].cells.len() == base[i].cells.len(),
        view.overlay is None ==> view.layered(base)[i] == base[i],
        view.overlay is None ==> view.overlay_layer().len() == 0,
{
    let spans = base + view.toast_layer();
    assert(spans[i] == base[i]);
}

/// A notice stands at the right end of its row, one cell clear of the edge, as
/// long as it fits.
pub proof fn a_notice_stands_at_the_right(view: LiveView, i: int)
    requires
        0 <= i < view.toast_layer().len(),
    ensures
        ({
            let span = view.toast_layer()[i];
            span.cells.len() + 1 <= view.outer_size.cols ==> span.at.col + span.cells.len() + 1
                == view.outer_size.cols
        }),
        view.toast_layer().len() <= view.toasts.toasts.len(),
        forall|c: int|
            0 <= c < view.toast_layer()[i].cells.len() ==> (
            #[trigger] view.toast_layer()[i].cells[c]).ch == toast_row(
                view.toasts.toasts[i],
                toast_width(view.outer_size),
                view.theme,
            )[c].ch,
{
    let cells = toast_row(view.toasts.toasts[i], toast_width(view.outer_size), view.theme);
    if let Some(phase) = view.toasts.toasts[i].phase {
        assert(moved_cells(cells, phase, view.theme.frame).len() == cells.len());
    }
}

/// A span is pane content exactly where all of it lies in a pane's grid.
pub proof fn pane_content_lies_in_a_grid(areas: Seq<(PaneId, PaneArea)>, span: SpanView)
    requires
        span.at.col + span.cells.len() <= u16::MAX,
        forall|i: int|
            0 <= i < areas.len() ==> (#[trigger] areas[i]).1.x + areas[i].1.size.cols <= u16::MAX
                && areas[i].1.y + areas[i].1.size.rows <= u16::MAX,
    ensures
        is_body(areas, span) <==> exists|i: int|
            0 <= i < areas.len() && {
                let area = (#[trigger] areas[i]).1;
                &&& area.y <= span.at.row < area.y + area.size.rows
                &&& area.x <= span.at.col
                &&& span.at.col + span.cells.len() <= area.x + area.size.cols
            },
{
    if is_body(areas, span) {
        let i = choose|i: int| 0 <= i < areas.len() && lies_in((#[trigger] areas[i]).1, span);
        assert(areas[i].1.y <= span.at.row < areas[i].1.y + areas[i].1.size.rows);
    }
    if exists|i: int|
        0 <= i < areas.len() && {
            let area = (#[trigger] areas[i]).1;
            &&& area.y <= span.at.row < area.y + area.size.rows
            &&& area.x <= span.at.col
            &&& span.at.col + span.cells.len() <= area.x + area.size.cols
        } {
        let i = choose|i: int|
            0 <= i < areas.len() && {
                let area = (#[trigger] areas[i]).1;
                &&& area.y <= span.at.row < area.y + area.size.rows
                &&& area.x <= span.at.col
                &&& span.at.col + span.cells.len() <= area.x + area.size.cols
            };
        assert(lies_in(areas[i].1, span));
    }
}

} // verus!
