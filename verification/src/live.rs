//! The client's projection of a server's latest state.
//!
//! A cache rather than another session model: the server decides every pane
//! rectangle and state, and this joins its independent clocks into the grids,
//! headers, cursor and hit-test map that one terminal frame needs.

use vstd::prelude::*;

use crate::attention::{nothing_waiting, Attention, AttentionQueue, EntryView, QueueView};
use crate::chrome::ChromeOptions;
use crate::frame::{before, behind, Cursor};
use crate::input::{PaneArea, ScreenLayout, ScreenView};
use crate::launch::NoticeView;
use crate::motion::{MotionKind, MotionSettings};
use crate::overlay::{
    session_views, waiting_views, AttentionEntry, LaunchNotice, Overlay, OverlayView, Profile,
    SessionEntry, SessionView, SocketPath, WaitingView,
};
use crate::panes::{ascending, holds, inserted, inserting, kept_in, lookup, rank, removing, PaneMap};
use crate::proto::{
    AttentionState, Cell, CopyModeState, CursorShape, Direction, LayoutSnapshot, LayoutView,
    PaneAttention, PaneId, PaneInfo, PaneModes, PaneRect, Point, RowUpdate, ServerMessage,
    SessionId, SessionSummary, Size, TabSummary, TermCaps, WorkspaceStatus, WorkspaceView,
};
use crate::renderer::{blank_rows, Grid, RenderError};
use crate::settings::{ConfigPreview, Swatches, VisualConfig};
use crate::status_bar::{PrefixHint, RepositoryStatus};
use crate::text::same_text;
use crate::theme::Theme;
use crate::time::{Duration, Instant};
use crate::toast::{toast_lifetime, within, without_pane, DeckView, ToastDeck, TOAST_CAPACITY};

verus! {

/// The fixed outer rows reserved before session geometry: tab and status.
pub const FIXED_CHROME_ROWS: u16 = 2;

/// A terminal's usable session area after the frame's fixed chrome rows.
#[verifier::allow_in_spec]
pub fn session_size(outer: Size) -> Size
    returns
        (Size { cols: outer.cols, rows: outer.rows.saturating_sub(FIXED_CHROME_ROWS) }),
{
    Size { cols: outer.cols, rows: outer.rows.saturating_sub(FIXED_CHROME_ROWS) }
}

/// How long one keyboard resize remains visible after its layout answer.
#[verifier::allow_in_spec]
pub fn keyboard_resize_linger() -> Duration
    returns
        (Duration { nanos: 750_000_000 }),
{
    Duration::from_millis(750)
}

/// A server's attention state in the chrome's vocabulary.
#[verifier::allow_in_spec]
pub fn attention(state: AttentionState) -> Attention
    returns
        (match state {
            AttentionState::Unknown => Attention::Unknown,
            AttentionState::Working => Attention::Working,
            AttentionState::NeedsInput => Attention::NeedsInput,
            AttentionState::Ready => Attention::Ready,
            AttentionState::Failed => Attention::Failed,
            AttentionState::Quiet => Attention::Quiet,
        }),
{
    match state {
        AttentionState::Unknown => Attention::Unknown,
        AttentionState::Working => Attention::Working,
        AttentionState::NeedsInput => Attention::NeedsInput,
        AttentionState::Ready => Attention::Ready,
        AttentionState::Failed => Attention::Failed,
        AttentionState::Quiet => Attention::Quiet,
    }
}

impl MotionSettings {
    /// The one motion answer a client's preferences give.
    #[verifier::allow_in_spec]
    pub fn from_visual(visual: VisualConfig) -> MotionSettings
        returns
            (MotionSettings { reduce_motion: !visual.motion || visual.reduce_motion }),
    {
        MotionSettings { reduce_motion: !visual.motion || visual.reduce_motion }
    }
}

/// A side of a pane.
#[derive(Clone, Copy, Debug, PartialEq, Eq, Structural)]
pub enum Side {
    Left,
    Right,
    Up,
    Down,
}

/// A drawn divider: the pane whose edge it is, and the direction it moves in.
#[derive(Clone, Copy, Debug, PartialEq, Eq, Structural)]
pub struct Divider {
    pub pane: PaneId,
    pub dir: Direction,
}

/// The dividers around the focused pane, each with the share it leaves where it
/// could be measured. An outer edge has none.
#[derive(Clone, Copy, Debug, PartialEq, Eq)]
pub struct Edges {
    pub left: Option<(Divider, Option<u16>)>,
    pub right: Option<(Divider, Option<u16>)>,
    pub up: Option<(Divider, Option<u16>)>,
    pub down: Option<(Divider, Option<u16>)>,
}

impl Edges {
    /// Outer edges on every side.
    #[verifier::allow_in_spec]
    pub fn none() -> Edges
        returns
            (Edges { left: None, right: None, up: None, down: None }),
    {
        Edges { left: None, right: None, up: None, down: None }
    }

    /// The divider on one side.
    #[verifier::allow_in_spec]
    pub fn toward(&self, side: Side) -> Option<(Divider, Option<u16>)>
        returns
            (match side {
                Side::Left => self.left,
                Side::Right => self.right,
                Side::Up => self.up,
                Side::Down => self.down,
            }),
    {
        match side {
            Side::Left => self.left,
            Side::Right => self.right,
            Side::Up => self.up,
            Side::Down => self.down,
        }
    }
}

/// What a divider is being moved with.
#[derive(Clone, Copy, Debug, PartialEq, Eq, Structural)]
pub enum ResizeSource {
    Keyboard,
    Mouse,
}

/// The divider being moved, and the share it leaves in hundredths.
#[derive(Clone, Copy, Debug, PartialEq, Eq, Structural)]
pub struct ResizeActivity {
    pub divider: Divider,
    pub share: u16,
    pub source: ResizeSource,
    pub until: Option<Instant>,
}

/// A pane's cursor, as the server last placed it.
#[derive(Clone, Copy, Debug, PartialEq, Eq, Structural)]
pub struct PaneCursor {
    pub pos: Point,
    pub shape: CursorShape,
    pub visible: bool,
}

/// One independently inspected local session.
#[derive(Debug, PartialEq, Eq)]
pub struct CatalogEntry {
    pub socket: SocketPath,
    pub summary: SessionSummary,
}

/// A pane's grid by its contents.
#[verifier::ext_equal]
pub struct GridView {
    pub size: Size,
    pub rows: Seq<Seq<Cell>>,
}

/// A grid of blanks.
pub open spec fn blank_grid(size: Size) -> GridView {
    GridView { size, rows: blank_rows(size) }
}

/// A grid by its contents.
pub open spec fn grid_view(grid: Grid) -> GridView {
    GridView { size: grid.extent(), rows: grid.contents() }
}

/// A pane's grid by its contents.
pub open spec fn grid_entry(entry: (PaneId, Grid)) -> (PaneId, GridView) {
    (entry.0, grid_view(entry.1))
}

/// Every pane's grid by its contents.
pub open spec fn grid_views(entries: Seq<(PaneId, Grid)>) -> Seq<(PaneId, GridView)> {
    entries.map_values(|entry: (PaneId, Grid)| grid_entry(entry))
}

impl GridView {
    /// This grid with one row replaced, or what is wrong with the row.
    pub open spec fn patched(self, update: RowUpdate) -> Result<GridView, RenderError> {
        if update.row >= self.size.rows {
            Err(RenderError::RowOutOfBounds { row: update.row, rows: self.size.rows })
        } else if update.cells@.len() != self.size.cols {
            Err(
                RenderError::WidthMismatch {
                    cells: update.cells@.len() as usize,
                    cols: self.size.cols,
                },
            )
        } else {
            Ok(GridView { rows: self.rows.update(update.row as int, update.cells@), ..self })
        }
    }

    /// This grid with rows replaced up to the first that is wrong.
    pub open spec fn damaged(self, updates: Seq<RowUpdate>) -> (GridView, Option<RenderError>)
        decreases updates.len(),
    {
        if updates.len() == 0 {
            (self, None)
        } else {
            match self.patched(updates[0]) {
                Ok(next) => next.damaged(updates.drop_first()),
                Err(error) => (self, Some(error)),
            }
        }
    }
}

/// A repository answer by its contents.
#[verifier::ext_equal]
pub struct RepositoryView {
    pub branch: Option<Seq<char>>,
    pub changes: u32,
}

/// An optional text by its contents.
pub open spec fn text_view(text: Option<String>) -> Option<Seq<char>> {
    match text {
        Some(inner) => Some(inner@),
        None => None,
    }
}

/// A repository answer by its contents.
pub open spec fn repository_view(repository: Option<RepositoryStatus>) -> Option<RepositoryView> {
    match repository {
        Some(status) => Some(
            RepositoryView { branch: text_view(status.branch), changes: status.changes },
        ),
        None => None,
    }
}

/// Clock and repository facts owned by this terminal, never by the session.
#[derive(Debug, PartialEq, Eq)]
pub struct ClientStatus {
    pub clock: Option<String>,
    pub repository: Option<RepositoryStatus>,
}

fn same_optional(a: &Option<String>, b: &Option<String>) -> (same: bool)
    ensures
        same == (text_view(*a) == text_view(*b)),
{
    match (a, b) {
        (Some(x), Some(y)) => same_text(x.as_str(), y.as_str()),
        (None, None) => true,
        _ => false,
    }
}

fn same_repository(a: &Option<RepositoryStatus>, b: &Option<RepositoryStatus>) -> (same: bool)
    ensures
        same == (repository_view(*a) == repository_view(*b)),
{
    match (a, b) {
        (Some(x), Some(y)) => {
            let same = same_optional(&x.branch, &y.branch) && x.changes == y.changes;
            assert(same ==> repository_view(*a)->0 =~= repository_view(*b)->0);
            same
        },
        (None, None) => true,
        _ => false,
    }
}

impl ClientStatus {
    /// Replaces the repository answer, reporting whether it says something
    /// different.
    pub fn set_repository(&mut self, repository: Option<RepositoryStatus>) -> (changed: bool)
        ensures
            repository_view(final(self).repository) == repository_view(repository),
            final(self).clock == old(self).clock,
            changed == (repository_view(old(self).repository) != repository_view(repository)),
    {
        if same_repository(&self.repository, &repository) {
            return false;
        }
        self.repository = repository;
        true
    }

    /// Replaces the clock's reading, reporting whether it says something
    /// different.
    pub fn set_clock(&mut self, clock: Option<String>) -> (changed: bool)
        ensures
            text_view(final(self).clock) == text_view(clock),
            final(self).repository == old(self).repository,
            changed == (text_view(old(self).clock) != text_view(clock)),
    {
        if same_optional(&self.clock, &clock) {
            return false;
        }
        self.clock = clock;
        true
    }
}

/// The hit-test map of a frame: the tab row above, the status row below, the
/// panes between them.
pub open spec fn screen_of(outer: Size, focused: Option<PaneId>, areas: Seq<(PaneId, PaneArea)>) -> ScreenView {
    ScreenView {
        size: outer,
        tab_row: Some(0),
        status_row: Some(before(outer.rows)),
        focused,
        panes: areas.map_values(|entry: (PaneId, PaneArea)| entry.1),
    }
}

/// The client-owned projection of the server's latest frame.
#[derive(Debug)]
pub struct LiveState {
    pub outer_size: Size,
    pub tabs: Vec<TabSummary>,
    pub status: Option<WorkspaceStatus>,
    pub layout: Option<LayoutSnapshot>,
    pub areas: PaneMap<PaneArea>,
    pub panes: PaneMap<PaneInfo>,
    pub attention: PaneMap<PaneAttention>,
    pub grids: PaneMap<Grid>,
    pub cursors: PaneMap<PaneCursor>,
    pub modes: PaneMap<PaneModes>,
    pub copy_mode: Option<CopyModeState>,
    pub overlay: Option<Overlay>,
    pub queue: AttentionQueue,
    pub toasts: ToastDeck,
    pub screen: ScreenLayout,
    /// The configured prefix's spelling.
    pub prefix: String,
    /// Whether the router is holding a prefix and owns the next chord.
    pub prefix_pending: bool,
    pub profiles: Vec<Profile>,
    pub sessions: Vec<SessionEntry>,
    /// The launch this client is still waiting on, or the refusal it is showing.
    pub launch: Option<LaunchNotice>,
    pub visual: VisualConfig,
    /// The palette resolved for this outer terminal.
    pub theme: Theme,
    pub swatches: Swatches,
    pub caps: TermCaps,
    /// The newest reload revision this client has attempted.
    pub config_revision: u64,
    pub resize: Option<ResizeActivity>,
    pub local_status: ClientStatus,
    /// The focused working directory whose repository answer is current or in
    /// flight.
    pub repository_target: Option<String>,
}

/// The projection by its contents.
#[verifier::ext_equal]
pub struct LiveView {
    pub outer_size: Size,
    pub tabs: Seq<TabSummary>,
    pub status: Option<WorkspaceView>,
    pub layout: Option<LayoutView>,
    pub areas: Seq<(PaneId, PaneArea)>,
    pub panes: Seq<(PaneId, PaneInfo)>,
    pub attention: Seq<(PaneId, PaneAttention)>,
    pub grids: Seq<(PaneId, GridView)>,
    pub cursors: Seq<(PaneId, PaneCursor)>,
    pub modes: Seq<(PaneId, PaneModes)>,
    pub copy_mode: Option<CopyModeState>,
    pub overlay: Option<OverlayView>,
    pub queue: QueueView,
    pub toasts: DeckView,
    pub screen: ScreenView,
    pub prefix: Seq<char>,
    pub prefix_pending: bool,
    pub profiles: Seq<Profile>,
    pub sessions: Seq<SessionView>,
    pub launch: Option<NoticeView>,
    pub visual: VisualConfig,
    pub theme: Theme,
    pub swatches: Swatches,
    pub caps: TermCaps,
    pub config_revision: u64,
    pub resize: Option<ResizeActivity>,
    pub clock: Option<Seq<char>>,
    pub repository: Option<RepositoryView>,
    pub repository_target: Option<Seq<char>>,
}

/// A workspace status by its contents.
pub open spec fn status_view(status: Option<WorkspaceStatus>) -> Option<WorkspaceView> {
    match status {
        Some(inner) => Some(inner@),
        None => None,
    }
}

/// A layout by its contents.
pub open spec fn layout_view(layout: Option<LayoutSnapshot>) -> Option<LayoutView> {
    match layout {
        Some(inner) => Some(inner@),
        None => None,
    }
}

/// An overlay by its contents.
pub open spec fn overlay_view(overlay: Option<Overlay>) -> Option<OverlayView> {
    match overlay {
        Some(inner) => Some(inner@),
        None => None,
    }
}

/// A launch notice by its contents.
pub open spec fn launch_view(launch: Option<LaunchNotice>) -> Option<NoticeView> {
    match launch {
        Some(inner) => Some(inner@),
        None => None,
    }
}

impl View for LiveState {
    type V = LiveView;

    open spec fn view(&self) -> LiveView {
        LiveView {
            outer_size: self.outer_size,
            tabs: self.tabs@,
            status: status_view(self.status),
            layout: layout_view(self.layout),
            areas: self.areas@,
            panes: self.panes@,
            attention: self.attention@,
            grids: grid_views(self.grids@),
            cursors: self.cursors@,
            modes: self.modes@,
            copy_mode: self.copy_mode,
            overlay: overlay_view(self.overlay),
            queue: self.queue@,
            toasts: self.toasts@,
            screen: self.screen@,
            prefix: self.prefix@,
            prefix_pending: self.prefix_pending,
            profiles: self.profiles@,
            sessions: session_views(self.sessions@),
            launch: launch_view(self.launch),
            visual: self.visual,
            theme: self.theme,
            swatches: self.swatches,
            caps: self.caps,
            config_revision: self.config_revision,
            resize: self.resize,
            clock: text_view(self.local_status.clock),
            repository: repository_view(self.local_status.repository),
            repository_target: text_view(self.repository_target),
        }
    }
}

// What a layout makes of the panes.

/// Where a pane's grid is drawn: below the tab row.
pub open spec fn area_of(rect: PaneRect) -> PaneArea {
    PaneArea::new(rect.pane, rect.x, behind(rect.y, 1), rect.size)
}

/// The areas of a layout.
pub open spec fn laid_areas(rects: Seq<PaneRect>) -> Seq<(PaneId, PaneArea)>
    decreases rects.len(),
{
    if rects.len() == 0 {
        seq![]
    } else {
        inserted(laid_areas(rects.drop_last()), rects.last().pane, area_of(rects.last()))
    }
}

/// Whether one of `rects` is a pane's.
pub open spec fn placed_in(rects: Seq<PaneRect>, pane: PaneId) -> bool {
    exists|i: int| 0 <= i < rects.len() && (#[trigger] rects[i]).pane == pane
}

/// The grid a rectangle gets: the one its pane had, where the size is the same
/// and no earlier rectangle took it, and a blank one everywhere else. Nothing is
/// carried over from a grid of another size: its rows stay blank until they are
/// drawn again.
pub open spec fn laid_grid(grids: Seq<(PaneId, GridView)>, earlier: Seq<PaneRect>, rect: PaneRect) -> GridView {
    match lookup(grids, rect.pane) {
        Some(grid) => if grid.size == rect.size && !placed_in(earlier, rect.pane) {
            grid
        } else {
            blank_grid(rect.size)
        },
        None => blank_grid(rect.size),
    }
}

/// The grids of a layout.
pub open spec fn laid_grids(grids: Seq<(PaneId, GridView)>, rects: Seq<PaneRect>) -> Seq<(PaneId, GridView)>
    decreases rects.len(),
{
    if rects.len() == 0 {
        seq![]
    } else {
        inserted(
            laid_grids(grids, rects.drop_last()),
            rects.last().pane,
            laid_grid(grids, rects.drop_last(), rects.last()),
        )
    }
}

/// Whether a pane is part of the layout that came last.
pub open spec fn is_laid(layout: Option<LayoutView>, pane: PaneId) -> bool {
    match layout {
        Some(last) => placed_in(last.panes, pane),
        None => false,
    }
}

/// Whether only panes of the layout that came last have contents, in order.
#[verifier::opaque]
pub open spec fn grids_follow(grids: Seq<(PaneId, GridView)>, layout: Option<LayoutView>) -> bool {
    &&& ascending(grids)
    &&& forall|pane: PaneId| (#[trigger] lookup(grids, pane)) is Some ==> is_laid(layout, pane)
}

pub(crate) proof fn laid_grids_are_ascending(grids: Seq<(PaneId, GridView)>, rects: Seq<PaneRect>)
    ensures
        ascending(laid_grids(grids, rects)),
    decreases rects.len(),
{
    if rects.len() > 0 {
        let rest = rects.drop_last();
        laid_grids_are_ascending(grids, rest);
        inserting(
            laid_grids(grids, rest),
            rects.last().pane,
            laid_grid(grids, rest, rects.last()),
            rects.last().pane,
        );
    }
}

proof fn laid_grids_are_placed(grids: Seq<(PaneId, GridView)>, rects: Seq<PaneRect>, pane: PaneId)
    ensures
        lookup(laid_grids(grids, rects), pane) is Some ==> placed_in(rects, pane),
    decreases rects.len(),
{
    if rects.len() > 0 {
        let rest = rects.drop_last();
        laid_grids_are_placed(grids, rest, pane);
        laid_grids_are_ascending(grids, rest);
        inserting(
            laid_grids(grids, rest),
            rects.last().pane,
            laid_grid(grids, rest, rects.last()),
            pane,
        );
        if placed_in(rest, pane) {
            let j = choose|j: int| 0 <= j < rest.len() && (#[trigger] rest[j]).pane == pane;
            assert(rects[j].pane == pane);
        }
        if rects.last().pane == pane {
            assert(rects[rects.len() - 1].pane == pane);
        }
    }
}

/// The grids of a layout are those of its panes.
pub proof fn laid_grids_follow(grids: Seq<(PaneId, GridView)>, layout: LayoutView)
    ensures
        grids_follow(laid_grids(grids, layout.panes), Some(layout)),
{
    reveal(grids_follow);
    laid_grids_are_ascending(grids, layout.panes);
    assert forall|pane: PaneId|
        (#[trigger] lookup(laid_grids(grids, layout.panes), pane)) is Some implies is_laid(
        Some(layout),
        pane,
    ) by {
        laid_grids_are_placed(grids, layout.panes, pane);
    }
}

/// Drawing a grid anew lays out no pane.
pub proof fn drawn_grids_follow(
    grids: Seq<(PaneId, GridView)>,
    layout: Option<LayoutView>,
    pane: PaneId,
    grid: GridView,
)
    requires
        grids_follow(grids, layout),
        holds(grids, pane),
    ensures
        grids_follow(inserted(grids, pane, grid), layout),
{
    reveal(grids_follow);
    assert(lookup(grids, pane) is Some);
    inserting(grids, pane, grid, pane);
    assert forall|other: PaneId|
        (#[trigger] lookup(inserted(grids, pane, grid), other)) is Some implies is_laid(
        layout,
        other,
    ) by {
        inserting(grids, pane, grid, other);
    }
}

// What the projections make of the queue and the notices.

/// The position a user refers to the `i`th pane by.
pub open spec fn position(i: nat) -> u16 {
    if i + 1 <= u16::MAX {
        (i + 1) as u16
    } else {
        u16::MAX
    }
}

/// The queue of the first `count` panes: those with a state nobody
/// acknowledged, in order.
pub open spec fn queue_of(panes: Seq<(PaneId, PaneInfo)>, states: Seq<(PaneId, PaneAttention)>, count: nat) -> QueueView
    decreases count,
{
    if count == 0 {
        nothing_waiting()
    } else {
        let rest = queue_of(panes, states, (count - 1) as nat);
        let info = panes[count - 1].1;
        match lookup(states, info.pane) {
            Some(state) => if state.acknowledged {
                rest
            } else {
                rest.recorded(position((count - 1) as nat), info.name@, attention(state.state))
            },
            None => rest,
        }
    }
}

/// Queue rows paired with the panes they name; a row whose pane is gone is
/// dropped.
pub open spec fn named_rows(panes: Seq<(PaneId, PaneInfo)>, entries: Seq<EntryView>) -> Seq<WaitingView>
    decreases entries.len(),
{
    if entries.len() == 0 {
        seq![]
    } else {
        let rest = named_rows(panes, entries.drop_last());
        let entry = entries.last();
        if 1 <= entry.index <= panes.len() {
            rest.push(
                WaitingView {
                    pane: panes[entry.index - 1].1.pane,
                    index: entry.index,
                    title: entry.title,
                    attention: entry.attention,
                },
            )
        } else {
            rest
        }
    }
}

/// A deck without one pane's notice.
pub open spec fn dismissed(deck: DeckView, index: u16) -> DeckView {
    DeckView { toasts: without_pane(deck.toasts, index), ..deck }
}

/// Whether a pane's state is news: it had none, it was acknowledged, or it was
/// another one.
pub open spec fn is_news(before: Option<PaneAttention>, state: AttentionState) -> bool {
    match before {
        Some(previous) => previous.acknowledged || previous.state != state,
        None => true,
    }
}

/// The notices once the first `count` panes were looked at: a pane that is gone
/// or acknowledged loses its notice, and one with a new actionable state raises
/// one.
pub open spec fn noticed(
    deck: DeckView,
    panes: Seq<(PaneId, PaneInfo)>,
    before: Seq<(PaneId, PaneAttention)>,
    next: Seq<(PaneId, PaneAttention)>,
    now: Instant,
    count: nat,
) -> DeckView
    decreases count,
{
    if count == 0 {
        deck
    } else {
        let rest = noticed(deck, panes, before, next, now, (count - 1) as nat);
        let info = panes[count - 1].1;
        let index = position((count - 1) as nat);
        match lookup(next, info.pane) {
            None => dismissed(rest, index),
            Some(state) => if state.acknowledged {
                dismissed(rest, index)
            } else if attention(state.state).is_actionable() && is_news(
                lookup(before, info.pane),
                state.state,
            ) {
                rest.pushed(index, info.name@, attention(state.state), now)
            } else {
                rest
            },
        }
    }
}

/// Panes by their identifiers.
pub open spec fn pane_entries(infos: Seq<PaneInfo>) -> Seq<(PaneId, PaneInfo)>
    decreases infos.len(),
{
    if infos.len() == 0 {
        seq![]
    } else {
        inserted(pane_entries(infos.drop_last()), infos.last().pane, infos.last())
    }
}

/// States by their panes.
pub open spec fn state_entries(states: Seq<PaneAttention>) -> Seq<(PaneId, PaneAttention)>
    decreases states.len(),
{
    if states.len() == 0 {
        seq![]
    } else {
        inserted(state_entries(states.drop_last()), states.last().pane, states.last())
    }
}

/// How many panes there are, as far as positions can tell.
pub open spec fn pane_count(panes: Seq<(PaneId, PaneInfo)>) -> u16 {
    if panes.len() <= u16::MAX {
        panes.len() as u16
    } else {
        u16::MAX
    }
}

impl LiveView {
    /// The focused pane.
    pub open spec fn focused(self) -> Option<PaneId> {
        match self.layout {
            Some(layout) => layout.focused,
            None => None,
        }
    }

    /// The directory of the focused pane.
    pub open spec fn focused_cwd(self) -> Option<Seq<char>> {
        match self.focused() {
            Some(pane) => match lookup(self.panes, pane) {
                Some(info) => Some(info.cwd@),
                None => None,
            },
            None => None,
        }
    }

    /// The modes of the focused pane.
    pub open spec fn focused_modes(self) -> PaneModes {
        match self.focused() {
            Some(pane) => match lookup(self.modes, pane) {
                Some(modes) => modes,
                None => PaneModes::none(),
            },
            None => PaneModes::none(),
        }
    }

    /// This projection with another layout.
    pub open spec fn laid(self, layout: LayoutView) -> LiveView {
        let areas = laid_areas(layout.panes);
        LiveView {
            areas,
            grids: laid_grids(self.grids, layout.panes),
            cursors: kept_in(self.cursors, areas),
            modes: kept_in(self.modes, areas),
            layout: Some(layout),
            screen: screen_of(self.outer_size, layout.focused, areas),
            ..self
        }
    }

    /// This projection in a terminal of another size.
    pub open spec fn resized(self, outer: Size) -> LiveView {
        let next = LiveView { outer_size: outer, ..self };
        match self.layout {
            Some(layout) => next.laid(layout),
            None => LiveView { screen: screen_of(outer, None, seq![]), ..next },
        }
    }

    /// This projection with its queue, an open queue surface and its notices
    /// brought up to date.
    pub open spec fn requeued(self) -> LiveView {
        let queue = queue_of(self.panes, self.attention, self.panes.len());
        let rows = named_rows(self.panes, queue.entries);
        LiveView {
            queue,
            overlay: match self.overlay {
                Some(overlay) => Some(overlay.attention_refreshed(rows)),
                None => None,
            },
            toasts: DeckView {
                toasts: within(self.toasts.toasts, pane_count(self.panes)),
                ..self.toasts
            },
            ..self
        }
    }

    /// Whether one of `infos` is the pane this client's launch asked for.
    pub open spec fn launch_answered(self, infos: Seq<PaneInfo>) -> bool {
        match self.launch {
            Some(notice) => !notice.refused && exists|i: int|
                0 <= i < infos.len() && notice.answered_by(#[trigger] infos[i]),
            None => false,
        }
    }

    /// This projection once the server told about the panes.
    pub open spec fn told_panes(self, infos: Seq<PaneInfo>) -> LiveView {
        (LiveView {
            launch: if self.launch_answered(infos) {
                None
            } else {
                self.launch
            },
            panes: pane_entries(infos),
            ..self
        }).requeued()
    }

    /// This projection once the server told about the panes' states.
    pub open spec fn told_states(self, states: Seq<PaneAttention>, now: Instant) -> LiveView {
        let next = state_entries(states);
        (LiveView {
            toasts: noticed(
                self.toasts,
                self.panes,
                self.attention,
                next,
                now,
                self.panes.len(),
            ),
            attention: next,
            ..self
        }).requeued()
    }

    /// This projection with rows of a pane replaced, and what is wrong with one
    /// of them. Rows of a pane that is gone are dropped.
    pub open spec fn damaged(self, pane: PaneId, updates: Seq<RowUpdate>) -> (LiveView, Result<
        bool,
        RenderError,
    >) {
        match lookup(self.grids, pane) {
            None => (self, Ok(false)),
            Some(grid) => {
                let (next, error) = grid.damaged(updates);
                (
                    LiveView { grids: inserted(self.grids, pane, next), ..self },
                    match error {
                        Some(wrong) => Err(wrong),
                        None => Ok(true),
                    },
                )
            },
        }
    }

    /// This projection after one server message, and whether the frame changed.
    pub open spec fn applied(self, message: ServerMessage, now: Instant) -> (LiveView, Result<
        bool,
        RenderError,
    >) {
        match message {
            ServerMessage::Damage { pane, rows } => self.damaged(pane, rows@),
            ServerMessage::CursorMoved { pane, pos, shape, visible } => (
                LiveView {
                    cursors: inserted(self.cursors, pane, PaneCursor { pos, shape, visible }),
                    ..self
                },
                Ok(true),
            ),
            ServerMessage::Layout(layout) => (self.laid(layout@), Ok(true)),
            ServerMessage::Panes(infos) => (self.told_panes(infos@), Ok(true)),
            ServerMessage::Attention(states) => (self.told_states(states@, now), Ok(true)),
            ServerMessage::CopyMode(copy_mode) => (LiveView { copy_mode, ..self }, Ok(true)),
            ServerMessage::Modes { pane, modes } => (
                LiveView { modes: inserted(self.modes, pane, modes), ..self },
                Ok(false),
            ),
            ServerMessage::Tabs(tabs) => (LiveView { tabs: tabs@, ..self }, Ok(true)),
            ServerMessage::WorkspaceStatus(status) => (
                LiveView { status: Some(status@), ..self },
                Ok(self.status != Some(status@)),
            ),
            _ => (self, Ok(false)),
        }
    }

    /// The layout change a message makes legible.
    pub open spec fn transition_for(self, message: ServerMessage) -> Option<MotionKind> {
        match (self.layout, message) {
            (Some(previous), ServerMessage::Layout(next)) => if previous.panes.len()
                < next.panes@.len() {
                Some(MotionKind::Split)
            } else if previous.panes.len() > next.panes@.len() {
                Some(MotionKind::Close)
            } else if previous.focused != next.focused {
                Some(MotionKind::Focus)
            } else {
                None
            },
            _ => None,
        }
    }

    /// The focused pane's cursor in outer-terminal coordinates.
    pub open spec fn cursor(self) -> Option<Cursor> {
        match self.focused() {
            None => None,
            Some(pane) => match (lookup(self.areas, pane), lookup(self.cursors, pane)) {
                (Some(area), Some(cursor)) => if cursor.visible && cursor.pos.col < area.size.cols
                    && cursor.pos.row < area.size.rows {
                    Some(
                        Cursor {
                            pos: Point {
                                col: behind(area.x, cursor.pos.col as int),
                                row: behind(area.y, cursor.pos.row as int),
                            },
                            shape: cursor.shape,
                        },
                    )
                } else {
                    None
                },
                _ => None,
            },
        }
    }

    /// This projection once a divider is being moved.
    pub open spec fn resizing(self, divider: Divider, share: Option<u16>, source: ResizeSource, now: Instant) -> LiveView {
        LiveView {
            resize: Some(
                ResizeActivity {
                    divider,
                    share: match share {
                        Some(measured) => measured,
                        None => 50,
                    },
                    source,
                    until: if source == ResizeSource::Keyboard {
                        Some(now.plus(keyboard_resize_linger()))
                    } else {
                        None
                    },
                },
            ),
            ..self
        }
    }

    /// The divider to measure again after a message: a new layout may have
    /// changed the share that a moved one leaves.
    pub open spec fn measuring(self, message: ServerMessage) -> Option<Divider> {
        match (message, self.resize) {
            (ServerMessage::Layout(_), Some(resize)) => Some(resize.divider),
            _ => None,
        }
    }

    /// This projection once a moved divider's share was measured again.
    pub open spec fn remeasured(self, share: Option<u16>, now: Instant) -> LiveView {
        match self.resize {
            None => self,
            Some(resize) => LiveView {
                resize: match share {
                    Some(measured) => Some(
                        ResizeActivity {
                            share: measured,
                            until: if resize.source == ResizeSource::Keyboard {
                                Some(now.plus(keyboard_resize_linger()))
                            } else {
                                resize.until
                            },
                            ..resize
                        },
                    ),
                    None => None,
                },
                ..self
            },
        }
    }

    /// The session rows of a newer catalog, the attached one marked.
    pub open spec fn catalogued(self, entries: Seq<CatalogEntry>, current: Seq<u8>) -> LiveView {
        self.relisted(session_rows(entries, current))
    }

    /// This projection with other session rows, an open switcher's included.
    pub open spec fn relisted(self, rows: Seq<SessionView>) -> LiveView {
        LiveView {
            sessions: rows,
            overlay: match self.overlay {
                Some(overlay) => Some(overlay.sessions_refreshed(rows)),
                None => None,
            },
            ..self
        }
    }

    /// The launch notice after a render tick, and whether it says something
    /// else.
    pub open spec fn launch_ticked(self, now: Instant) -> (LiveView, bool) {
        match self.launch {
            None => (self, false),
            Some(notice) => if !notice.refused && now.reached(notice.until) {
                (LiveView { launch: Some(notice.settled(now)), ..self }, true)
            } else if notice.refused && now.reached(notice.until) {
                (LiveView { launch: None, ..self }, true)
            } else {
                (self, false)
            },
        }
    }

    /// Whether a moved divider stops being shown at `now`.
    pub open spec fn resize_over(self, now: Instant) -> bool {
        match self.resize {
            Some(resize) => match resize.until {
                Some(until) => now.reached(until),
                None => false,
            },
            None => false,
        }
    }
}

/// One session row of a catalog.
pub open spec fn session_row(entry: CatalogEntry, current: Seq<u8>) -> SessionView {
    SessionView {
        socket: entry.socket@,
        title: entry.summary.name@,
        tabs: entry.summary.tabs,
        panes: entry.summary.panes,
        clients: entry.summary.clients,
        attached: entry.socket@ == current,
    }
}

/// The session rows of a catalog.
pub open spec fn session_rows(entries: Seq<CatalogEntry>, current: Seq<u8>) -> Seq<SessionView> {
    entries.map_values(|entry: CatalogEntry| session_row(entry, current))
}

/// The rows of sessions at other sockets.
pub open spec fn elsewhere(rows: Seq<SessionView>, socket: Seq<u8>) -> Seq<SessionView>
    decreases rows.len(),
{
    if rows.len() == 0 {
        seq![]
    } else {
        let rest = elsewhere(rows.drop_last(), socket);
        if rows.last().socket != socket {
            rest.push(rows.last())
        } else {
            rest
        }
    }
}

// Maps by their keys.

/// Two lists of the same panes rank every pane alike.
proof fn same_ranks<V, W>(a: Seq<(PaneId, V)>, b: Seq<(PaneId, W)>, pane: PaneId)
    requires
        a.len() == b.len(),
        forall|i: int| 0 <= i < a.len() ==> (#[trigger] a[i]).0 == b[i].0,
    ensures
        rank(a, pane) == rank(b, pane),
        holds(a, pane) == holds(b, pane),
    decreases a.len(),
{
    if a.len() > 0 {
        assert(a[0].0 == b[0].0);
        let x = a.drop_first();
        let y = b.drop_first();
        assert forall|i: int| 0 <= i < x.len() implies (#[trigger] x[i]).0 == y[i].0 by {
            assert(a[i + 1].0 == b[i + 1].0);
        }
        same_ranks(x, y, pane);
        let r = rank(a, pane) as int;
        if r < a.len() {
            assert(a[r].0 == b[r].0);
        }
    }
}

/// Grids are looked up by their contents as they are looked up themselves.
pub proof fn grids_by_contents(entries: Seq<(PaneId, Grid)>, pane: PaneId)
    ensures
        rank(grid_views(entries), pane) == rank(entries, pane),
        holds(grid_views(entries), pane) == holds(entries, pane),
        lookup(grid_views(entries), pane) == match lookup(entries, pane) {
            Some(grid) => Some(grid_view(grid)),
            None => None,
        },
{
    same_ranks(grid_views(entries), entries, pane);
}

/// Inserting a grid inserts its contents.
proof fn grid_inserted(entries: Seq<(PaneId, Grid)>, pane: PaneId, grid: Grid)
    requires
        ascending(entries),
    ensures
        grid_views(inserted(entries, pane, grid)) == inserted(
            grid_views(entries),
            pane,
            grid_view(grid),
        ),
{
    grids_by_contents(entries, pane);
    crate::panes::rank_splits(entries, pane);
    assert(grid_views(inserted(entries, pane, grid)) =~= inserted(
        grid_views(entries),
        pane,
        grid_view(grid),
    ));
}

/// Whether every pane's grid has the rows and columns it says it has.
pub open spec fn grids_wf(entries: Seq<(PaneId, Grid)>) -> bool {
    forall|i: int| 0 <= i < entries.len() ==> (#[trigger] entries[i]).1.wf()
}

impl LiveState {
    /// Every map is in order, every grid is whole and of a pane that is laid
    /// out, the cursor of an open overlay is on its list, and the queue and the
    /// notices keep their rules.
    pub open spec fn wf(&self) -> bool {
        &&& self.areas.wf()
        &&& self.panes.wf()
        &&& self.attention.wf()
        &&& self.grids.wf()
        &&& self.cursors.wf()
        &&& self.modes.wf()
        &&& grids_wf(self.grids@)
        &&& grids_follow(grid_views(self.grids@), layout_view(self.layout))
        &&& self.overlay matches Some(overlay) ==> overlay.wf()
        &&& self.queue@.wf()
        &&& self.toasts@.wf()
        &&& self.toasts@.lifetime == toast_lifetime()
    }

    /// Nothing known yet but the terminal, the tabs, the prefix and the palettes.
    pub fn new(
        outer_size: Size,
        _session: SessionId,
        tabs: Vec<TabSummary>,
        prefix: String,
        theme: Theme,
        swatches: Swatches,
    ) -> (state: LiveState)
        ensures
            state.wf(),
            state@ == (LiveView {
                outer_size,
                tabs: tabs@,
                status: None,
                layout: None,
                areas: seq![],
                panes: seq![],
                attention: seq![],
                grids: seq![],
                cursors: seq![],
                modes: seq![],
                copy_mode: None,
                overlay: None,
                queue: nothing_waiting(),
                toasts: DeckView {
                    toasts: seq![],
                    capacity: TOAST_CAPACITY as nat,
                    lifetime: toast_lifetime(),
                    settings: MotionSettings::animated(),
                },
                screen: screen_of(outer_size, None, seq![]),
                prefix: prefix@,
                prefix_pending: false,
                profiles: seq![],
                sessions: seq![],
                launch: None,
                visual: VisualConfig::defaults(),
                theme,
                swatches,
                caps: TermCaps::none(),
                config_revision: 0,
                resize: None,
                clock: None,
                repository: None,
                repository_target: None,
            }),
    {
        let state = LiveState {
            outer_size,
            tabs,
            status: None,
            layout: None,
            areas: PaneMap::new(),
            panes: PaneMap::new(),
            attention: PaneMap::new(),
            grids: PaneMap::new(),
            cursors: PaneMap::new(),
            modes: PaneMap::new(),
            copy_mode: None,
            overlay: None,
            queue: AttentionQueue::new(),
            toasts: ToastDeck::new(TOAST_CAPACITY),
            screen: ScreenLayout::new(outer_size).tab_row(0).status_row(
                outer_size.rows.saturating_sub(1),
            ),
            prefix,
            prefix_pending: false,
            profiles: Vec::new(),
            sessions: Vec::new(),
            launch: None,
            visual: VisualConfig::defaults(),
            theme,
            swatches,
            caps: TermCaps::none(),
            config_revision: 0,
            resize: None,
            local_status: ClientStatus { clock: None, repository: None },
            repository_target: None,
        };
        assert(state@.grids =~= seq![]);
        assert(state@.sessions =~= seq![]);
        assert(state@.screen =~= screen_of(outer_size, None, seq![]));
        proof {
            reveal(grids_follow);
        }
        state
    }

    /// Supplies this client's resolved preferences, with the palette they name
    /// and every named palette, as this terminal can show them.
    pub fn preferences(self, caps: TermCaps, visual: VisualConfig, theme: Theme, swatches: Swatches) -> (state:
        LiveState)
        requires
            self.wf(),
        ensures
            state.wf(),
            state@ == (LiveView {
                caps,
                visual,
                theme,
                swatches,
                toasts: DeckView {
                    toasts: seq![],
                    capacity: TOAST_CAPACITY as nat,
                    lifetime: toast_lifetime(),
                    settings: MotionSettings::from_visual(visual),
                },
                ..self@
            }),
    {
        let mut state = self;
        state.caps = caps;
        state.visual = visual;
        state.theme = theme;
        state.swatches = swatches;
        state.toasts = ToastDeck::new(TOAST_CAPACITY).motion(MotionSettings::from_visual(visual));
        state
    }

    /// Supplies the profiles the launcher offers.
    pub fn profiles(self, profiles: Vec<Profile>) -> (state: LiveState)
        requires
            self.wf(),
        ensures
            state.wf(),
            state@ == (LiveView { profiles: profiles@, ..self@ }),
    {
        let mut state = self;
        state.profiles = profiles;
        state
    }

    /// Whether a reload notification is newer than the one already observed.
    pub fn needs_reload(&self, revision: u64) -> (newer: bool)
        ensures
            newer == (revision > self@.config_revision),
    {
        revision > self.config_revision
    }

    /// Applies one reload revision to this client's appearance.
    ///
    /// The caller supplies the replacement and the palette it names, or `None`
    /// where its own configuration did not validate. The revision is observed
    /// either way, so a duplicate notification applies nothing.
    pub fn reload_visual(&mut self, revision: u64, replacement: Option<(VisualConfig, Theme)>) -> (changed:
        bool)
        requires
            old(self).wf(),
        ensures
            final(self).wf(),
            (final(self)@, changed) == old(self)@.reloaded(revision, replacement),
    {
        if !self.needs_reload(revision) {
            return false;
        }
        self.config_revision = revision;
        let (visual, theme) = match replacement {
            Some(pair) => pair,
            None => {
                return false;
            },
        };
        if visual == self.visual {
            return false;
        }
        self.theme = theme;
        self.visual = visual;
        self.toasts.set_motion(MotionSettings::from_visual(visual));
        let preview = ConfigPreview::new(visual, self.prefix.as_str(), self.swatches);
        match &mut self.overlay {
            Some(overlay) => {
                overlay.refresh_config(preview);
            },
            None => {},
        }
        true
    }

    /// The single motion answer derived from the live preferences.
    pub fn motion_settings(&self) -> (settings: MotionSettings)
        ensures
            settings == MotionSettings::from_visual(self@.visual),
    {
        MotionSettings::from_visual(self.visual)
    }

    /// Theme and focus treatment for the frame about to be composed.
    pub fn chrome_options(&self) -> (options: ChromeOptions)
        ensures
            options == (ChromeOptions {
                dim_unfocused: self@.visual.dim_unfocused,
                theme: self@.theme,
            }),
    {
        ChromeOptions { dim_unfocused: self.visual.dim_unfocused, theme: self.theme }
    }

    /// The status row's prefix field for the frame about to be drawn: clues
    /// while there is one pane, and whenever a prefix is pending.
    pub fn prefix_hint(&self) -> (hint: PrefixHint)
        ensures
            hint.prefix@ == self@.prefix,
            hint.guide == (self@.areas.len() <= 1),
            hint.pending == self@.prefix_pending,
    {
        PrefixHint::for_panes(self.prefix.as_str(), self.areas.len()).pending(self.prefix_pending)
    }

    /// Rebuilds client-owned areas from the server's resolved layout.
    pub fn set_layout(&mut self, layout: LayoutSnapshot)
        requires
            old(self).wf(),
        ensures
            final(self).wf(),
            final(self)@ == old(self)@.laid(layout@),
    {
        let mut areas: PaneMap<PaneArea> = PaneMap::new();
        let mut live: PaneMap<Grid> = PaneMap::new();
        let ghost rects = layout.panes@;
        let ghost grids = grid_views(self.grids@);
        assert(rects.take(0) =~= Seq::<PaneRect>::empty());
        assert(grid_views(live@) =~= laid_grids(grids, rects.take(0)));
        for i in 0..layout.panes.len()
            invariant
                rects == layout.panes@,
                self.grids.wf(),
                grids_wf(self.grids@),
                *self == (LiveState { grids: self.grids, ..*old(self) }),
                areas.wf(),
                areas@ == laid_areas(rects.take(i as int)),
                live.wf(),
                grids_wf(live@),
                grid_views(live@) == laid_grids(grids, rects.take(i as int)),
                grids == grid_views(old(self).grids@),
                forall|pane: PaneId| #[trigger]
                    lookup(self.grids@, pane) == if placed_in(rects.take(i as int), pane) {
                        None
                    } else {
                        lookup(old(self).grids@, pane)
                    },
        {
            let rect = layout.panes[i];
            let ghost earlier = rects.take(i as int);
            let ghost upto = rects.take(i + 1);
            let ghost left = self.grids@;
            let ghost drawn = live@;
            assert(upto.drop_last() =~= earlier);
            assert(upto.last() == rect);
            areas.insert(
                rect.pane,
                PaneArea::new(rect.pane, rect.x, rect.y.saturating_add(1), rect.size),
            );
            let grid = match self.grids.remove(rect.pane) {
                Some(kept) => {
                    assert(kept.wf()) by {
                        assert(left[rank(left, rect.pane) as int].1 == kept);
                    }
                    if kept.size().cols == rect.size.cols && kept.size().rows == rect.size.rows {
                        kept
                    } else {
                        Grid::new(rect.size)
                    }
                },
                None => Grid::new(rect.size),
            };
            proof {
                grids_by_contents(old(self).grids@, rect.pane);
                assert(lookup(left, rect.pane) == if placed_in(earlier, rect.pane) {
                    None
                } else {
                    lookup(old(self).grids@, rect.pane)
                });
                assert(grid_view(grid) == laid_grid(grids, earlier, rect));
                grid_inserted(drawn, rect.pane, grid);
                inserting(drawn, rect.pane, grid, rect.pane);
                assert forall|pane: PaneId| #[trigger]
                    lookup(self.grids@, pane) == if placed_in(upto, pane) {
                        None
                    } else {
                        lookup(old(self).grids@, pane)
                    } by {
                    removing(left, rect.pane, pane);
                    if placed_in(upto, pane) {
                        let k = choose|k: int| 0 <= k < upto.len() && upto[k].pane == pane;
                        if k < i {
                            assert(earlier[k].pane == pane);
                        }
                    }
                    if placed_in(earlier, pane) {
                        let k = choose|k: int| 0 <= k < earlier.len() && earlier[k].pane == pane;
                        assert(upto[k].pane == pane);
                    }
                    if pane == rect.pane {
                        assert(upto[i as int].pane == pane);
                    }
                }
                assert(grids_wf(self.grids@)) by {
                    assert forall|k: int| 0 <= k < self.grids@.len() implies (
                    #[trigger] self.grids@[k]).1.wf() by {
                        let r = rank(left, rect.pane) as int;
                        if holds(left, rect.pane) && k >= r {
                            assert(self.grids@[k] == left[k + 1]);
                        } else {
                            assert(self.grids@[k] == left[k]);
                        }
                    }
                }
            }
            live.insert(rect.pane, grid);
            assert(grids_wf(live@)) by {
                crate::panes::rank_splits(drawn, rect.pane);
                assert forall|k: int| 0 <= k < live@.len() implies (#[trigger] live@[k]).1.wf() by {
                    let r = rank(drawn, rect.pane) as int;
                    if holds(drawn, rect.pane) {
                        if k != r {
                            assert(live@[k] == drawn[k]);
                        }
                    } else if k < r {
                        assert(live@[k] == drawn[k]);
                    } else if k > r {
                        assert(live@[k] == drawn[k - 1]);
                    }
                }
            }
        }
        assert(rects.take(rects.len() as int) =~= rects);
        self.grids = live;
        self.cursors.retain_in(&areas);
        self.modes.retain_in(&areas);
        let mut screen = ScreenLayout::new(self.outer_size).tab_row(0).status_row(
            self.outer_size.rows.saturating_sub(1),
        ).focus(layout.focused);
        let ghost all = areas@.map_values(|entry: (PaneId, PaneArea)| entry.1);
        assert(screen.panes@ =~= all.take(0));
        let list = areas.entries();
        for i in 0..list.len()
            invariant
                list@.len() == areas@.len(),
                forall|k: int| 0 <= k < list@.len() ==> *(#[trigger] list@[k]).1 == areas@[k].1,
                all == areas@.map_values(|entry: (PaneId, PaneArea)| entry.1),
                screen.size == self.outer_size,
                screen.tab_row == Some(0u16),
                screen.status_row == Some(before(self.outer_size.rows)),
                screen.focused == layout.focused,
                screen.panes@ == all.take(i as int),
        {
            assert(all.take(i + 1) =~= all.take(i as int).push(all[i as int]));
            screen = screen.pane(*list[i].1);
        }
        assert(all.take(all.len() as int) =~= all);
        self.areas = areas;
        self.screen = screen;
        self.layout = Some(layout);
        proof {
            laid_grids_follow(grids, layout@);
        }
        assert(self@ =~= old(self)@.laid(layout@));
    }

    /// Changes the outer frame without pretending the session geometry changed.
    pub fn set_outer_size(&mut self, outer_size: Size)
        requires
            old(self).wf(),
        ensures
            final(self).wf(),
            final(self)@ == old(self)@.resized(outer_size),
    {
        self.outer_size = outer_size;
        let layout = match &self.layout {
            Some(layout) => Some(layout.clone()),
            None => None,
        };
        match layout {
            Some(again) => {
                self.set_layout(again);
            },
            None => {
                self.screen = ScreenLayout::new(outer_size).tab_row(0).status_row(
                    outer_size.rows.saturating_sub(1),
                );
                assert(self@.screen =~= screen_of(outer_size, None, seq![]));
                assert(self@ =~= old(self)@.resized(outer_size));
            },
        }
    }

    /// The layout change a freshly received message makes legible. Damage,
    /// attention and copy state never start motion.
    pub fn transition_for(&self, message: &ServerMessage) -> (kind: Option<MotionKind>)
        ensures
            kind == self@.transition_for(*message),
    {
        match (&self.layout, message) {
            (Some(previous), ServerMessage::Layout(next)) => {
                if previous.panes.len() < next.panes.len() {
                    Some(MotionKind::Split)
                } else if previous.panes.len() > next.panes.len() {
                    Some(MotionKind::Close)
                } else if previous.focused != next.focused {
                    Some(MotionKind::Focus)
                } else {
                    None
                }
            },
            _ => None,
        }
    }

    /// The focused pane.
    fn focused(&self) -> (pane: Option<PaneId>)
        ensures
            pane == self@.focused(),
    {
        match &self.layout {
            Some(layout) => layout.focused,
            None => None,
        }
    }

    /// The pane modes that decide whether a mouse report belongs to the app.
    pub fn focused_modes(&self) -> (modes: PaneModes)
        ensures
            modes == self@.focused_modes(),
    {
        match self.focused() {
            Some(pane) => match self.modes.get(pane) {
                Some(modes) => *modes,
                None => PaneModes::none(),
            },
            None => PaneModes::none(),
        }
    }

    /// The focused pane's cursor, in outer-terminal coordinates.
    pub fn cursor(&self) -> (cursor: Option<Cursor>)
        ensures
            cursor == self@.cursor(),
    {
        let pane = match self.focused() {
            Some(pane) => pane,
            None => {
                return None;
            },
        };
        match (self.areas.get(pane), self.cursors.get(pane)) {
            (Some(area), Some(cursor)) => {
                if !cursor.visible || cursor.pos.col >= area.size.cols || cursor.pos.row
                    >= area.size.rows {
                    return None;
                }
                Some(
                    Cursor::new(
                        Point::new(
                            area.x.saturating_add(cursor.pos.col),
                            area.y.saturating_add(cursor.pos.row),
                        ),
                        cursor.shape,
                    ),
                )
            },
            _ => None,
        }
    }

    /// The queue's rows paired with the panes they name.
    pub fn attention_entries(&self) -> (rows: Vec<AttentionEntry>)
        ensures
            waiting_views(rows@) == named_rows(self@.panes, self@.queue.entries),
    {
        let entries = self.queue.entries();
        let list = self.panes.entries();
        let ghost views = self.queue@.entries;
        let mut rows: Vec<AttentionEntry> = Vec::new();
        assert(waiting_views(rows@) =~= named_rows(self.panes@, views.take(0)));
        for i in 0..entries.len()
            invariant
                views == self.queue@.entries,
                list@.len() == self.panes@.len(),
                forall|k: int|
                    0 <= k < list@.len() ==> *(#[trigger] list@[k]).1 == self.panes@[k].1,
                crate::attention::entry_views(entries@) == views,
                waiting_views(rows@) == named_rows(self.panes@, views.take(i as int)),
        {
            assert(views.take(i + 1).drop_last() =~= views.take(i as int));
            assert(views[i as int] == entries@[i as int]@);
            let index: usize = entries[i].index as usize;
            if 1 <= index && index <= list.len() {
                let ghost before = waiting_views(rows@);
                let row = AttentionEntry::new(list[index - 1].1.pane, &entries[i]);
                rows.push(row);
                assert(waiting_views(rows@) =~= before.push(row@));
            }
        }
        assert(views.take(entries@.len() as int) =~= views);
        rows
    }

    /// Draws the attention queue from the complete server projection, and
    /// refreshes an open queue surface from the same pass.
    fn rebuild_queue(&mut self)
        requires
            old(self).wf(),
        ensures
            final(self).wf(),
            final(self)@ == old(self)@.requeued(),
    {
        let mut queue = AttentionQueue::new();
        let ghost panes = self.panes@;
        let ghost states = self.attention@;
        let list = self.panes.entries();
        for i in 0..list.len()
            invariant
                list@.len() == self.panes@.len(),
                forall|k: int|
                    0 <= k < list@.len() ==> *(#[trigger] list@[k]).1 == self.panes@[k].1,
                *self == *old(self),
                self.attention.wf(),
                panes == self.panes@,
                states == self.attention@,
                queue@.wf(),
                queue@ == queue_of(panes, states, i as nat),
        {
            let info = list[i].1;
            match self.attention.get(info.pane) {
                Some(state) => {
                    if !state.acknowledged {
                        queue.record(place_of(i), info.name.as_str(), attention(state.state));
                    }
                },
                None => {},
            }
        }
        self.queue = queue;
        let rows = self.attention_entries();
        match &mut self.overlay {
            Some(overlay) => {
                overlay.refresh_attention(rows);
            },
            None => {},
        }
        let count: u16 = if self.panes.len() <= u16::MAX as usize {
            self.panes.len() as u16
        } else {
            u16::MAX
        };
        self.toasts.retain_within(count);
        assert(self@ =~= old(self)@.requeued());
    }

    /// Raises a toast for each pane whose actionable state is new.
    ///
    /// The wire carries state, not events, so the event is the difference
    /// between the projection about to be cached and the one already held.
    fn raise_toasts(&mut self, next: &PaneMap<PaneAttention>, now: Instant)
        requires
            old(self).wf(),
            next.wf(),
            now.nanos + toast_lifetime().nanos <= u64::MAX,
        ensures
            final(self).wf(),
            final(self)@ == (LiveView {
                toasts: noticed(
                    old(self)@.toasts,
                    old(self)@.panes,
                    old(self)@.attention,
                    next@,
                    now,
                    old(self)@.panes.len(),
                ),
                ..old(self)@
            }),
    {
        let list = self.panes.entries();
        for i in 0..list.len()
            invariant
                list@.len() == self.panes@.len(),
                forall|k: int|
                    0 <= k < list@.len() ==> *(#[trigger] list@[k]).1 == self.panes@[k].1,
                self.wf(),
                next.wf(),
                now.nanos + toast_lifetime().nanos <= u64::MAX,
                *self == (LiveState { toasts: self.toasts, ..*old(self) }),
                self.toasts@ == noticed(
                    old(self)@.toasts,
                    old(self)@.panes,
                    old(self)@.attention,
                    next@,
                    now,
                    i as nat,
                ),
        {
            let info = list[i].1;
            let index = place_of(i);
            let ghost deck = self.toasts@;
            match next.get(info.pane) {
                None => {
                    self.toasts.dismiss(index);
                },
                Some(state) => {
                    if state.acknowledged {
                        self.toasts.dismiss(index);
                    } else {
                        let fresh = match self.attention.get(info.pane) {
                            Some(previous) => previous.acknowledged || previous.state
                                != state.state,
                            None => true,
                        };
                        if attention(state.state).is_actionable() && fresh {
                            let name = info.name.clone();
                            self.toasts.push(index, name.as_str(), attention(state.state), now);
                        }
                    }
                },
            }
        }
    }

    /// Applies one server clock tick and reports whether it changes the frame.
    pub fn apply_at(&mut self, message: ServerMessage, now: Instant) -> (result: Result<
        bool,
        RenderError,
    >)
        requires
            old(self).wf(),
            now.nanos + toast_lifetime().nanos <= u64::MAX,
        ensures
            final(self).wf(),
            (final(self)@, result) == old(self)@.applied(message, now),
    {
        match message {
            ServerMessage::Damage { pane, rows } => self.damage(pane, rows),
            ServerMessage::CursorMoved { pane, pos, shape, visible } => {
                self.cursors.insert(pane, PaneCursor { pos, shape, visible });
                Ok(true)
            },
            ServerMessage::Layout(layout) => {
                self.set_layout(layout);
                Ok(true)
            },
            ServerMessage::Panes(infos) => {
                self.tell_panes(infos);
                Ok(true)
            },
            ServerMessage::Attention(states) => {
                self.tell_states(states, now);
                Ok(true)
            },
            ServerMessage::CopyMode(copy_mode) => {
                self.copy_mode = copy_mode;
                Ok(true)
            },
            ServerMessage::Modes { pane, modes } => {
                self.modes.insert(pane, modes);
                Ok(false)
            },
            ServerMessage::Tabs(tabs) => {
                self.tabs = tabs;
                Ok(true)
            },
            ServerMessage::WorkspaceStatus(status) => {
                let same = match &self.status {
                    Some(known) => {
                        let same = same_text(known.name.as_str(), status.name.as_str())
                            && known.clients == status.clients && known.effective_size
                            == status.effective_size;
                        assert(same ==> known@ =~= status@);
                        same
                    },
                    None => false,
                };
                if same {
                    return Ok(false);
                }
                self.status = Some(status);
                Ok(true)
            },
            _ => Ok(false),
        }
    }

    /// Replaces rows of one pane's grid.
    fn damage(&mut self, pane: PaneId, updates: Vec<RowUpdate>) -> (result: Result<
        bool,
        RenderError,
    >)
        requires
            old(self).wf(),
        ensures
            final(self).wf(),
            (final(self)@, result) == old(self)@.damaged(pane, updates@),
    {
        let ghost start = self.grids@;
        proof {
            grids_by_contents(start, pane);
        }
        let mut grid = match self.grids.remove(pane) {
            Some(grid) => grid,
            None => {
                return Ok(false);
            },
        };
        let ghost r = rank(start, pane) as int;
        let ghost first = grid_view(grid);
        let ghost whole = first.damaged(updates@);
        assert(start[r] == (pane, grid));
        assert(updates@.skip(0) =~= updates@);
        let mut wrong: Option<RenderError> = None;
        let mut i: usize = 0;
        let mut stopped = false;
        while i < updates.len() && !stopped
            invariant
                i <= updates@.len(),
                grid.wf(),
                !stopped ==> wrong is None && whole == grid_view(grid).damaged(
                    updates@.skip(i as int),
                ),
                stopped ==> wrong is Some && whole == (grid_view(grid), wrong),
            decreases updates@.len() - i + (if stopped { 0int } else { 1int }),
        {
            let ghost before = grid_view(grid);
            let ghost rest = updates@.skip(i as int);
            assert(rest[0] == updates@[i as int]);
            assert(rest.drop_first() =~= updates@.skip(i + 1));
            match grid.apply(&updates[i]) {
                Ok(()) => {
                    assert(before.patched(updates@[i as int]) == Ok::<GridView, RenderError>(
                        grid_view(grid),
                    ));
                    i = i + 1;
                },
                Err(error) => {
                    assert(grid_view(grid) =~= before);
                    assert(before.patched(updates@[i as int]) == Err::<GridView, RenderError>(
                        error,
                    ));
                    wrong = Some(error);
                    stopped = true;
                },
            }
        }
        let ghost without = self.grids@;
        proof {
            removing(start, pane, pane);
            crate::panes::rank_splits(start, pane);
            if !stopped {
                assert(updates@.skip(i as int) =~= Seq::<RowUpdate>::empty());
            }
        }
        self.grids.insert(pane, grid);
        proof {
            crate::panes::putting_back(start, pane, grid);
            assert(self.grids@ == inserted(start, pane, grid));
            grid_inserted(start, pane, grid);
            drawn_grids_follow(grid_views(start), layout_view(self.layout), pane, grid_view(grid));
            assert forall|k: int| 0 <= k < self.grids@.len() implies (
            #[trigger] self.grids@[k]).1.wf() by {
                if k != r {
                    assert(self.grids@[k] == start[k]);
                }
            }
            assert(self@ =~= old(self)@.damaged(pane, updates@).0);
        }
        match wrong {
            Some(error) => Err(error),
            None => Ok(true),
        }
    }

    /// Takes on the panes the server told about.
    fn tell_panes(&mut self, infos: Vec<PaneInfo>)
        requires
            old(self).wf(),
        ensures
            final(self).wf(),
            final(self)@ == old(self)@.told_panes(infos@),
    {
        let answered = match &self.launch {
            Some(notice) => !notice.refused() && notice.arrived(infos.as_slice()),
            None => false,
        };
        assert(answered == old(self)@.launch_answered(infos@));
        if answered {
            self.launch = None;
        }
        let mut panes: PaneMap<PaneInfo> = PaneMap::new();
        assert(infos@.take(0) =~= Seq::<PaneInfo>::empty());
        for i in 0..infos.len()
            invariant
                panes.wf(),
                panes@ == pane_entries(infos@.take(i as int)),
        {
            assert(infos@.take(i + 1).drop_last() =~= infos@.take(i as int));
            panes.insert(infos[i].pane, infos[i].clone());
        }
        assert(infos@.take(infos@.len() as int) =~= infos@);
        self.panes = panes;
        let ghost told = LiveView {
            launch: if old(self)@.launch_answered(infos@) {
                None
            } else {
                old(self)@.launch
            },
            panes: pane_entries(infos@),
            ..old(self)@
        };
        assert(self@ == told);
        self.rebuild_queue();
    }

    /// Takes on the panes' states the server told about.
    fn tell_states(&mut self, states: Vec<PaneAttention>, now: Instant)
        requires
            old(self).wf(),
            now.nanos + toast_lifetime().nanos <= u64::MAX,
        ensures
            final(self).wf(),
            final(self)@ == old(self)@.told_states(states@, now),
    {
        let mut next: PaneMap<PaneAttention> = PaneMap::new();
        assert(states@.take(0) =~= Seq::<PaneAttention>::empty());
        for i in 0..states.len()
            invariant
                next.wf(),
                next@ == state_entries(states@.take(i as int)),
        {
            assert(states@.take(i + 1).drop_last() =~= states@.take(i as int));
            next.insert(states[i].pane, states[i]);
        }
        assert(states@.take(states@.len() as int) =~= states@);
        self.raise_toasts(&next, now);
        self.attention = next;
        let ghost told = LiveView {
            toasts: noticed(
                old(self)@.toasts,
                old(self)@.panes,
                old(self)@.attention,
                next@,
                now,
                old(self)@.panes.len(),
            ),
            attention: next@,
            ..old(self)@
        };
        assert(self@ == told);
        self.rebuild_queue();
    }
}

/// The position a user refers to the `i`th pane by.
fn place_of(i: usize) -> (place: u16)
    ensures
        place == position(i as nat),
{
    if i < u16::MAX as usize {
        (i + 1) as u16
    } else {
        u16::MAX
    }
}

impl LiveView {
    /// This projection after one reload revision, and whether the frame
    /// changed: a revision is observed once, and a replacement that did not
    /// validate or says nothing new changes nothing.
    pub open spec fn reloaded(self, revision: u64, replacement: Option<(VisualConfig, Theme)>) -> (
        LiveView,
        bool,
    ) {
        if revision <= self.config_revision {
            (self, false)
        } else {
            let observed = LiveView { config_revision: revision, ..self };
            match replacement {
                None => (observed, false),
                Some((visual, theme)) => if visual == self.visual {
                    (observed, false)
                } else {
                    let settings = MotionSettings::from_visual(visual);
                    (
                        LiveView {
                            visual,
                            theme,
                            toasts: DeckView {
                                settings,
                                toasts: if settings.reduce_motion {
                                    self.toasts.toasts.map_values(
                                        |toast: crate::toast::ToastView| toast.settled(),
                                    )
                                } else {
                                    self.toasts.toasts
                                },
                                ..self.toasts
                            },
                            overlay: match self.overlay {
                                Some(overlay) => Some(
                                    overlay.config_refreshed(
                                        crate::settings::config_of(
                                            visual,
                                            self.prefix,
                                            self.swatches,
                                        ),
                                    ),
                                ),
                                None => None,
                            },
                            ..observed
                        },
                        true,
                    )
                },
            }
        }
    }
}

} // verus!
