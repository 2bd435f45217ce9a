//! The plain values the client shares with a server: cells, geometry,
//! capabilities, and the identifiers panes and sessions go by.

use vstd::prelude::*;

verus! {

/// A cell colour, as a pane or chrome asked for it.
#[derive(Clone, Copy, Debug, PartialEq, Eq, Structural)]
pub enum Color {
    /// The terminal's own default.
    Default,
    /// A palette entry.
    Indexed(u8),
    /// A 24-bit colour.
    Rgb(u8, u8, u8),
}

/// The rendition attributes of one cell.
#[derive(Clone, Copy, Debug, PartialEq, Eq, Structural)]
pub struct CellAttrs {
    pub bold: bool,
    pub dim: bool,
    pub italic: bool,
    pub underline: bool,
    pub reverse: bool,
}

impl CellAttrs {
    /// No attribute at all.
    #[verifier::allow_in_spec]
    pub fn none() -> CellAttrs
        returns
            (CellAttrs { bold: false, dim: false, italic: false, underline: false, reverse: false }),
    {
        CellAttrs { bold: false, dim: false, italic: false, underline: false, reverse: false }
    }

    /// Bold alone.
    #[verifier::allow_in_spec]
    pub fn bold() -> CellAttrs
        returns
            (CellAttrs { bold: true, dim: false, italic: false, underline: false, reverse: false }),
    {
        CellAttrs { bold: true, dim: false, italic: false, underline: false, reverse: false }
    }

    /// Faint alone.
    #[verifier::allow_in_spec]
    pub fn dim() -> CellAttrs
        returns
            (CellAttrs { bold: false, dim: true, italic: false, underline: false, reverse: false }),
    {
        CellAttrs { bold: false, dim: true, italic: false, underline: false, reverse: false }
    }

    /// Underline alone.
    #[verifier::allow_in_spec]
    pub fn underline() -> CellAttrs
        returns
            (CellAttrs { bold: false, dim: false, italic: false, underline: true, reverse: false }),
    {
        CellAttrs { bold: false, dim: false, italic: false, underline: true, reverse: false }
    }

    /// Reverse video alone.
    #[verifier::allow_in_spec]
    pub fn reverse() -> CellAttrs
        returns
            (CellAttrs { bold: false, dim: false, italic: false, underline: false, reverse: true }),
    {
        CellAttrs { bold: false, dim: false, italic: false, underline: false, reverse: true }
    }

    /// Every attribute either side carries.
    #[verifier::allow_in_spec]
    pub fn union(self, other: CellAttrs) -> CellAttrs
        returns
            (CellAttrs {
                bold: self.bold || other.bold,
                dim: self.dim || other.dim,
                italic: self.italic || other.italic,
                underline: self.underline || other.underline,
                reverse: self.reverse || other.reverse,
            }),
    {
        CellAttrs {
            bold: self.bold || other.bold,
            dim: self.dim || other.dim,
            italic: self.italic || other.italic,
            underline: self.underline || other.underline,
            reverse: self.reverse || other.reverse,
        }
    }

    /// Whether every attribute of `other` is set here.
    #[verifier::allow_in_spec]
    pub fn contains(self, other: CellAttrs) -> bool
        returns
            ((other.bold ==> self.bold) && (other.dim ==> self.dim) && (other.italic
                ==> self.italic) && (other.underline ==> self.underline) && (other.reverse
                ==> self.reverse)),
    {
        (!other.bold || self.bold) && (!other.dim || self.dim) && (!other.italic || self.italic)
            && (!other.underline || self.underline) && (!other.reverse || self.reverse)
    }
}

/// One character cell.
#[derive(Clone, Copy, Debug, PartialEq, Eq, Structural)]
pub struct Cell {
    pub ch: char,
    pub fg: Color,
    pub bg: Color,
    pub attrs: CellAttrs,
}

impl Cell {
    /// A space in the terminal's own colours.
    #[verifier::allow_in_spec]
    pub fn blank() -> Cell
        returns
            (Cell { ch: ' ', fg: Color::Default, bg: Color::Default, attrs: CellAttrs::none() }),
    {
        Cell { ch: ' ', fg: Color::Default, bg: Color::Default, attrs: CellAttrs::none() }
    }
}

impl Default for Cell {
    fn default() -> (cell: Cell)
        ensures
            cell == Cell::blank(),
    {
        Cell::blank()
    }
}

/// A zero-based screen position.
#[derive(Clone, Copy, Debug, PartialEq, Eq, Hash, Structural)]
pub struct Point {
    pub col: u16,
    pub row: u16,
}

impl Point {
    #[verifier::allow_in_spec]
    pub fn new(col: u16, row: u16) -> Point
        returns
            (Point { col, row }),
    {
        Point { col, row }
    }
}

/// A width and a height in cells.
#[derive(Clone, Copy, Debug, PartialEq, Eq, Hash, Structural)]
pub struct Size {
    pub cols: u16,
    pub rows: u16,
}

impl Size {
    #[verifier::allow_in_spec]
    pub fn new(cols: u16, rows: u16) -> Size
        returns
            (Size { cols, rows }),
    {
        Size { cols, rows }
    }
}

/// What an outer terminal is known to support.
#[derive(Clone, Copy, Debug, PartialEq, Eq, Structural)]
pub struct TermCaps {
    pub truecolor: bool,
    pub bracketed_paste: bool,
    pub sgr_mouse: bool,
    pub focus_events: bool,
    pub extended_keys: bool,
    pub clipboard_osc52: bool,
    pub hyperlinks: bool,
    pub graphics: bool,
}

impl TermCaps {
    /// A terminal that claims nothing.
    #[verifier::allow_in_spec]
    pub fn none() -> TermCaps
        returns
            (TermCaps {
                truecolor: false,
                bracketed_paste: false,
                sgr_mouse: false,
                focus_events: false,
                extended_keys: false,
                clipboard_osc52: false,
                hyperlinks: false,
                graphics: false,
            }),
    {
        TermCaps {
            truecolor: false,
            bracketed_paste: false,
            sgr_mouse: false,
            focus_events: false,
            extended_keys: false,
            clipboard_osc52: false,
            hyperlinks: false,
            graphics: false,
        }
    }
}

impl Default for TermCaps {
    fn default() -> (caps: TermCaps)
        ensures
            caps == TermCaps::none(),
    {
        TermCaps::none()
    }
}

/// Names one pane of a session.
#[derive(Clone, Copy, Debug, PartialEq, Eq, Hash, Structural)]
pub struct PaneId(pub u64);

impl PaneId {
    #[verifier::allow_in_spec]
    pub fn new(id: u64) -> PaneId
        returns
            (PaneId(id)),
    {
        PaneId(id)
    }
}

/// Names one tab of a session.
#[derive(Clone, Copy, Debug, PartialEq, Eq, Hash, Structural)]
pub struct TabId(pub u64);

impl TabId {
    #[verifier::allow_in_spec]
    pub fn new(id: u64) -> TabId
        returns
            (TabId(id)),
    {
        TabId(id)
    }
}

/// Names one session of a server.
#[derive(Clone, Copy, Debug, PartialEq, Eq, Hash, Structural)]
pub struct SessionId(pub u64);

impl SessionId {
    #[verifier::allow_in_spec]
    pub fn new(id: u64) -> SessionId
        returns
            (SessionId(id)),
    {
        SessionId(id)
    }
}

/// Where a clipboard store goes.
#[derive(Clone, Copy, Debug, PartialEq, Eq, Structural)]
pub enum ClipboardTarget {
    Clipboard,
    PrimarySelection,
}

/// How far along a pane says its work is.
#[derive(Clone, Copy, Debug, PartialEq, Eq, Structural)]
pub enum ProgressState {
    Cleared,
    Indeterminate,
    Percent(u8),
}

/// A graphics request. There is nothing a client can draw yet.
#[derive(Clone, Copy, Debug, PartialEq, Eq, Structural)]
pub enum GraphicsEffect {
    Unavailable,
}

/// A pane's request to change the outer terminal.
#[derive(Clone, Debug, PartialEq, Eq)]
pub enum OuterTerminalEffect {
    SetTitle(String),
    ResetTitle,
    ClipboardStore { target: ClipboardTarget, text: String },
    Hyperlink { uri: String },
    Notification { title: String, body: String },
    Progress(ProgressState),
    Graphics(GraphicsEffect),
}

/// A mouse button.
#[derive(Clone, Copy, Debug, PartialEq, Eq, Structural)]
pub enum MouseButton {
    Left,
    Middle,
    Right,
}

/// What a mouse did.
#[derive(Clone, Copy, Debug, PartialEq, Eq, Structural)]
pub enum MouseKind {
    Press(MouseButton),
    Release(MouseButton),
    /// Moved, with the button held, if any.
    Motion(Option<MouseButton>),
    ScrollUp,
    ScrollDown,
}

/// The modifiers held during a mouse event.
#[derive(Clone, Copy, Debug, PartialEq, Eq, Structural)]
pub struct MouseMods {
    pub shift: bool,
    pub alt: bool,
    pub ctrl: bool,
}

impl MouseMods {
    #[verifier::allow_in_spec]
    pub fn none() -> MouseMods
        returns
            (MouseMods { shift: false, alt: false, ctrl: false }),
    {
        MouseMods { shift: false, alt: false, ctrl: false }
    }
}

/// How much of the mouse an application asked for.
#[derive(Clone, Copy, Debug, PartialEq, Eq, Structural)]
pub enum MouseTracking {
    Off,
    Click,
    Drag,
    Motion,
}

/// The terminal modes a pane's application has set.
#[derive(Clone, Copy, Debug, PartialEq, Eq, Structural)]
pub struct PaneModes {
    pub mouse: MouseTracking,
    pub bracketed_paste: bool,
    pub focus_events: bool,
}

impl PaneModes {
    /// An application that asked for nothing.
    #[verifier::allow_in_spec]
    pub fn none() -> PaneModes
        returns
            (PaneModes { mouse: MouseTracking::Off, bracketed_paste: false, focus_events: false }),
    {
        PaneModes { mouse: MouseTracking::Off, bracketed_paste: false, focus_events: false }
    }
}

impl Default for PaneModes {
    fn default() -> (modes: PaneModes)
        ensures
            modes == PaneModes::none(),
    {
        PaneModes::none()
    }
}

/// A mouse event addressed to a pane, in the pane's own coordinates.
#[derive(Clone, Copy, Debug, PartialEq, Eq, Structural)]
pub struct MouseEvent {
    pub pane: PaneId,
    pub at: Point,
    pub kind: MouseKind,
    pub mods: MouseMods,
}

/// The axis a split or a resize runs along.
#[derive(Clone, Copy, Debug, PartialEq, Eq, Structural)]
pub enum Direction {
    Horizontal,
    Vertical,
}

/// A command a client can ask of the server.
#[derive(Debug, PartialEq, Eq)]
pub enum Action {
    SplitVertical,
    SplitHorizontal,
    ClosePane,
    FocusLeft,
    FocusDown,
    FocusUp,
    FocusRight,
    FocusPane(PaneId),
    ToggleZoom,
    NewTab,
    NextTab,
    PrevTab,
    CloseTab,
    EnterCopyMode,
    DetachClient,
    CopySelection(ClipboardTarget),
    LaunchProfile(String),
    AcknowledgeAttention(PaneId),
    ResizePane { pane: PaneId, dir: Direction, delta: i16 },
}

impl Clone for Action {
    fn clone(&self) -> (copy: Action)
        ensures
            copy == *self,
    {
        match self {
            Action::SplitVertical => Action::SplitVertical,
            Action::SplitHorizontal => Action::SplitHorizontal,
            Action::ClosePane => Action::ClosePane,
            Action::FocusLeft => Action::FocusLeft,
            Action::FocusDown => Action::FocusDown,
            Action::FocusUp => Action::FocusUp,
            Action::FocusRight => Action::FocusRight,
            Action::FocusPane(pane) => Action::FocusPane(*pane),
            Action::ToggleZoom => Action::ToggleZoom,
            Action::NewTab => Action::NewTab,
            Action::NextTab => Action::NextTab,
            Action::PrevTab => Action::PrevTab,
            Action::CloseTab => Action::CloseTab,
            Action::EnterCopyMode => Action::EnterCopyMode,
            Action::DetachClient => Action::DetachClient,
            Action::CopySelection(target) => Action::CopySelection(*target),
            Action::LaunchProfile(profile) => Action::LaunchProfile(profile.clone()),
            Action::AcknowledgeAttention(pane) => Action::AcknowledgeAttention(*pane),
            Action::ResizePane { pane, dir, delta } => Action::ResizePane {
                pane: *pane,
                dir: *dir,
                delta: *delta,
            },
        }
    }
}

impl Action {
    /// Whether the action carries nothing but its name.
    pub open spec fn is_plain(self) -> bool {
        match self {
            Action::SplitVertical => true,
            Action::SplitHorizontal => true,
            Action::ClosePane => true,
            Action::FocusLeft => true,
            Action::FocusDown => true,
            Action::FocusUp => true,
            Action::FocusRight => true,
            Action::ToggleZoom => true,
            Action::NewTab => true,
            Action::NextTab => true,
            Action::PrevTab => true,
            Action::CloseTab => true,
            Action::EnterCopyMode => true,
            Action::DetachClient => true,
            _ => false,
        }
    }

    /// Whether this is the same action as one that carries nothing.
    pub fn is_action(&self, other: &Action) -> (same: bool)
        requires
            other.is_plain(),
        ensures
            same == (*self == *other),
    {
        match (self, other) {
            (Action::SplitVertical, Action::SplitVertical) => true,
            (Action::SplitHorizontal, Action::SplitHorizontal) => true,
            (Action::ClosePane, Action::ClosePane) => true,
            (Action::FocusLeft, Action::FocusLeft) => true,
            (Action::FocusDown, Action::FocusDown) => true,
            (Action::FocusUp, Action::FocusUp) => true,
            (Action::FocusRight, Action::FocusRight) => true,
            (Action::ToggleZoom, Action::ToggleZoom) => true,
            (Action::NewTab, Action::NewTab) => true,
            (Action::NextTab, Action::NextTab) => true,
            (Action::PrevTab, Action::PrevTab) => true,
            (Action::CloseTab, Action::CloseTab) => true,
            (Action::EnterCopyMode, Action::EnterCopyMode) => true,
            (Action::DetachClient, Action::DetachClient) => true,
            _ => false,
        }
    }
}

/// One row of a pane's grid, as the server sent it.
#[derive(Debug, PartialEq, Eq)]
pub struct RowUpdate {
    pub row: u16,
    pub cells: Vec<Cell>,
}

/// A position in retained scrollback.
#[derive(Clone, Copy, Debug, PartialEq, Eq, Structural)]
pub struct ScrollPoint {
    pub line: u32,
    pub column: u16,
}

impl ScrollPoint {
    #[verifier::allow_in_spec]
    pub fn new(line: u32, column: u16) -> ScrollPoint
        returns
            (ScrollPoint { line, column }),
    {
        ScrollPoint { line, column }
    }

    /// Whether this position comes no later than `other`.
    #[verifier::allow_in_spec]
    pub fn at_or_before(self, other: ScrollPoint) -> bool
        returns
            (self.line < other.line || (self.line == other.line && self.column <= other.column)),
    {
        self.line < other.line || (self.line == other.line && self.column <= other.column)
    }
}

/// The two ends of a live selection, in the order they were set.
#[derive(Clone, Copy, Debug, PartialEq, Eq, Structural)]
pub struct CopySelection {
    pub anchor: ScrollPoint,
    pub head: ScrollPoint,
}

/// One search result; `end` is the first position past it.
#[derive(Clone, Copy, Debug, PartialEq, Eq, Structural)]
pub struct SearchMatch {
    pub start: ScrollPoint,
    pub end: ScrollPoint,
}

/// Copy mode, as the server describes it.
#[derive(Debug, PartialEq, Eq)]
pub struct CopyModeState {
    pub pane: PaneId,
    /// The scrollback line the pane's first visible row shows.
    pub viewport_top: u32,
    pub cursor: ScrollPoint,
    pub selection: Option<CopySelection>,
    pub query: Option<String>,
    pub matches: Vec<SearchMatch>,
}

/// What a client sends a server.
#[derive(Debug, PartialEq, Eq)]
pub enum ClientMessage {
    Attach {
        protocol_version: u16,
        size: Size,
        term_caps: TermCaps,
        session: Option<SessionId>,
    },
    InspectSession { protocol_version: u16 },
    Input(Vec<u8>),
    Paste(Vec<u8>),
    Focus { focused: bool },
    Mouse(MouseEvent),
    Resize(Size),
    Command(Action),
    Detach,
}

/// A client's message by its contents. A launch is told apart from the other
/// commands, because it is the one that carries text.
#[verifier::ext_equal]
pub enum ClientMessageView {
    Attach {
        protocol_version: u16,
        size: Size,
        term_caps: TermCaps,
        session: Option<SessionId>,
    },
    InspectSession { protocol_version: u16 },
    Input(Seq<u8>),
    Paste(Seq<u8>),
    Focus { focused: bool },
    Mouse(MouseEvent),
    Resize(Size),
    Launch(Seq<char>),
    Command(Action),
    Detach,
}

/// A command by its contents.
pub open spec fn command_message(action: Action) -> ClientMessageView {
    match action {
        Action::LaunchProfile(profile) => ClientMessageView::Launch(profile@),
        _ => ClientMessageView::Command(action),
    }
}

impl View for ClientMessage {
    type V = ClientMessageView;

    open spec fn view(&self) -> ClientMessageView {
        match self {
            ClientMessage::Attach { protocol_version, size, term_caps, session } => {
                ClientMessageView::Attach {
                    protocol_version: *protocol_version,
                    size: *size,
                    term_caps: *term_caps,
                    session: *session,
                }
            },
            ClientMessage::InspectSession { protocol_version } => {
                ClientMessageView::InspectSession { protocol_version: *protocol_version }
            },
            ClientMessage::Input(bytes) => ClientMessageView::Input(bytes@),
            ClientMessage::Paste(bytes) => ClientMessageView::Paste(bytes@),
            ClientMessage::Focus { focused } => ClientMessageView::Focus { focused: *focused },
            ClientMessage::Mouse(event) => ClientMessageView::Mouse(*event),
            ClientMessage::Resize(size) => ClientMessageView::Resize(*size),
            ClientMessage::Command(action) => command_message(*action),
            ClientMessage::Detach => ClientMessageView::Detach,
        }
    }
}

/// Messages by their contents.
pub open spec fn message_views(messages: Seq<ClientMessage>) -> Seq<ClientMessageView> {
    messages.map_values(|message: ClientMessage| message@)
}

/// One tab of a session, in the order the tab bar shows them.
#[derive(Debug, PartialEq, Eq)]
pub struct TabSummary {
    pub tab: TabId,
    pub title: String,
    pub active: bool,
}

impl Clone for TabSummary {
    fn clone(&self) -> (copy: TabSummary)
        ensures
            copy == *self,
    {
        TabSummary { tab: self.tab, title: self.title.clone(), active: self.active }
    }
}

/// What a server says about one pane.
#[derive(Debug, PartialEq, Eq)]
pub struct PaneInfo {
    pub pane: PaneId,
    /// The profile it was launched from.
    pub profile: String,
    /// Its user-visible name.
    pub name: String,
    /// What the user said it is for, if they said.
    pub task: Option<String>,
    /// The absolute directory its child was launched in.
    pub cwd: String,
}

/// `text` again.
pub fn copy_optional(text: &Option<String>) -> (copy: Option<String>)
    ensures
        copy == *text,
{
    match text {
        Some(inner) => Some(inner.clone()),
        None => None,
    }
}

impl Clone for PaneInfo {
    fn clone(&self) -> (copy: PaneInfo)
        ensures
            copy == *self,
    {
        PaneInfo {
            pane: self.pane,
            profile: self.profile.clone(),
            name: self.name.clone(),
            task: copy_optional(&self.task),
            cwd: self.cwd.clone(),
        }
    }
}

/// What a server says about its whole session.
#[derive(Debug, PartialEq, Eq)]
pub struct SessionSummary {
    pub name: String,
    pub tabs: u16,
    pub panes: u16,
    pub clients: u16,
    pub uptime_secs: u64,
}

impl Clone for SessionSummary {
    fn clone(&self) -> (copy: SessionSummary)
        ensures
            copy == *self,
    {
        SessionSummary {
            name: self.name.clone(),
            tabs: self.tabs,
            panes: self.panes,
            clients: self.clients,
            uptime_secs: self.uptime_secs,
        }
    }
}

/// A workspace state a pane reported, as the server tells it.
#[derive(Clone, Copy, Debug, PartialEq, Eq, Structural)]
pub enum AttentionState {
    Unknown,
    Working,
    NeedsInput,
    Ready,
    Failed,
    Quiet,
}

/// One pane's state, and whether someone has acknowledged it.
#[derive(Clone, Copy, Debug, PartialEq, Eq, Structural)]
pub struct PaneAttention {
    pub pane: PaneId,
    pub state: AttentionState,
    pub acknowledged: bool,
}

/// How a cursor is drawn.
#[derive(Clone, Copy, Debug, PartialEq, Eq, Structural)]
pub enum CursorShape {
    Block,
    Underline,
    Bar,
}

/// Where one pane's grid stands in the session.
#[derive(Clone, Copy, Debug, PartialEq, Eq, Structural)]
pub struct PaneRect {
    pub pane: PaneId,
    pub x: u16,
    pub y: u16,
    pub size: Size,
}

/// One tab's resolved geometry.
#[derive(Debug, PartialEq, Eq)]
pub struct LayoutSnapshot {
    pub tab: TabId,
    pub panes: Vec<PaneRect>,
    pub focused: Option<PaneId>,
    pub zoomed: Option<PaneId>,
}

/// A layout by its contents.
#[verifier::ext_equal]
pub struct LayoutView {
    pub tab: TabId,
    pub panes: Seq<PaneRect>,
    pub focused: Option<PaneId>,
    pub zoomed: Option<PaneId>,
}

impl View for LayoutSnapshot {
    type V = LayoutView;

    open spec fn view(&self) -> LayoutView {
        LayoutView {
            tab: self.tab,
            panes: self.panes@,
            focused: self.focused,
            zoomed: self.zoomed,
        }
    }
}

impl Clone for LayoutSnapshot {
    fn clone(&self) -> (copy: LayoutSnapshot)
        ensures
            copy@ == self@,
    {
        let mut panes: Vec<PaneRect> = Vec::new();
        for i in 0..self.panes.len()
            invariant
                panes@ == self.panes@.take(i as int),
        {
            panes.push(self.panes[i]);
            assert(self.panes@.take(i + 1) =~= self.panes@.take(i as int).push(
                self.panes@[i as int],
            ));
        }
        assert(self.panes@.take(self.panes@.len() as int) =~= self.panes@);
        LayoutSnapshot { tab: self.tab, panes, focused: self.focused, zoomed: self.zoomed }
    }
}

/// What a server says about the whole attached workspace.
#[derive(Debug, PartialEq, Eq)]
pub struct WorkspaceStatus {
    pub name: String,
    pub clients: u16,
    pub effective_size: Size,
}

/// A workspace status by its contents.
#[verifier::ext_equal]
pub struct WorkspaceView {
    pub name: Seq<char>,
    pub clients: u16,
    pub effective_size: Size,
}

impl View for WorkspaceStatus {
    type V = WorkspaceView;

    open spec fn view(&self) -> WorkspaceView {
        WorkspaceView {
            name: self.name@,
            clients: self.clients,
            effective_size: self.effective_size,
        }
    }
}

impl Clone for WorkspaceStatus {
    fn clone(&self) -> (copy: WorkspaceStatus)
        ensures
            copy == *self,
    {
        WorkspaceStatus {
            name: self.name.clone(),
            clients: self.clients,
            effective_size: self.effective_size,
        }
    }
}

/// What a server sends a client.
#[derive(Debug, PartialEq, Eq)]
pub enum ServerMessage {
    Hello { protocol_version: u16, session: SessionId, tabs: Vec<TabSummary>, size: Size },
    Refused { reason: String },
    SessionSummary(SessionSummary),
    Damage { pane: PaneId, rows: Vec<RowUpdate> },
    CursorMoved { pane: PaneId, pos: Point, shape: CursorShape, visible: bool },
    Layout(LayoutSnapshot),
    Panes(Vec<PaneInfo>),
    Attention(Vec<PaneAttention>),
    CopyMode(Option<CopyModeState>),
    Modes { pane: PaneId, modes: PaneModes },
    Tabs(Vec<TabSummary>),
    WorkspaceStatus(WorkspaceStatus),
    ConfigReloaded { revision: u64 },
    Effect { pane: PaneId, effect: OuterTerminalEffect },
    Bell(PaneId),
    Detached,
    Exit(i32),
}

} // verus!
