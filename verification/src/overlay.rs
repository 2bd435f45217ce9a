//! Keyboard-first overlays: the command palette, the session switcher, the
//! profile launcher, the attention queue, pane details, and the configuration
//! surface.
//!
//! An overlay is a list, a cursor into it, and a title; what differs between
//! them is what a row says and what confirming one means. Every overlay can be
//! dismissed from every state, and an empty list confirms to nothing.

use vstd::prelude::*;

use crate::attention::{Attention, QueueEntry};
use crate::cells::{pad_to, repeated};
use crate::chrome::{dim_cell_with_theme, dimmed_cell};
use crate::commands::{palette_of, PaletteView};
use crate::keymap::Keymap;
use crate::keys::{OverlayAction, PaletteAction, QueueAction};
use crate::launch::{launchable, profile_entries, profile_views, ProfileEntryView, RequestView};
use crate::proto::{
    copy_optional, Action, Cell, CellAttrs, Color, PaneId, PaneInfo, Point, SessionSummary, Size,
};
use crate::renderer::{span_views, Span, SpanView};
use crate::rows::{
    blank_cell, field, field_views, no_field, row_blank, row_cells, row_line, row_views, Field,
    FieldView, RowSpec, RowView,
};
use crate::settings::{config_row, lines, preview_block, preview_cells, ConfigView, PREVIEW_ROWS};
use crate::text::{chars_of, decimal, decimal_chars, push_all, same_text, string_of};
use crate::theme::{Theme, ThemeToken};

pub use crate::commands::{
    ClientSurface, CommandOutcome, CommandPalette, PaletteCommand, ADD_PANE_KEY, ATTENTION_KEY,
    CONFIG_KEY, DETAILS_KEY, HELP_KEY, SESSIONS_KEY,
};
pub use crate::launch::{
    launch_deadline, launch_notice_cells, launch_notice_span, notice_linger, LaunchNotice,
    LaunchRequest, Profile, ProfileCommand, ProfileEntry,
};
pub use crate::settings::ConfigPreview;

verus! {

// Entries.

/// Where a session listens: a path, as its bytes.
#[derive(Debug, PartialEq, Eq)]
pub struct SocketPath {
    pub bytes: Vec<u8>,
}

impl View for SocketPath {
    type V = Seq<u8>;

    open spec fn view(&self) -> Seq<u8> {
        self.bytes@
    }
}

impl SocketPath {
    /// The path these bytes spell.
    pub fn new(bytes: Vec<u8>) -> (path: SocketPath)
        ensures
            path@ == bytes@,
    {
        SocketPath { bytes }
    }

    /// Whether two paths are spelled alike.
    pub fn same(&self, other: &SocketPath) -> (same: bool)
        ensures
            same == (self@ == other@),
    {
        if self.bytes.len() != other.bytes.len() {
            return false;
        }
        for i in 0..self.bytes.len()
            invariant
                self.bytes@.len() == other.bytes@.len(),
                forall|k: int| 0 <= k < i ==> self.bytes@[k] == other.bytes@[k],
        {
            if self.bytes[i] != other.bytes[i] {
                return false;
            }
        }
        assert(self.bytes@ =~= other.bytes@);
        true
    }
}

impl Clone for SocketPath {
    fn clone(&self) -> (copy: SocketPath)
        ensures
            copy@ == self@,
    {
        let mut bytes: Vec<u8> = Vec::new();
        for i in 0..self.bytes.len()
            invariant
                bytes@ == self.bytes@.take(i as int),
        {
            bytes.push(self.bytes[i]);
            assert(self.bytes@.take(i + 1) =~= self.bytes@.take(i as int).push(
                self.bytes@[i as int],
            ));
        }
        assert(self.bytes@.take(self.bytes@.len() as int) =~= self.bytes@);
        SocketPath { bytes }
    }
}

/// One session the switcher can jump to.
#[derive(Debug, PartialEq, Eq)]
pub struct SessionEntry {
    socket: SocketPath,
    title: String,
    tabs: u16,
    panes: u16,
    clients: u16,
    attached: bool,
}

/// A session row by its contents.
#[verifier::ext_equal]
pub struct SessionView {
    pub socket: Seq<u8>,
    pub title: Seq<char>,
    pub tabs: u16,
    pub panes: u16,
    pub clients: u16,
    pub attached: bool,
}

impl View for SessionEntry {
    type V = SessionView;

    closed spec fn view(&self) -> SessionView {
        SessionView {
            socket: self.socket@,
            title: self.title@,
            tabs: self.tabs,
            panes: self.panes,
            clients: self.clients,
            attached: self.attached,
        }
    }
}

/// Session rows by their contents.
pub open spec fn session_views(entries: Seq<SessionEntry>) -> Seq<SessionView> {
    entries.map_values(|entry: SessionEntry| entry@)
}

impl SessionEntry {
    /// Describes one independently inspected session for the switcher.
    pub fn new(socket: SocketPath, summary: SessionSummary) -> (entry: SessionEntry)
        ensures
            entry@ == (SessionView {
                socket: socket@,
                title: summary.name@,
                tabs: summary.tabs,
                panes: summary.panes,
                clients: summary.clients,
                attached: false,
            }),
    {
        SessionEntry {
            socket,
            title: summary.name,
            tabs: summary.tabs,
            panes: summary.panes,
            clients: summary.clients,
            attached: false,
        }
    }

    /// Marks the session this client is attached to.
    pub fn attached(self, attached: bool) -> (entry: SessionEntry)
        ensures
            entry@ == (SessionView { attached, ..self@ }),
    {
        SessionEntry {
            socket: self.socket,
            title: self.title,
            tabs: self.tabs,
            panes: self.panes,
            clients: self.clients,
            attached,
        }
    }

    /// Whether two rows say the same.
    pub fn same(&self, other: &SessionEntry) -> (same: bool)
        ensures
            same == (self@ == other@),
    {
        let same = self.socket.same(&other.socket) && same_text(
            self.title.as_str(),
            other.title.as_str(),
        ) && self.tabs == other.tabs && self.panes == other.panes && self.clients == other.clients
            && self.attached == other.attached;
        assert(same ==> self@ =~= other@);
        same
    }

    /// The verified socket confirming this row switches to.
    pub fn socket(&self) -> (socket: &SocketPath)
        ensures
            socket@ == self@.socket,
    {
        &self.socket
    }
}

impl Clone for SessionEntry {
    fn clone(&self) -> (copy: SessionEntry)
        ensures
            copy@ == self@,
    {
        SessionEntry {
            socket: self.socket.clone(),
            title: self.title.clone(),
            tabs: self.tabs,
            panes: self.panes,
            clients: self.clients,
            attached: self.attached,
        }
    }
}

/// A count with its singular or plural noun.
pub open spec fn counted(value: u16, noun: Seq<char>) -> Seq<char> {
    if value == 1 {
        decimal(value as nat).push(' ') + noun
    } else {
        decimal(value as nat).push(' ') + noun.push('s')
    }
}

fn count(value: u16, noun: &str) -> (chars: Vec<char>)
    ensures
        chars@ == counted(value, noun@),
{
    let mut chars = decimal_chars(value as u64);
    chars.push(' ');
    push_all(&mut chars, chars_of(noun).as_slice());
    if value != 1 {
        chars.push('s');
    }
    assert(chars@ =~= counted(value, noun@));
    chars
}

/// Everything the pane-details overlay shows about one pane: what the server
/// reported, and nothing it inferred.
#[derive(Debug, PartialEq, Eq)]
pub struct PaneDetails {
    pub pane: PaneId,
    pub profile: String,
    pub name: String,
    pub task: Option<String>,
    pub cwd: String,
    pub attention: Attention,
}

impl Clone for PaneDetails {
    fn clone(&self) -> (copy: PaneDetails)
        ensures
            copy == *self,
    {
        PaneDetails {
            pane: self.pane,
            profile: self.profile.clone(),
            name: self.name.clone(),
            task: copy_optional(&self.task),
            cwd: self.cwd.clone(),
            attention: self.attention,
        }
    }
}

/// A state as its glyph and its word.
pub open spec fn state_text(attention: Attention) -> Seq<char> {
    seq![attention.glyph(), ' '] + attention.words()
}

fn state_chars(attention: Attention) -> (chars: Vec<char>)
    ensures
        chars@ == state_text(attention),
{
    let mut chars: Vec<char> = Vec::new();
    chars.push(attention.glyph());
    chars.push(' ');
    push_all(&mut chars, chars_of(attention.label()).as_slice());
    assert(chars@ =~= state_text(attention));
    chars
}

/// The labelled fields of a pane, in display order: a task the user never set
/// is absent rather than blank.
pub open spec fn detail_fields(details: PaneDetails) -> Seq<(Seq<char>, Seq<char>)> {
    let head = seq![
        ("pane"@, decimal(details.pane.0 as nat)),
        ("profile"@, details.profile@),
        ("name"@, details.name@),
    ];
    let task = match details.task {
        Some(task) => seq![("task"@, task@)],
        None => seq![],
    };
    head + task + seq![("cwd"@, details.cwd@), ("state"@, state_text(details.attention))]
}

/// Labelled fields by their contents.
pub open spec fn labelled(fields: Seq<(&'static str, String)>) -> Seq<(Seq<char>, Seq<char>)> {
    fields.map_values(|part: (&'static str, String)| (part.0@, part.1@))
}

impl PaneDetails {
    /// Describes a pane from what the server reported about it.
    pub fn from_info(info: &PaneInfo, attention: Attention) -> (details: PaneDetails)
        ensures
            details == (PaneDetails {
                pane: info.pane,
                profile: info.profile,
                name: info.name,
                task: info.task,
                cwd: info.cwd,
                attention,
            }),
    {
        PaneDetails {
            pane: info.pane,
            profile: info.profile.clone(),
            name: info.name.clone(),
            task: copy_optional(&info.task),
            cwd: info.cwd.clone(),
            attention,
        }
    }

    /// The labelled fields, in display order.
    pub fn fields(&self) -> (fields: Vec<(&'static str, String)>)
        ensures
            labelled(fields@) == detail_fields(*self),
    {
        let mut fields: Vec<(&'static str, String)> = Vec::new();
        let number = string_of(decimal_chars(self.pane.0).as_slice());
        fields.push(("pane", number));
        fields.push(("profile", self.profile.clone()));
        fields.push(("name", self.name.clone()));
        match &self.task {
            Some(task) => {
                fields.push(("task", task.clone()));
            },
            None => {},
        }
        fields.push(("cwd", self.cwd.clone()));
        let state = string_of(state_chars(self.attention).as_slice());
        fields.push(("state", state));
        assert(labelled(fields@) =~= detail_fields(*self));
        fields
    }
}

/// One pane waiting on the user, as the attention overlay lists it: the pane
/// the row acts on, beside the position the user knows it by.
#[derive(Debug, PartialEq, Eq)]
pub struct AttentionEntry {
    pub pane: PaneId,
    pub index: u16,
    pub title: String,
    pub attention: Attention,
}

/// A waiting pane by its contents.
#[verifier::ext_equal]
pub struct WaitingView {
    pub pane: PaneId,
    pub index: u16,
    pub title: Seq<char>,
    pub attention: Attention,
}

impl View for AttentionEntry {
    type V = WaitingView;

    open spec fn view(&self) -> WaitingView {
        WaitingView {
            pane: self.pane,
            index: self.index,
            title: self.title@,
            attention: self.attention,
        }
    }
}

/// Waiting panes by their contents.
pub open spec fn waiting_views(entries: Seq<AttentionEntry>) -> Seq<WaitingView> {
    entries.map_values(|entry: AttentionEntry| entry@)
}

impl AttentionEntry {
    /// Pairs one queue row with the pane it names.
    pub fn new(pane: PaneId, entry: &QueueEntry) -> (made: AttentionEntry)
        ensures
            made@ == (WaitingView {
                pane,
                index: entry.index,
                title: entry.title@,
                attention: entry.attention,
            }),
    {
        AttentionEntry {
            pane,
            index: entry.index,
            title: entry.title.clone(),
            attention: entry.attention,
        }
    }
}

impl Clone for AttentionEntry {
    fn clone(&self) -> (copy: AttentionEntry)
        ensures
            copy == *self,
    {
        AttentionEntry {
            pane: self.pane,
            index: self.index,
            title: self.title.clone(),
            attention: self.attention,
        }
    }
}

// The overlay.

/// Which overlay is open, and what it holds.
#[derive(Debug, PartialEq, Eq)]
pub enum OverlayKind {
    /// The searchable command palette over the effective key bindings.
    Palette(CommandPalette),
    /// The session switcher.
    Sessions(Vec<SessionEntry>),
    /// The profile launcher.
    Launcher(Vec<ProfileEntry>),
    /// The attention queue.
    Attention(Vec<AttentionEntry>),
    /// The pane-details view.
    Details(PaneDetails),
    /// The effective configuration and its live theme preview.
    Config(ConfigPreview),
}

/// An overlay's kind by its contents.
#[verifier::ext_equal]
pub enum KindView {
    Palette(PaletteView),
    Sessions(Seq<SessionView>),
    Launcher(Seq<ProfileEntryView>),
    Attention(Seq<WaitingView>),
    Details(PaneDetails),
    Config(ConfigView),
}

impl View for OverlayKind {
    type V = KindView;

    open spec fn view(&self) -> KindView {
        match self {
            OverlayKind::Palette(palette) => KindView::Palette(palette@),
            OverlayKind::Sessions(entries) => KindView::Sessions(session_views(entries@)),
            OverlayKind::Launcher(entries) => KindView::Launcher(profile_views(entries@)),
            OverlayKind::Attention(entries) => KindView::Attention(waiting_views(entries@)),
            OverlayKind::Details(details) => KindView::Details(*details),
            OverlayKind::Config(preview) => KindView::Config(preview@),
        }
    }
}

impl OverlayKind {
    /// A palette's result set follows its query.
    pub open spec fn wf(&self) -> bool {
        match self {
            OverlayKind::Palette(palette) => palette.wf(),
            _ => true,
        }
    }
}

/// An open overlay: a list, a keyboard cursor, and what confirming means.
#[derive(Debug, PartialEq, Eq)]
pub struct Overlay {
    kind: OverlayKind,
    selected: usize,
}

/// An overlay by its contents.
#[verifier::ext_equal]
pub struct OverlayView {
    pub kind: KindView,
    pub selected: nat,
}

impl View for Overlay {
    type V = OverlayView;

    closed spec fn view(&self) -> OverlayView {
        OverlayView { kind: self.kind@, selected: self.selected as nat }
    }
}

/// What one keyboard action did to an overlay.
#[derive(Debug, PartialEq, Eq)]
pub enum OverlayOutcome {
    /// Nothing to act on; the overlay stays open.
    Open,
    /// The overlay closed without acting.
    Dismissed,
    /// Attach to this session instead.
    SwitchSession(SocketPath),
    /// Launch a pane from this profile.
    Launch(LaunchRequest),
    /// Move focus to the pane this row names.
    FocusPane(PaneId),
    /// Send this keymap action, exactly as its bound chord would have.
    RunAction(Action),
    /// Open this client-local surface in place of the palette.
    OpenSurface(ClientSurface),
    /// Mark this pane's attention state as seen; the overlay stays open.
    Acknowledge(PaneId),
}

/// An outcome by its contents.
#[verifier::ext_equal]
pub enum OutcomeView {
    Open,
    Dismissed,
    SwitchSession(Seq<u8>),
    Launch(RequestView),
    FocusPane(PaneId),
    RunAction(Action),
    OpenSurface(ClientSurface),
    Acknowledge(PaneId),
}

impl View for OverlayOutcome {
    type V = OutcomeView;

    open spec fn view(&self) -> OutcomeView {
        match self {
            OverlayOutcome::Open => OutcomeView::Open,
            OverlayOutcome::Dismissed => OutcomeView::Dismissed,
            OverlayOutcome::SwitchSession(socket) => OutcomeView::SwitchSession(socket@),
            OverlayOutcome::Launch(request) => OutcomeView::Launch(request@),
            OverlayOutcome::FocusPane(pane) => OutcomeView::FocusPane(*pane),
            OverlayOutcome::RunAction(action) => OutcomeView::RunAction(*action),
            OverlayOutcome::OpenSurface(surface) => OutcomeView::OpenSurface(*surface),
            OverlayOutcome::Acknowledge(pane) => OutcomeView::Acknowledge(*pane),
        }
    }
}

/// Where a value first stands.
pub open spec fn first_where<A>(items: Seq<A>, wanted: spec_fn(A) -> bool) -> Option<nat>
    decreases items.len(),
{
    if items.len() == 0 {
        None
    } else if wanted(items[0]) {
        Some(0)
    } else {
        match first_where(items.drop_first(), wanted) {
            Some(at) => Some(at + 1),
            None => None,
        }
    }
}

/// A cursor brought onto a list of `len` rows.
pub open spec fn within(selected: nat, len: nat) -> nat {
    if len == 0 {
        0
    } else if selected >= len {
        (len - 1) as nat
    } else {
        selected
    }
}

impl KindView {
    /// How many rows are listed: a palette counts its results.
    pub open spec fn len(self) -> nat {
        match self {
            KindView::Palette(palette) => palette.matches().len(),
            KindView::Sessions(entries) => entries.len(),
            KindView::Launcher(entries) => entries.len(),
            KindView::Attention(entries) => entries.len(),
            KindView::Details(details) => detail_fields(details).len(),
            KindView::Config(config) => config.rows.len(),
        }
    }

    /// The title.
    pub open spec fn title(self) -> Seq<char> {
        match self {
            KindView::Palette(palette) => palette.title(),
            KindView::Sessions(_) => "sessions"@,
            KindView::Launcher(_) => "launch profile"@,
            KindView::Attention(_) => "attention"@,
            KindView::Details(_) => "pane details"@,
            KindView::Config(_) => "configuration"@,
        }
    }

    /// The rows that are chrome rather than list: a title and a hint row, the
    /// palette's query line, the configuration's preview.
    pub open spec fn chrome_rows(self) -> nat {
        match self {
            KindView::Palette(_) => 3,
            KindView::Config(_) => (2 + PREVIEW_ROWS) as nat,
            _ => 2,
        }
    }

    /// The keyboard hints, dismissal first.
    pub open spec fn hints(self) -> (Seq<char>, Seq<char>, Seq<char>) {
        match self {
            KindView::Palette(_) => ("esc close"@, "enter run"@, "up/down move"@),
            KindView::Sessions(_) => ("esc close"@, "enter switch"@, "j/k move"@),
            KindView::Launcher(_) => ("esc close"@, "enter launch"@, "j/k move"@),
            KindView::Attention(_) => ("esc close"@, "enter focus"@, "a ack"@),
            KindView::Details(_) => ("esc close"@, "enter close"@, "j/k move"@),
            KindView::Config(_) => ("esc close"@, "read only"@, "j/k move"@),
        }
    }

    /// What an empty list says in place of a position: only a palette that was
    /// narrowed to nothing says anything.
    pub open spec fn empty_note(self) -> Option<Seq<char>> {
        match self {
            KindView::Palette(palette) => if palette.query.len() > 0 {
                Some("no matches"@)
            } else {
                None
            },
            _ => None,
        }
    }

    /// What confirming the row at `selected` means.
    pub open spec fn confirmed(self, selected: nat) -> OutcomeView {
        match self {
            KindView::Palette(palette) => if selected < palette.matches().len() {
                match palette.results()[selected as int].outcome {
                    CommandOutcome::Run(action) => OutcomeView::RunAction(action),
                    CommandOutcome::Open(surface) => OutcomeView::OpenSurface(surface),
                }
            } else {
                OutcomeView::Open
            },
            KindView::Sessions(entries) => if selected < entries.len() {
                OutcomeView::SwitchSession(entries[selected as int].socket)
            } else {
                OutcomeView::Open
            },
            KindView::Launcher(entries) => if selected < entries.len() {
                OutcomeView::Launch(
                    RequestView {
                        profile: entries[selected as int].profile,
                        default_name: entries[selected as int].default_name,
                    },
                )
            } else {
                OutcomeView::Open
            },
            KindView::Attention(entries) => if selected < entries.len() {
                OutcomeView::FocusPane(entries[selected as int].pane)
            } else {
                OutcomeView::Open
            },
            KindView::Details(_) => OutcomeView::Dismissed,
            KindView::Config(_) => OutcomeView::Dismissed,
        }
    }

    /// What acknowledging the row at `selected` means: only a queue has
    /// anything to acknowledge.
    pub open spec fn acknowledged(self, selected: nat) -> OutcomeView {
        match self {
            KindView::Attention(entries) => if selected < entries.len() {
                OutcomeView::Acknowledge(entries[selected as int].pane)
            } else {
                OutcomeView::Open
            },
            _ => OutcomeView::Open,
        }
    }

    /// One row's fields.
    pub open spec fn row(self, index: int, selected: bool, theme: Theme) -> RowView {
        let primary = if selected {
            theme.accent
        } else {
            theme.primary
        };
        let muted = theme.muted;
        match self {
            KindView::Palette(palette) => RowView {
                selected,
                lead: field(palette.results()[index].key, theme.accent, CellAttrs::bold()),
                title: field(palette.results()[index].label, primary, CellAttrs::none()),
                extras: seq![field(palette.results()[index].note, muted, CellAttrs::none())],
            },
            KindView::Sessions(entries) => RowView {
                selected,
                lead: no_field(),
                title: field(entries[index].title, primary, CellAttrs::bold()),
                extras: session_extras(entries[index], theme),
            },
            KindView::Launcher(entries) => RowView {
                selected,
                lead: field(entries[index].profile, muted, CellAttrs::none()),
                title: field(entries[index].default_name, primary, CellAttrs::bold()),
                extras: seq![field(entries[index].command, muted, CellAttrs::none())],
            },
            KindView::Attention(entries) => RowView {
                selected,
                lead: field(decimal(entries[index].index as nat), muted, CellAttrs::none()),
                title: field(entries[index].title, primary, CellAttrs::bold()),
                extras: seq![
                    field(
                        state_text(entries[index].attention),
                        entries[index].attention.color_in(theme),
                        CellAttrs::none(),
                    ),
                ],
            },
            KindView::Details(details) => RowView {
                selected,
                lead: field(detail_fields(details)[index].0, muted, CellAttrs::none()),
                title: field(detail_fields(details)[index].1, primary, CellAttrs::none()),
                extras: seq![],
            },
            KindView::Config(config) => config_row(config, index, selected, theme),
        }
    }
}

/// What a session row says besides its name: that it is the attached one, then
/// its tabs, panes and clients.
pub open spec fn session_extras(entry: SessionView, theme: Theme) -> Seq<FieldView> {
    let counts = seq![
        field(counted(entry.tabs, "tab"@), theme.muted, CellAttrs::none()),
        field(counted(entry.panes, "pane"@), theme.muted, CellAttrs::none()),
        field(counted(entry.clients, "client"@), theme.muted, CellAttrs::none()),
    ];
    if entry.attached {
        seq![field("attached"@, theme.success, CellAttrs::none())] + counts
    } else {
        counts
    }
}

/// An overlay that opened over `kind`.
pub open spec fn opened(kind: KindView) -> OverlayView {
    OverlayView { kind, selected: 0 }
}

/// A palette action that edits the query, applied to it.
pub open spec fn edited(query: Seq<char>, action: PaletteAction) -> Seq<char> {
    match action {
        PaletteAction::Insert(ch) => query.push(ch),
        PaletteAction::Backspace => if query.len() > 0 {
            query.drop_last()
        } else {
            query
        },
        PaletteAction::Clear => ""@,
        _ => query,
    }
}

impl OverlayView {
    /// The cursor is on a row, or at the top of an empty list.
    pub open spec fn in_range(self) -> bool {
        self.selected < self.kind.len() || (self.kind.len() == 0 && self.selected == 0)
    }

    /// The cursor one row down, stopping at the last row.
    pub open spec fn next(self) -> OverlayView {
        if self.selected + 1 < self.kind.len() {
            OverlayView { selected: self.selected + 1, ..self }
        } else {
            self
        }
    }

    /// The cursor one row up, stopping at the first row.
    pub open spec fn prev(self) -> OverlayView {
        if self.selected > 0 {
            OverlayView { selected: (self.selected - 1) as nat, ..self }
        } else {
            self
        }
    }

    /// The cursor on the first row.
    pub open spec fn first(self) -> OverlayView {
        OverlayView { selected: 0, ..self }
    }

    /// The cursor on the last row.
    pub open spec fn last(self) -> OverlayView {
        OverlayView {
            selected: if self.kind.len() == 0 {
                0
            } else {
                (self.kind.len() - 1) as nat
            },
            ..self
        }
    }

    /// This overlay after one keyboard action, and what it did.
    pub open spec fn applied(self, action: OverlayAction) -> (OverlayView, OutcomeView) {
        match action {
            OverlayAction::Next => (self.next(), OutcomeView::Open),
            OverlayAction::Prev => (self.prev(), OutcomeView::Open),
            OverlayAction::First => (self.first(), OutcomeView::Open),
            OverlayAction::Last => (self.last(), OutcomeView::Open),
            OverlayAction::Confirm => (self, self.kind.confirmed(self.selected)),
            OverlayAction::Dismiss => (self, OutcomeView::Dismissed),
        }
    }

    /// This overlay after one attention-queue action, and what it did.
    pub open spec fn queue_applied(self, action: QueueAction) -> (OverlayView, OutcomeView) {
        match action {
            QueueAction::Next => (self.next(), OutcomeView::Open),
            QueueAction::Prev => (self.prev(), OutcomeView::Open),
            QueueAction::Focus => (self, self.kind.confirmed(self.selected)),
            QueueAction::Acknowledge => (self, self.kind.acknowledged(self.selected)),
            QueueAction::Dismiss => (self, OutcomeView::Dismissed),
        }
    }

    /// This overlay with another query: the cursor stays on the command it was
    /// on where that is still listed, and goes to the top where it is not.
    pub open spec fn asked(self, query: Seq<char>) -> OverlayView {
        match self.kind {
            KindView::Palette(palette) => {
                let next = palette.asked(query);
                OverlayView {
                    kind: KindView::Palette(next),
                    selected: if self.selected < palette.matches().len() {
                        match first_where(
                            next.matches(),
                            |at: nat| at == palette.matches()[self.selected as int],
                        ) {
                            Some(at) => at,
                            None => 0,
                        }
                    } else {
                        0
                    },
                }
            },
            _ => self,
        }
    }

    /// This overlay after one palette action, and what it did: an overlay that
    /// is no palette ignores it.
    pub open spec fn palette_applied(self, action: PaletteAction) -> (OverlayView, OutcomeView) {
        match self.kind {
            KindView::Palette(palette) => match action {
                PaletteAction::Next => (self.next(), OutcomeView::Open),
                PaletteAction::Prev => (self.prev(), OutcomeView::Open),
                PaletteAction::First => (self.first(), OutcomeView::Open),
                PaletteAction::Last => (self.last(), OutcomeView::Open),
                PaletteAction::Confirm => (self, self.kind.confirmed(self.selected)),
                PaletteAction::Dismiss => (self, OutcomeView::Dismissed),
                _ => (self.asked(edited(palette.query, action)), OutcomeView::Open),
            },
            _ => (self, OutcomeView::Open),
        }
    }

    /// This overlay with a newer attention projection: the cursor stays on its
    /// pane, or on its row where that pane is gone.
    pub open spec fn attention_refreshed(self, entries: Seq<WaitingView>) -> OverlayView {
        match self.kind {
            KindView::Attention(current) => {
                let kept = if self.selected < current.len() {
                    match first_where(
                        entries,
                        |entry: WaitingView| entry.pane == current[self.selected as int].pane,
                    ) {
                        Some(at) => at,
                        None => self.selected,
                    }
                } else {
                    self.selected
                };
                OverlayView {
                    kind: KindView::Attention(entries),
                    selected: within(kept, entries.len()),
                }
            },
            _ => self,
        }
    }

    /// This overlay with a newer session catalog: the cursor stays on its
    /// socket, or on its row where that session is gone.
    pub open spec fn sessions_refreshed(self, entries: Seq<SessionView>) -> OverlayView {
        match self.kind {
            KindView::Sessions(current) => {
                let kept = if self.selected < current.len() {
                    match first_where(
                        entries,
                        |entry: SessionView| entry.socket == current[self.selected as int].socket,
                    ) {
                        Some(at) => at,
                        None => self.selected,
                    }
                } else {
                    self.selected
                };
                OverlayView {
                    kind: KindView::Sessions(entries),
                    selected: within(kept, entries.len()),
                }
            },
            _ => self,
        }
    }

    /// This overlay with newer preferences to report.
    pub open spec fn config_refreshed(self, config: ConfigView) -> OverlayView {
        match self.kind {
            KindView::Config(_) => OverlayView {
                kind: KindView::Config(config),
                selected: within(self.selected, config.rows.len()),
            },
            _ => self,
        }
    }
}

/// Whether a first position was found, and where.
pub(crate) proof fn first_where_found<A>(items: Seq<A>, wanted: spec_fn(A) -> bool)
    ensures
        match first_where(items, wanted) {
            Some(at) => at < items.len() && wanted(items[at as int]) && forall|k: int|
                0 <= k < at ==> !wanted(#[trigger] items[k]),
            None => forall|k: int| 0 <= k < items.len() ==> !wanted(#[trigger] items[k]),
        },
    decreases items.len(),
{
    if items.len() > 0 && !wanted(items[0]) {
        let rest = items.drop_first();
        first_where_found(rest, wanted);
        assert forall|k: int| 0 < k < items.len() implies items[k] == #[trigger] rest[k - 1] by {}
        match first_where(rest, wanted) {
            Some(at) => {
                assert forall|k: int| 0 <= k < at + 1 implies !wanted(#[trigger] items[k]) by {
                    if k > 0 {
                        assert(items[k] == rest[k - 1]);
                    }
                }
            },
            None => {
                assert forall|k: int| 0 <= k < items.len() implies !wanted(#[trigger] items[k]) by {
                    if k > 0 {
                        assert(items[k] == rest[k - 1]);
                    }
                }
            },
        }
    }
}

/// The first position is the one where nothing before it is wanted.
proof fn first_where_is<A>(items: Seq<A>, wanted: spec_fn(A) -> bool, at: nat)
    requires
        at < items.len(),
        wanted(items[at as int]),
        forall|k: int| 0 <= k < at ==> !wanted(#[trigger] items[k]),
    ensures
        first_where(items, wanted) == Some(at),
{
    first_where_found(items, wanted);
    match first_where(items, wanted) {
        Some(found) => {
            if found < at {
                assert(wanted(items[found as int]));
            }
            if at < found {
                assert(wanted(items[at as int]));
            }
        },
        None => {
            assert(wanted(items[at as int]));
        },
    }
}

/// Nothing is found where nothing is wanted.
proof fn first_where_misses<A>(items: Seq<A>, wanted: spec_fn(A) -> bool)
    requires
        forall|k: int| 0 <= k < items.len() ==> !wanted(#[trigger] items[k]),
    ensures
        first_where(items, wanted) is None,
{
    first_where_found(items, wanted);
}

impl Overlay {
    /// The cursor is on a row, and a palette's results follow its query.
    pub closed spec fn wf(&self) -> bool {
        self.kind.wf() && self@.in_range()
    }

    /// Opens the command palette over the keymap the client is resolving
    /// against.
    pub fn palette(keymap: &Keymap) -> (overlay: Overlay)
        ensures
            overlay.wf(),
            overlay@ == opened(KindView::Palette(palette_of(*keymap))),
    {
        Overlay { kind: OverlayKind::Palette(CommandPalette::new(keymap)), selected: 0 }
    }

    /// Opens the session switcher over a list of sessions.
    pub fn sessions(entries: Vec<SessionEntry>) -> (overlay: Overlay)
        ensures
            overlay.wf(),
            overlay@ == opened(KindView::Sessions(session_views(entries@))),
    {
        Overlay { kind: OverlayKind::Sessions(entries), selected: 0 }
    }

    /// Opens the profile launcher over the configured profiles.
    ///
    /// A profile that does not validate is left out rather than offered and
    /// then refused at launch.
    pub fn launcher(profiles: &[Profile]) -> (overlay: Overlay)
        ensures
            overlay.wf(),
            overlay@ == opened(KindView::Launcher(launchable(profiles@))),
    {
        Overlay { kind: OverlayKind::Launcher(profile_entries(profiles)), selected: 0 }
    }

    /// Opens the attention queue over the panes currently waiting on the user.
    pub fn attention(entries: Vec<AttentionEntry>) -> (overlay: Overlay)
        ensures
            overlay.wf(),
            overlay@ == opened(KindView::Attention(waiting_views(entries@))),
    {
        Overlay { kind: OverlayKind::Attention(entries), selected: 0 }
    }

    /// Opens the pane-details view.
    pub fn details(details: PaneDetails) -> (overlay: Overlay)
        ensures
            overlay.wf(),
            overlay@ == opened(KindView::Details(details)),
    {
        Overlay { kind: OverlayKind::Details(details), selected: 0 }
    }

    /// Opens the effective configuration and theme preview.
    pub fn config(preview: ConfigPreview) -> (overlay: Overlay)
        ensures
            overlay.wf(),
            overlay@ == opened(KindView::Config(preview@)),
    {
        Overlay { kind: OverlayKind::Config(preview), selected: 0 }
    }

    /// Replaces the attention rows with a newer projection, keeping the cursor
    /// on its pane.
    pub fn refresh_attention(&mut self, entries: Vec<AttentionEntry>)
        requires
            old(self).wf(),
        ensures
            final(self).wf(),
            final(self)@ == old(self)@.attention_refreshed(waiting_views(entries@)),
    {
        let mut selected = self.selected;
        match &self.kind {
            OverlayKind::Attention(current) => {
                if self.selected < current.len() {
                    let pane = current[self.selected].pane;
                    let ghost wanted = |entry: WaitingView|
                        entry.pane == waiting_views(current@)[self.selected as int].pane;
                    let ghost views = waiting_views(entries@);
                    let mut found = false;
                    let mut i: usize = 0;
                    while i < entries.len() && !found
                        invariant
                            i <= entries@.len(),
                            views == waiting_views(entries@),
                            forall|entry: WaitingView| #[trigger] wanted(entry) == (entry.pane == pane),
                            forall|k: int| 0 <= k < i ==> !wanted(#[trigger] views[k]),
                            found ==> i < entries@.len() && wanted(views[i as int]),
                        decreases entries@.len() - i + (if found { 0int } else { 1int }),
                    {
                        assert(views[i as int].pane == entries@[i as int].pane);
                        if entries[i].pane == pane {
                            assert(wanted(views[i as int]));
                            found = true;
                        } else {
                            assert(!wanted(views[i as int]));
                            i = i + 1;
                        }
                    }
                    if found {
                        proof {
                            first_where_is(views, wanted, i as nat);
                        }
                        selected = i;
                    } else {
                        proof {
                            first_where_misses(views, wanted);
                        }
                    }
                }
            },
            _ => {
                return ;
            },
        }
        let len = entries.len();
        self.kind = OverlayKind::Attention(entries);
        self.selected = Overlay::clamp(selected, len);
    }

    /// Replaces session rows with a newer verified catalog, keeping the cursor
    /// on the same socket when it still exists.
    pub fn refresh_sessions(&mut self, entries: Vec<SessionEntry>)
        requires
            old(self).wf(),
        ensures
            final(self).wf(),
            final(self)@ == old(self)@.sessions_refreshed(session_views(entries@)),
    {
        let mut selected = self.selected;
        match &self.kind {
            OverlayKind::Sessions(current) => {
                if self.selected < current.len() {
                    let socket = &current[self.selected].socket;
                    let ghost wanted = |entry: SessionView|
                        entry.socket == session_views(current@)[self.selected as int].socket;
                    let ghost views = session_views(entries@);
                    let mut found = false;
                    let mut i: usize = 0;
                    while i < entries.len() && !found
                        invariant
                            i <= entries@.len(),
                            views == session_views(entries@),
                            forall|entry: SessionView| #[trigger] wanted(entry) == (entry.socket == socket@),
                            forall|k: int| 0 <= k < i ==> !wanted(#[trigger] views[k]),
                            found ==> i < entries@.len() && wanted(views[i as int]),
                        decreases entries@.len() - i + (if found { 0int } else { 1int }),
                    {
                        assert(views[i as int].socket == entries@[i as int].socket@);
                        if entries[i].socket.same(socket) {
                            assert(wanted(views[i as int]));
                            found = true;
                        } else {
                            assert(!wanted(views[i as int]));
                            i = i + 1;
                        }
                    }
                    if found {
                        proof {
                            first_where_is(views, wanted, i as nat);
                        }
                        selected = i;
                    } else {
                        proof {
                            first_where_misses(views, wanted);
                        }
                    }
                }
            },
            _ => {
                return ;
            },
        }
        let len = entries.len();
        self.kind = OverlayKind::Sessions(entries);
        self.selected = Overlay::clamp(selected, len);
    }

    /// Replaces the reported preferences after a successful reload.
    pub fn refresh_config(&mut self, preview: ConfigPreview)
        requires
            old(self).wf(),
        ensures
            final(self).wf(),
            final(self)@ == old(self)@.config_refreshed(preview@),
    {
        let is_config = match &self.kind {
            OverlayKind::Config(_) => true,
            _ => false,
        };
        if !is_config {
            return ;
        }
        let len = preview.count();
        self.kind = OverlayKind::Config(preview);
        self.selected = Overlay::clamp(self.selected, len);
    }

    fn clamp(selected: usize, len: usize) -> (kept: usize)
        ensures
            kept == within(selected as nat, len as nat),
    {
        if len == 0 {
            0
        } else if selected >= len {
            len - 1
        } else {
            selected
        }
    }

    /// What this overlay is showing.
    pub fn kind(&self) -> (kind: &OverlayKind)
        requires
            self.wf(),
        ensures
            kind@ == self@.kind,
            kind.wf(),
    {
        &self.kind
    }

    /// The overlay's title.
    pub fn title(&self) -> (title: &str)
        requires
            self.wf(),
        ensures
            title@ == self@.kind.title(),
    {
        match &self.kind {
            OverlayKind::Palette(palette) => palette.title(),
            OverlayKind::Sessions(_) => "sessions",
            OverlayKind::Launcher(_) => "launch profile",
            OverlayKind::Attention(_) => "attention",
            OverlayKind::Details(_) => "pane details",
            OverlayKind::Config(_) => "configuration",
        }
    }

    /// How many rows the overlay lists.
    pub fn len(&self) -> (len: usize)
        requires
            self.wf(),
        ensures
            len == self@.kind.len(),
    {
        match &self.kind {
            OverlayKind::Palette(palette) => palette.count(),
            OverlayKind::Sessions(entries) => entries.len(),
            OverlayKind::Launcher(entries) => entries.len(),
            OverlayKind::Attention(entries) => entries.len(),
            OverlayKind::Details(details) => {
                let fields = details.fields();
                assert(labelled(fields@).len() == fields@.len());
                fields.len()
            },
            OverlayKind::Config(preview) => preview.count(),
        }
    }

    /// How many rows of this overlay are chrome rather than list.
    fn chrome_rows(&self) -> (rows: usize)
        ensures
            rows == self@.kind.chrome_rows(),
    {
        match &self.kind {
            OverlayKind::Palette(_) => 3,
            OverlayKind::Config(_) => 2 + PREVIEW_ROWS,
            _ => 2,
        }
    }

    /// How many rows the overlay would like to be drawn in: its list plus its
    /// chrome rows.
    pub fn preferred_rows(&self) -> (rows: usize)
        requires
            self.wf(),
        ensures
            rows == if self@.kind.len() + self@.kind.chrome_rows() <= usize::MAX {
                self@.kind.len() + self@.kind.chrome_rows()
            } else {
                usize::MAX as nat
            },
    {
        self.len().saturating_add(self.chrome_rows())
    }

    /// Whether the overlay has nothing to list.
    pub fn is_empty(&self) -> (empty: bool)
        requires
            self.wf(),
        ensures
            empty == (self@.kind.len() == 0),
    {
        self.len() == 0
    }

    /// Where the keyboard cursor is.
    pub fn selection(&self) -> (selected: usize)
        ensures
            selected == self@.selected,
    {
        self.selected
    }

    /// Moves the cursor one row down, stopping at the last row.
    pub fn select_next(&mut self)
        requires
            old(self).wf(),
        ensures
            final(self).wf(),
            final(self)@ == old(self)@.next(),
    {
        let len = self.len();
        if len > 0 && self.selected < len - 1 {
            self.selected = self.selected + 1;
        }
    }

    /// Moves the cursor one row up, stopping at the first row.
    pub fn select_prev(&mut self)
        requires
            old(self).wf(),
        ensures
            final(self).wf(),
            final(self)@ == old(self)@.prev(),
    {
        if self.selected > 0 {
            self.selected = self.selected - 1;
        }
    }

    fn select_first(&mut self)
        requires
            old(self).wf(),
        ensures
            final(self).wf(),
            final(self)@ == old(self)@.first(),
    {
        self.selected = 0;
    }

    fn select_last(&mut self)
        requires
            old(self).wf(),
        ensures
            final(self).wf(),
            final(self)@ == old(self)@.last(),
    {
        let len = self.len();
        self.selected = if len == 0 {
            0
        } else {
            len - 1
        };
    }

    /// Applies one keyboard action.
    ///
    /// Navigation leaves the overlay open; only a confirmation or a dismissal
    /// produces anything a caller acts on.
    pub fn apply(&mut self, action: OverlayAction) -> (outcome: OverlayOutcome)
        requires
            old(self).wf(),
        ensures
            final(self).wf(),
            (final(self)@, outcome@) == old(self)@.applied(action),
    {
        match action {
            OverlayAction::Next => {
                self.select_next();
                OverlayOutcome::Open
            },
            OverlayAction::Prev => {
                self.select_prev();
                OverlayOutcome::Open
            },
            OverlayAction::First => {
                self.select_first();
                OverlayOutcome::Open
            },
            OverlayAction::Last => {
                self.select_last();
                OverlayOutcome::Open
            },
            OverlayAction::Confirm => self.confirm(),
            OverlayAction::Dismiss => OverlayOutcome::Dismissed,
        }
    }

    /// Applies one command-palette keyboard action; against another overlay it
    /// does nothing.
    pub fn apply_palette(&mut self, action: PaletteAction) -> (outcome: OverlayOutcome)
        requires
            old(self).wf(),
        ensures
            final(self).wf(),
            (final(self)@, outcome@) == old(self)@.palette_applied(action),
    {
        let query: String = match &self.kind {
            OverlayKind::Palette(palette) => palette.query().to_owned(),
            _ => {
                return OverlayOutcome::Open;
            },
        };
        match action {
            PaletteAction::Next => {
                self.select_next();
                OverlayOutcome::Open
            },
            PaletteAction::Prev => {
                self.select_prev();
                OverlayOutcome::Open
            },
            PaletteAction::First => {
                self.select_first();
                OverlayOutcome::Open
            },
            PaletteAction::Last => {
                self.select_last();
                OverlayOutcome::Open
            },
            PaletteAction::Insert(ch) => {
                let mut chars = chars_of(query.as_str());
                chars.push(ch);
                self.edit_query(string_of(chars.as_slice()));
                OverlayOutcome::Open
            },
            PaletteAction::Backspace => {
                let mut chars = chars_of(query.as_str());
                chars.pop();
                assert(chars@ =~= edited(query@, action));
                self.edit_query(string_of(chars.as_slice()));
                OverlayOutcome::Open
            },
            PaletteAction::Clear => {
                self.edit_query("".to_owned());
                OverlayOutcome::Open
            },
            PaletteAction::Confirm => self.confirm(),
            PaletteAction::Dismiss => OverlayOutcome::Dismissed,
        }
    }

    /// Replaces the palette's query and re-anchors the cursor on its command.
    fn edit_query(&mut self, query: String)
        requires
            old(self).wf(),
        ensures
            final(self).wf(),
            final(self)@ == old(self)@.asked(query@),
    {
        match &self.kind {
            OverlayKind::Palette(palette) => {
                let command = palette.position(self.selected);
                let mut next = palette.clone();
                next.ask(query);
                let shown: Option<usize> = match command {
                    Some(at) => next.display_of(at),
                    None => None,
                };
                let selected: usize = match shown {
                    Some(index) => index,
                    None => 0,
                };
                proof {
                    let before = palette@.matches();
                    let after = next@.matches();
                    crate::commands::hits_are_positions(
                        next@.commands,
                        next@.query,
                        next@.commands.len(),
                    );
                    if self.selected < before.len() {
                        let wanted = |at: nat| at == before[self.selected as int];
                        match shown {
                            Some(index) => {
                                assert(wanted(after[index as int]));
                                assert forall|k: int| 0 <= k < index implies !wanted(
                                    #[trigger] after[k],
                                ) by {
                                    assert(after[k] < after[index as int]);
                                }
                                first_where_is(after, wanted, index as nat);
                            },
                            None => {
                                assert forall|k: int| 0 <= k < after.len() implies !wanted(
                                    #[trigger] after[k],
                                ) by {
                                    if wanted(after[k]) {
                                        assert(after.contains(before[self.selected as int]));
                                    }
                                }
                                first_where_misses(after, wanted);
                            },
                        }
                    }
                }
                self.kind = OverlayKind::Palette(next);
                self.selected = selected;
            },
            _ => {},
        }
    }

    /// Applies one attention-queue keyboard action.
    pub fn apply_queue(&mut self, action: QueueAction) -> (outcome: OverlayOutcome)
        requires
            old(self).wf(),
        ensures
            final(self).wf(),
            (final(self)@, outcome@) == old(self)@.queue_applied(action),
    {
        match action {
            QueueAction::Next => {
                self.select_next();
                OverlayOutcome::Open
            },
            QueueAction::Prev => {
                self.select_prev();
                OverlayOutcome::Open
            },
            QueueAction::Focus => self.confirm(),
            QueueAction::Acknowledge => match &self.kind {
                OverlayKind::Attention(entries) => {
                    if self.selected < entries.len() {
                        assert(waiting_views(entries@)[self.selected as int].pane
                            == entries@[self.selected as int].pane);
                        OverlayOutcome::Acknowledge(entries[self.selected].pane)
                    } else {
                        OverlayOutcome::Open
                    }
                },
                _ => OverlayOutcome::Open,
            },
            QueueAction::Dismiss => OverlayOutcome::Dismissed,
        }
    }

    /// What confirming the selected row means; an empty list confirms to
    /// nothing at all.
    pub fn confirm(&self) -> (outcome: OverlayOutcome)
        requires
            self.wf(),
        ensures
            outcome@ == self@.kind.confirmed(self@.selected),
    {
        match &self.kind {
            OverlayKind::Palette(palette) => match palette.result(self.selected) {
                Some(command) => match command.outcome() {
                    CommandOutcome::Run(action) => OverlayOutcome::RunAction(action.clone()),
                    CommandOutcome::Open(surface) => OverlayOutcome::OpenSurface(*surface),
                },
                None => OverlayOutcome::Open,
            },
            OverlayKind::Sessions(entries) => {
                if self.selected < entries.len() {
                    assert(session_views(entries@)[self.selected as int]
                        == entries@[self.selected as int]@);
                    OverlayOutcome::SwitchSession(entries[self.selected].socket.clone())
                } else {
                    OverlayOutcome::Open
                }
            },
            OverlayKind::Launcher(entries) => {
                if self.selected < entries.len() {
                    assert(profile_views(entries@)[self.selected as int]
                        == entries@[self.selected as int]@);
                    OverlayOutcome::Launch(entries[self.selected].request())
                } else {
                    OverlayOutcome::Open
                }
            },
            OverlayKind::Attention(entries) => {
                if self.selected < entries.len() {
                    assert(waiting_views(entries@)[self.selected as int]
                        == entries@[self.selected as int]@);
                    OverlayOutcome::FocusPane(entries[self.selected].pane)
                } else {
                    OverlayOutcome::Open
                }
            },
            OverlayKind::Details(_) => OverlayOutcome::Dismissed,
            OverlayKind::Config(_) => OverlayOutcome::Dismissed,
        }
    }

    /// One row's fields.
    pub fn row(&self, index: usize, selected: bool, theme: Theme) -> (row: RowSpec)
        requires
            self.wf(),
            index < self@.kind.len(),
        ensures
            row@ == self@.kind.row(index as int, selected, theme),
    {
        let primary = if selected {
            theme.color(ThemeToken::Accent)
        } else {
            theme.color(ThemeToken::Primary)
        };
        let muted = theme.color(ThemeToken::Muted);
        let row = match &self.kind {
            OverlayKind::Palette(palette) => match palette.result(index) {
                Some(command) => RowSpec {
                    selected,
                    lead: Field::new(
                        command.key(),
                        theme.color(ThemeToken::Accent),
                        CellAttrs::bold(),
                    ),
                    title: Field::new(command.label(), primary, CellAttrs::none()),
                    extras: vec![Field::new(command.note(), muted, CellAttrs::none())],
                },
                None => empty_row(),
            },
            OverlayKind::Sessions(entries) => {
                assert(session_views(entries@)[index as int] == entries@[index as int]@);
                let entry = &entries[index];
                RowSpec {
                    selected,
                    lead: Field::new("", Color::Default, CellAttrs::none()),
                    title: Field::new(entry.title.as_str(), primary, CellAttrs::bold()),
                    extras: session_fields(entry, theme),
                }
            },
            OverlayKind::Launcher(entries) => {
                assert(profile_views(entries@)[index as int] == entries@[index as int]@);
                let entry = &entries[index];
                RowSpec {
                    selected,
                    lead: Field::new(entry.profile(), muted, CellAttrs::none()),
                    title: Field::new(entry.default_name(), primary, CellAttrs::bold()),
                    extras: vec![Field::new(entry.command(), muted, CellAttrs::none())],
                }
            },
            OverlayKind::Attention(entries) => {
                assert(waiting_views(entries@)[index as int] == entries@[index as int]@);
                let entry = &entries[index];
                RowSpec {
                    selected,
                    lead: Field::of_chars(
                        decimal_chars(entry.index as u64),
                        muted,
                        CellAttrs::none(),
                    ),
                    title: Field::new(entry.title.as_str(), primary, CellAttrs::bold()),
                    extras: vec![
                        Field::of_chars(
                            state_chars(entry.attention),
                            entry.attention.color_in(theme),
                            CellAttrs::none(),
                        ),
                    ],
                }
            },
            OverlayKind::Details(details) => {
                let fields = details.fields();
                assert(labelled(fields@)[index as int] == (
                    fields@[index as int].0@,
                    fields@[index as int].1@,
                ));
                RowSpec {
                    selected,
                    lead: Field::new(fields[index].0, muted, CellAttrs::none()),
                    title: Field::new(fields[index].1.as_str(), primary, CellAttrs::none()),
                    extras: Vec::new(),
                }
            },
            OverlayKind::Config(preview) => preview.row(index, selected, theme),
        };
        assert(row@ =~= self@.kind.row(index as int, selected, theme));
        row
    }

    /// The rows the overlay would draw into `visible` list rows.
    fn visible_rows(&self, visible: usize, theme: Theme) -> (rows: Vec<RowSpec>)
        requires
            self.wf(),
        ensures
            row_views(rows@) == shown_rows(self@, visible as nat, theme),
    {
        let (first, last) = window(self.len(), self.selected, visible);
        let mut rows: Vec<RowSpec> = Vec::new();
        let ghost all = shown_rows(self@, visible as nat, theme);
        let mut index: usize = first;
        assert(row_views(rows@) =~= all.take(0));
        while index < last
            invariant
                self.wf(),
                first <= index <= last,
                last <= self@.kind.len(),
                (first as nat, last as nat) == window_of(self@.kind.len(), self@.selected, visible as nat),
                all == shown_rows(self@, visible as nat, theme),
                row_views(rows@) == all.take(index - first),
            decreases last - index,
        {
            let row = self.row(index, index == self.selected, theme);
            let ghost before = row_views(rows@);
            rows.push(row);
            assert(row_views(rows@) =~= before.push(row@));
            assert(all[index - first] == row@);
            assert(all.take(index + 1 - first) =~= before.push(row@));
            index = index + 1;
        }
        assert(all.take(last - first) =~= all);
        rows
    }

    /// The keyboard hints, most important first.
    fn hints(&self) -> (hints: (&'static str, &'static str, &'static str))
        ensures
            (hints.0@, hints.1@, hints.2@) == self@.kind.hints(),
    {
        match &self.kind {
            OverlayKind::Palette(_) => ("esc close", "enter run", "up/down move"),
            OverlayKind::Sessions(_) => ("esc close", "enter switch", "j/k move"),
            OverlayKind::Launcher(_) => ("esc close", "enter launch", "j/k move"),
            OverlayKind::Attention(_) => ("esc close", "enter focus", "a ack"),
            OverlayKind::Details(_) => ("esc close", "enter close", "j/k move"),
            OverlayKind::Config(_) => ("esc close", "read only", "j/k move"),
        }
    }

    /// Whether an empty list says that the query found nothing.
    fn says_no_matches(&self) -> (says: bool)
        ensures
            says == (self@.kind.empty_note() is Some),
    {
        match &self.kind {
            OverlayKind::Palette(palette) => palette.query().unicode_len() > 0,
            _ => false,
        }
    }
}

impl Clone for Overlay {
    fn clone(&self) -> (copy: Overlay)
        ensures
            copy@ == self@,
            self.wf() ==> copy.wf(),
    {
        let kind = match &self.kind {
            OverlayKind::Palette(palette) => OverlayKind::Palette(palette.clone()),
            OverlayKind::Sessions(entries) => {
                let mut copy: Vec<SessionEntry> = Vec::new();
                for i in 0..entries.len()
                    invariant
                        session_views(copy@) == session_views(entries@).take(i as int),
                {
                    let ghost before = session_views(copy@);
                    let entry = entries[i].clone();
                    copy.push(entry);
                    assert(session_views(copy@) =~= before.push(entry@));
                    assert(session_views(entries@).take(i + 1) =~= before.push(
                        session_views(entries@)[i as int],
                    ));
                }
                assert(session_views(entries@).take(entries@.len() as int) =~= session_views(
                    entries@,
                ));
                OverlayKind::Sessions(copy)
            },
            OverlayKind::Launcher(entries) => {
                let mut copy: Vec<ProfileEntry> = Vec::new();
                for i in 0..entries.len()
                    invariant
                        copy@ == entries@.take(i as int),
                {
                    copy.push(entries[i].clone());
                    assert(entries@.take(i + 1) =~= entries@.take(i as int).push(
                        entries@[i as int],
                    ));
                }
                assert(entries@.take(entries@.len() as int) =~= entries@);
                OverlayKind::Launcher(copy)
            },
            OverlayKind::Attention(entries) => {
                let mut copy: Vec<AttentionEntry> = Vec::new();
                for i in 0..entries.len()
                    invariant
                        copy@ == entries@.take(i as int),
                {
                    copy.push(entries[i].clone());
                    assert(entries@.take(i + 1) =~= entries@.take(i as int).push(
                        entries@[i as int],
                    ));
                }
                assert(entries@.take(entries@.len() as int) =~= entries@);
                OverlayKind::Attention(copy)
            },
            OverlayKind::Details(details) => OverlayKind::Details(details.clone()),
            OverlayKind::Config(preview) => OverlayKind::Config(preview.clone()),
        };
        Overlay { kind, selected: self.selected }
    }
}

/// A row that says nothing.
fn empty_row() -> (row: RowSpec)
    ensures
        row@ == (RowView {
            selected: false,
            lead: no_field(),
            title: no_field(),
            extras: seq![],
        }),
{
    let row = RowSpec {
        selected: false,
        lead: Field::new("", Color::Default, CellAttrs::none()),
        title: Field::new("", Color::Default, CellAttrs::none()),
        extras: Vec::new(),
    };
    assert(row@.extras =~= seq![]);
    row
}

/// What a session row says besides its name.
fn session_fields(entry: &SessionEntry, theme: Theme) -> (fields: Vec<Field>)
    ensures
        field_views(fields@) == session_extras(entry@, theme),
{
    let muted = theme.color(ThemeToken::Muted);
    let mut fields: Vec<Field> = Vec::new();
    if entry.attached {
        fields.push(
            Field::new("attached", theme.color(ThemeToken::Success), CellAttrs::none()),
        );
    }
    fields.push(Field::of_chars(count(entry.tabs, "tab"), muted, CellAttrs::none()));
    fields.push(Field::of_chars(count(entry.panes, "pane"), muted, CellAttrs::none()));
    fields.push(Field::of_chars(count(entry.clients, "client"), muted, CellAttrs::none()));
    assert(field_views(fields@) =~= session_extras(entry@, theme));
    fields
}

// Drawing.

/// The slice of a list that keeps the selection visible: it starts at the top
/// until the cursor would leave the bottom, and then follows it by one row.
pub open spec fn window_of(len: nat, selected: nat, visible: nat) -> (nat, nat) {
    if len == 0 || visible == 0 {
        (0, 0)
    } else {
        let first = if selected < visible {
            0
        } else {
            (selected + 1 - visible) as nat
        };
        (
            first,
            if first + visible <= len {
                first + visible
            } else {
                len
            },
        )
    }
}

/// The slice of a list that keeps the selection visible.
pub fn window(len: usize, selected: usize, visible: usize) -> (slice: (usize, usize))
    requires
        selected < len || len == 0,
    ensures
        (slice.0 as nat, slice.1 as nat) == window_of(len as nat, selected as nat, visible as nat),
        slice.0 <= slice.1 <= len,
{
    if len == 0 || visible == 0 {
        return (0, 0);
    }
    let first: usize = if selected < visible {
        0
    } else {
        selected + 1 - visible
    };
    let last: usize = if visible <= len - first {
        first + visible
    } else {
        len
    };
    (first, last)
}

/// A window with any room at all shows the selected row, and never more rows
/// than there is room for.
pub proof fn the_window_shows_the_selection(len: nat, selected: nat, visible: nat)
    requires
        selected < len,
    ensures
        visible > 0 ==> window_of(len, selected, visible).0 <= selected < window_of(
            len,
            selected,
            visible,
        ).1,
        window_of(len, selected, visible).1 <= len,
        window_of(len, selected, visible).1 - window_of(len, selected, visible).0 <= visible,
{
}

/// The rows drawn into `visible` list rows.
pub open spec fn shown_rows(overlay: OverlayView, visible: nat, theme: Theme) -> Seq<RowView> {
    let (first, last) = window_of(overlay.kind.len(), overlay.selected, visible);
    Seq::new(
        (last - first) as nat,
        |i: int| overlay.kind.row(first + i, first + i == overlay.selected, theme),
    )
}

/// The title row: a position where there is a list, and a note where the user
/// emptied it.
pub open spec fn title_row(overlay: OverlayView, theme: Theme) -> RowView {
    RowView {
        selected: false,
        lead: no_field(),
        title: field(overlay.kind.title(), theme.accent, CellAttrs::bold()),
        extras: if overlay.kind.len() > 0 {
            seq![
                field(
                    decimal(overlay.selected + 1).push('/') + decimal(overlay.kind.len()),
                    theme.muted,
                    CellAttrs::none(),
                ),
            ]
        } else {
            match overlay.kind.empty_note() {
                Some(note) => seq![field(note, theme.warning, CellAttrs::none())],
                None => seq![],
            }
        },
    }
}

/// The overlay's title row, exactly `width` cells wide.
pub fn title_cells(overlay: &Overlay, width: u16, theme: Theme) -> (cells: Vec<Cell>)
    requires
        overlay.wf(),
    ensures
        cells@ == row_line(title_row(overlay@, theme), width as nat, theme),
        cells@.len() == width,
{
    let mut extras: Vec<Field> = Vec::new();
    let len = overlay.len();
    if len == 0 {
        if overlay.says_no_matches() {
            extras.push(
                Field::new("no matches", theme.color(ThemeToken::Warning), CellAttrs::none()),
            );
        }
    } else {
        let mut position = decimal_chars((overlay.selection() + 1) as u64);
        position.push('/');
        push_all(&mut position, decimal_chars(len as u64).as_slice());
        extras.push(
            Field::of_chars(position, theme.color(ThemeToken::Muted), CellAttrs::none()),
        );
    }
    let row = RowSpec {
        selected: false,
        lead: Field::new("", Color::Default, CellAttrs::none()),
        title: Field::new(overlay.title(), theme.color(ThemeToken::Accent), CellAttrs::bold()),
        extras,
    };
    assert(row@ =~= title_row(overlay@, theme));
    row_cells(&row, width, theme)
}

/// The query row of a palette: the `/` that says this line is a search, and
/// the query behind which the text cursor stands.
pub open spec fn query_row(query: Seq<char>, theme: Theme) -> RowView {
    RowView {
        selected: false,
        lead: field("/"@, theme.muted, CellAttrs::none()),
        title: field(query.push('_'), theme.primary, CellAttrs::none()),
        extras: seq![],
    }
}

/// The palette's query row, exactly `width` cells wide, or `None` for an
/// overlay that has no query.
pub fn query_cells(overlay: &Overlay, width: u16, theme: Theme) -> (cells: Option<Vec<Cell>>)
    requires
        overlay.wf(),
    ensures
        match overlay@.kind {
            KindView::Palette(palette) => cells matches Some(row) && row@ == row_line(
                query_row(palette.query, theme),
                width as nat,
                theme,
            ) && row@.len() == width,
            _ => cells is None,
        },
{
    match overlay.kind() {
        OverlayKind::Palette(palette) => {
            let mut text = chars_of(palette.query());
            text.push('_');
            let row = RowSpec {
                selected: false,
                lead: Field::new("/", theme.color(ThemeToken::Muted), CellAttrs::none()),
                title: Field::of_chars(
                    text,
                    theme.color(ThemeToken::Primary),
                    CellAttrs::none(),
                ),
                extras: Vec::new(),
            };
            assert(row@ =~= query_row(palette@.query, theme));
            Some(row_cells(&row, width, theme))
        },
        _ => None,
    }
}

/// The keyboard-hint row: the hints yield from the end, so dismissal is the
/// last thing standing.
pub open spec fn hint_row(kind: KindView, theme: Theme) -> RowView {
    RowView {
        selected: false,
        lead: no_field(),
        title: field(kind.hints().0, theme.muted, CellAttrs::none()),
        extras: seq![
            field(kind.hints().1, theme.muted, CellAttrs::none()),
            field(kind.hints().2, theme.muted, CellAttrs::none()),
        ],
    }
}

/// The overlay's keyboard-hint row, exactly `width` cells wide.
pub fn hint_cells(overlay: &Overlay, width: u16, theme: Theme) -> (cells: Vec<Cell>)
    ensures
        cells@ == row_line(hint_row(overlay@.kind, theme), width as nat, theme),
        cells@.len() == width,
{
    let hints = overlay.hints();
    let muted = theme.color(ThemeToken::Muted);
    let row = RowSpec {
        selected: false,
        lead: Field::new("", Color::Default, CellAttrs::none()),
        title: Field::new(hints.0, muted, CellAttrs::none()),
        extras: vec![
            Field::new(hints.1, muted, CellAttrs::none()),
            Field::new(hints.2, muted, CellAttrs::none()),
        ],
    };
    assert(row@ =~= hint_row(overlay@.kind, theme));
    row_cells(&row, width, theme)
}

/// The query line of a box, where there is one and room for it.
pub open spec fn query_lines(overlay: OverlayView, size: Size, theme: Theme) -> Seq<Seq<Cell>> {
    match overlay.kind {
        KindView::Palette(palette) => if size.rows > 2 {
            seq![row_line(query_row(palette.query, theme), size.cols as nat, theme)]
        } else {
            seq![]
        },
        _ => seq![],
    }
}

/// The preview of a box, where there is one and room for it beside the list.
pub open spec fn preview_lines(overlay: OverlayView, size: Size, theme: Theme) -> Seq<Seq<Cell>> {
    match overlay.kind {
        KindView::Config(config) => if size.rows - 2 > PREVIEW_ROWS {
            preview_block(config.visual, size.cols as nat, theme)
        } else {
            seq![]
        },
        _ => seq![],
    }
}

/// The list of a box of `room` rows, filled out with blank ones.
pub open spec fn list_lines(overlay: OverlayView, room: nat, cols: nat, theme: Theme) -> Seq<Seq<Cell>> {
    let shown = shown_rows(overlay, room, theme);
    Seq::new(
        room,
        |i: int|
            if i < shown.len() {
                row_line(shown[i], cols, theme)
            } else {
                repeated(row_blank(theme), cols)
            },
    )
}

/// The rows a box has left for its list.
pub open spec fn list_room(overlay: OverlayView, size: Size, theme: Theme) -> int {
    size.rows - 2 - query_lines(overlay, size, theme).len() - preview_lines(
        overlay,
        size,
        theme,
    ).len()
}

/// The whole overlay box: a title row, its list, and the hint row. A box too
/// short for both chrome rows keeps the title.
pub open spec fn overlay_box(overlay: OverlayView, size: Size, theme: Theme) -> Seq<Seq<Cell>> {
    let title = row_line(title_row(overlay, theme), size.cols as nat, theme);
    let hint = row_line(hint_row(overlay.kind, theme), size.cols as nat, theme);
    if size.rows == 0 {
        seq![]
    } else if size.rows == 1 {
        seq![title]
    } else {
        seq![title] + query_lines(overlay, size, theme) + list_lines(
            overlay,
            list_room(overlay, size, theme) as nat,
            size.cols as nat,
            theme,
        ) + preview_lines(overlay, size, theme) + seq![hint]
    }
}

/// Appends the list of a box, filled out with blank rows.
fn push_list(out: &mut Vec<Vec<Cell>>, overlay: &Overlay, room: usize, cols: u16, theme: Theme)
    requires
        overlay.wf(),
    ensures
        lines(final(out)@) == lines(old(out)@) + list_lines(
            overlay@,
            room as nat,
            cols as nat,
            theme,
        ),
{
    let ghost start = lines(out@);
    let ghost list = list_lines(overlay@, room as nat, cols as nat, theme);
    let rows = overlay.visible_rows(room, theme);
    assert(rows@.len() == row_views(rows@).len());
    assert(lines(out@) =~= start + list.take(0));
    for i in 0..room
        invariant
            start == lines(old(out)@),
            list == list_lines(overlay@, room as nat, cols as nat, theme),
            row_views(rows@) == shown_rows(overlay@, room as nat, theme),
            lines(out@) == start + list.take(i as int),
    {
        let ghost before = lines(out@);
        assert(row_views(rows@).len() == rows@.len());
        let line = if i < rows.len() {
            assert(row_views(rows@)[i as int] == rows@[i as int]@);
            row_cells(&rows[i], cols, theme)
        } else {
            let mut blank: Vec<Cell> = Vec::new();
            pad_to(&mut blank, cols as usize, blank_cell(theme));
            assert(blank@ =~= repeated(row_blank(theme), cols as nat));
            blank
        };
        assert(line@ == list[i as int]);
        out.push(line);
        assert(lines(out@) =~= before.push(line@));
        assert(list.take(i + 1) =~= list.take(i as int).push(list[i as int]));
        assert(lines(out@) =~= start + list.take(i + 1));
    }
    assert(list.take(room as int) =~= list);
}

/// Builds the whole overlay box, exactly `size.rows` rows of exactly
/// `size.cols` cells.
pub fn overlay_cells(overlay: &Overlay, size: Size, theme: Theme) -> (rows: Vec<Vec<Cell>>)
    requires
        overlay.wf(),
    ensures
        lines(rows@) == overlay_box(overlay@, size, theme),
{
    let mut out: Vec<Vec<Cell>> = Vec::new();
    if size.rows == 0 {
        assert(lines(out@) =~= overlay_box(overlay@, size, theme));
        return out;
    }
    out.push(title_cells(overlay, size.cols, theme));
    if size.rows == 1 {
        assert(lines(out@) =~= overlay_box(overlay@, size, theme));
        return out;
    }
    let ghost title = seq![
        row_line(title_row(overlay@, theme), size.cols as nat, theme),
    ];
    assert(lines(out@) =~= title);
    let mut list: usize = size.rows as usize - 2;
    let ghost query = query_lines(overlay@, size, theme);
    if size.rows > 2 {
        match query_cells(overlay, size.cols, theme) {
            Some(row) => {
                out.push(row);
                list = list - 1;
            },
            None => {},
        }
    }
    assert(lines(out@) =~= title + query);
    assert(list == size.rows - 2 - query.len());
    let mut preview: Vec<Vec<Cell>> = Vec::new();
    assert(lines(preview@) =~= Seq::<Seq<Cell>>::empty());
    match overlay.kind() {
        OverlayKind::Config(config) => {
            if list > PREVIEW_ROWS {
                preview = preview_cells(config, size.cols, theme);
            }
        },
        _ => {},
    }
    assert(lines(preview@) == preview_lines(overlay@, size, theme));
    assert(lines(preview@).len() == preview@.len());
    list = list - preview.len();
    push_list(&mut out, overlay, list, size.cols, theme);
    let ghost above = lines(out@);
    let ghost drawn = lines(preview@);
    for i in 0..preview.len()
        invariant
            drawn == lines(preview@),
            lines(out@) == above + drawn.take(i as int),
    {
        let ghost before = lines(out@);
        let row = crate::cells::copy_cells(preview[i].as_slice());
        out.push(row);
        assert(lines(out@) =~= before.push(row@));
        assert(drawn.take(i + 1) =~= drawn.take(i as int).push(row@));
        assert(lines(out@) =~= above + drawn.take(i + 1));
    }
    assert(drawn.take(preview@.len() as int) =~= drawn);
    let ghost before = lines(out@);
    let hint = hint_cells(overlay, size.cols, theme);
    out.push(hint);
    assert(lines(out@) =~= before.push(hint@));
    assert(lines(out@) =~= overlay_box(overlay@, size, theme));
    out
}

/// A box is exactly as many rows, of exactly as many cells, as was asked for.
pub proof fn a_box_is_exactly_its_size(overlay: OverlayView, size: Size, theme: Theme)
    ensures
        overlay_box(overlay, size, theme).len() == size.rows,
        forall|i: int|
            0 <= i < size.rows ==> (#[trigger] overlay_box(overlay, size, theme)[i]).len()
                == size.cols,
{
    if size.rows >= 2 {
        let query = query_lines(overlay, size, theme);
        let preview = preview_lines(overlay, size, theme);
        let room = list_room(overlay, size, theme);
        assert(preview.len() == 0 || preview.len() == 4);
        assert(room >= 0);
        let list = list_lines(overlay, room as nat, size.cols as nat, theme);
        let all = overlay_box(overlay, size, theme);
        assert(all.len() == 1 + query.len() + list.len() + preview.len() + 1);
        assert forall|i: int| 0 <= i < size.rows implies (#[trigger] all[i]).len() == size.cols by {
            let q = 1 + query.len();
            let l = q + list.len();
            let p = l + preview.len();
            if i == 0 {
            } else if i < q {
                assert(all[i] == query[i - 1]);
            } else if i < l {
                assert(all[i] == list[i - q]);
            } else if i < p {
                assert(all[i] == preview[i - l]);
            }
        }
    }
}

/// A box of two rows or more says how to leave it, whatever else it has room
/// for.
pub proof fn a_box_always_says_how_to_leave(overlay: OverlayView, size: Size, theme: Theme)
    requires
        size.rows >= 2,
    ensures
        overlay_box(overlay, size, theme).last() == row_line(
            hint_row(overlay.kind, theme),
            size.cols as nat,
            theme,
        ),
        overlay.kind.hints().0 == "esc close"@,
{
}

/// The row `offset` rows below `row`, stopping at the last one there is.
pub open spec fn row_below(row: u16, offset: nat) -> u16 {
    if row + offset <= u16::MAX {
        (row + offset) as u16
    } else {
        u16::MAX
    }
}

/// Rows placed one below the other.
pub open spec fn placed(at: Point, rows: Seq<Seq<Cell>>) -> Seq<SpanView> {
    Seq::new(rows.len(), |i: int| placed_row(at, rows, i))
}

/// The `i`th of those rows.
pub open spec fn placed_row(at: Point, rows: Seq<Seq<Cell>>, i: int) -> SpanView {
    SpanView { at: Point { col: at.col, row: row_below(at.row, i as nat) }, cells: rows[i] }
}

/// The overlay box as positioned spans; `at` is its top-left corner.
pub fn overlay_spans(at: Point, overlay: &Overlay, size: Size, theme: Theme) -> (spans: Vec<Span>)
    requires
        overlay.wf(),
    ensures
        span_views(spans@) == placed(at, overlay_box(overlay@, size, theme)),
{
    let rows = overlay_cells(overlay, size, theme);
    let ghost drawn = lines(rows@);
    let mut spans: Vec<Span> = Vec::new();
    let mut row: u16 = at.row;
    assert(span_views(spans@) =~= placed(at, drawn).take(0));
    for i in 0..rows.len()
        invariant
            drawn == lines(rows@),
            row == row_below(at.row, i as nat),
            span_views(spans@) == placed(at, drawn).take(i as int),
    {
        let cells = crate::cells::copy_cells(rows[i].as_slice());
        let span = Span::new(Point::new(at.col, row), cells);
        let ghost before = span_views(spans@);
        assert(span@ == placed_row(at, drawn, i as int));
        spans.push(span);
        assert(span_views(spans@) =~= before.push(span@));
        assert(placed(at, drawn).take(i + 1) =~= placed(at, drawn).take(i as int).push(
            placed(at, drawn)[i as int],
        ));
        row = row.saturating_add(1);
    }
    assert(placed(at, drawn).take(rows@.len() as int) =~= placed(at, drawn));
    spans
}

/// A row of the screen an overlay is drawn over, dimmed.
pub open spec fn backdrop(cells: Seq<Cell>, theme: Theme) -> Seq<Cell> {
    cells.map_values(|cell: Cell| dimmed_cell(cell, theme))
}

/// Dims one row of the screen an overlay is drawn over: the contrast reduction
/// an unfocused pane takes.
pub fn backdrop_cells(cells: &[Cell], theme: Theme) -> (dimmed: Vec<Cell>)
    ensures
        dimmed@ == backdrop(cells@, theme),
{
    let mut dimmed: Vec<Cell> = Vec::new();
    for i in 0..cells.len()
        invariant
            dimmed@ == backdrop(cells@.take(i as int), theme),
    {
        let ghost before = backdrop(cells@.take(i as int), theme);
        dimmed.push(dim_cell_with_theme(cells[i], theme));
        assert(cells@.take(i + 1) =~= cells@.take(i as int).push(cells@[i as int]));
        assert(backdrop(cells@.take(i + 1), theme) =~= before.push(
            dimmed_cell(cells@[i as int], theme),
        ));
    }
    assert(cells@.take(cells@.len() as int) =~= cells@);
    dimmed
}

/// The dimmed backdrop as a positioned span.
pub fn backdrop_span(at: Point, cells: &[Cell], theme: Theme) -> (span: Span)
    ensures
        span@ == (SpanView { at, cells: backdrop(cells@, theme) }),
{
    Span::new(at, backdrop_cells(cells, theme))
}

/// A backdrop changes no character.
pub proof fn a_backdrop_keeps_characters(cells: Seq<Cell>, theme: Theme)
    ensures
        crate::cells::text_of(backdrop(cells, theme)) == crate::cells::text_of(cells),
{
    assert forall|i: int| 0 <= i < cells.len() implies (#[trigger] backdrop(cells, theme)[i]).ch
        == cells[i].ch by {
        crate::chrome::dimming_keeps_characters(cells[i], theme);
    }
    assert(crate::cells::text_of(backdrop(cells, theme)) =~= crate::cells::text_of(cells));
}

// What every overlay keeps.

/// Dismissal closes an overlay from every state, an empty one's included.
pub proof fn every_overlay_can_be_dismissed(overlay: OverlayView)
    ensures
        overlay.applied(OverlayAction::Dismiss).1 == OutcomeView::Dismissed,
        overlay.queue_applied(QueueAction::Dismiss).1 == OutcomeView::Dismissed,
        overlay.kind is Palette ==> overlay.palette_applied(PaletteAction::Dismiss).1
            == OutcomeView::Dismissed,
{
}

/// An empty list acts on nothing: it confirms and acknowledges to nothing. The
/// configuration surface always lists the preferences, so it is never empty.
pub proof fn an_empty_list_acts_on_nothing(overlay: OverlayView)
    requires
        overlay.kind.len() == 0,
        overlay.kind !is Config,
    ensures
        overlay.kind.confirmed(overlay.selected) == OutcomeView::Open,
        overlay.kind.acknowledged(overlay.selected) == OutcomeView::Open,
{
    match overlay.kind {
        KindView::Details(details) => {
            assert(detail_fields(details).len() >= 5);
        },
        _ => {},
    }
}

/// A cursor stays on the list, whatever is asked of the overlay.
pub proof fn the_cursor_stays_on_the_list(overlay: OverlayView, query: Seq<char>)
    requires
        overlay.in_range(),
    ensures
        overlay.next().in_range(),
        overlay.prev().in_range(),
        overlay.first().in_range(),
        overlay.last().in_range(),
        overlay.asked(query).in_range(),
{
    match overlay.kind {
        KindView::Palette(palette) => {
            if overlay.selected < palette.matches().len() {
                first_where_found(
                    palette.asked(query).matches(),
                    |at: nat| at == palette.matches()[overlay.selected as int],
                );
            }
        },
        _ => {},
    }
}

/// Editing the query keeps the cursor on the command it was on, wherever that
/// command is now listed.
pub proof fn editing_keeps_the_command(palette: PaletteView, selected: nat, query: Seq<char>)
    requires
        selected < palette.matches().len(),
        palette.asked(query).matches().contains(palette.matches()[selected as int]),
    ensures
        ({
            let after = (OverlayView { kind: KindView::Palette(palette), selected }).asked(query);
            &&& after.selected < palette.asked(query).matches().len()
            &&& palette.asked(query).matches()[after.selected as int]
                == palette.matches()[selected as int]
        }),
{
    let wanted = |at: nat| at == palette.matches()[selected as int];
    let after = palette.asked(query).matches();
    first_where_found(after, wanted);
    let k = choose|k: int| 0 <= k < after.len() && after[k] == palette.matches()[selected as int];
    assert(wanted(after[k]));
}

/// A newer projection keeps the cursor on the pane it was on, wherever that
/// pane is now listed.
pub proof fn refreshing_keeps_the_pane(
    current: Seq<WaitingView>,
    selected: nat,
    entries: Seq<WaitingView>,
    at: int,
)
    requires
        selected < current.len(),
        0 <= at < entries.len(),
        entries[at].pane == current[selected as int].pane,
    ensures
        ({
            let after = (OverlayView {
                kind: KindView::Attention(current),
                selected,
            }).attention_refreshed(entries);
            &&& after.selected < entries.len()
            &&& entries[after.selected as int].pane == current[selected as int].pane
        }),
{
    let wanted = |entry: WaitingView| entry.pane == current[selected as int].pane;
    first_where_found(entries, wanted);
    assert(wanted(entries[at]));
}

/// A launch names a profile that was on the list, and that list holds only
/// profiles that validate.
pub proof fn a_launch_names_a_configured_profile(profiles: Seq<Profile>, selected: nat) -> (at: int)
    requires
        KindView::Launcher(launchable(profiles)).confirmed(selected) is Launch,
    ensures
        0 <= at < profiles.len(),
        profiles[at].valid,
        KindView::Launcher(launchable(profiles)).confirmed(selected) == OutcomeView::Launch(
            RequestView {
                profile: profiles[at].id@,
                default_name: profiles[at].default_name@,
            },
        ),
{
    crate::launch::every_row_comes_from_a_profile(profiles, selected as int)
}

/// Confirming never acts on anything the user typed: a palette row runs an
/// action its chord is bound to, or opens one of the client's own surfaces.
pub proof fn a_palette_row_confirms_to_a_command(palette: PaletteView, selected: nat) -> (at: int)
    requires
        selected < palette.matches().len(),
    ensures
        0 <= at < palette.commands.len(),
        KindView::Palette(palette).confirmed(selected) == match palette.commands[at].outcome {
            CommandOutcome::Run(action) => OutcomeView::RunAction(action),
            CommandOutcome::Open(surface) => OutcomeView::OpenSurface(surface),
        },
{
    crate::commands::hits_are_positions(palette.commands, palette.query, palette.commands.len());
    palette.matches()[selected as int] as int
}

/// The configuration surface reports and never acts: whatever is done to it,
/// it stays as it is or closes.
pub proof fn the_configuration_surface_only_reports(overlay: OverlayView, action: OverlayAction)
    requires
        overlay.kind is Config,
    ensures
        overlay.applied(action).0.kind == overlay.kind,
        overlay.applied(action).1 is Open || overlay.applied(action).1 is Dismissed,
{
}

} // verus!
