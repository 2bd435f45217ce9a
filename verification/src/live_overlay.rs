//! Opening the client's own surfaces over its projection, and what the keyboard
//! does while one is open.

use vstd::prelude::*;

use crate::attention::Attention;
use crate::commands::{palette_of, surface_for};
use crate::keymap::Keymap;
use crate::keys::{
    overlay_action, overlay_action_of, palette_actions, palette_edits, queue_action,
    queue_action_of, PaletteAction,
};
use crate::launch::{launchable, RequestView};
use crate::live::{attention, named_rows, LiveState, LiveView};
use crate::overlay::{
    opened, session_views, ClientSurface, KindView, LaunchRequest, OutcomeView, Overlay,
    OverlayKind, OverlayOutcome, OverlayView, PaneDetails, SessionEntry, SocketPath, HELP_KEY,
};
use crate::panes::lookup;
use crate::proto::{Action, PaneId};
use crate::settings::{config_of, ConfigPreview};

verus! {

/// What an open overlay did with one chunk of keyboard bytes.
#[derive(Debug, PartialEq, Eq)]
pub enum OverlayKeys {
    /// Not an overlay action, or no overlay open.
    Ignored,
    /// The overlay handled it, and nothing crosses the wire.
    Consumed,
    /// The overlay closed on a confirmed profile.
    Launch(LaunchRequest),
    /// The overlay produced one typed session action to send.
    Command(Action),
    /// The switcher confirmed one independently verified socket.
    SwitchSession(SocketPath),
}

/// What an overlay did with keyboard bytes, by its contents.
#[verifier::ext_equal]
pub enum OverlayKeysView {
    Ignored,
    Consumed,
    Launch(RequestView),
    Command(Action),
    SwitchSession(Seq<u8>),
}

impl View for OverlayKeys {
    type V = OverlayKeysView;

    open spec fn view(&self) -> OverlayKeysView {
        match self {
            OverlayKeys::Ignored => OverlayKeysView::Ignored,
            OverlayKeys::Consumed => OverlayKeysView::Consumed,
            OverlayKeys::Launch(request) => OverlayKeysView::Launch(request@),
            OverlayKeys::Command(action) => OverlayKeysView::Command(*action),
            OverlayKeys::SwitchSession(socket) => OverlayKeysView::SwitchSession(socket@),
        }
    }
}

impl OverlayKeys {
    /// Whether these keys were the overlay's and must not reach a pane.
    pub fn consumed(&self) -> (consumed: bool)
        ensures
            consumed == (self@ !is Ignored),
    {
        match self {
            OverlayKeys::Ignored => false,
            _ => true,
        }
    }
}

/// An overlay after a run of palette edits: the first outcome that is not
/// `Open` ends the run.
pub open spec fn edits_applied(overlay: OverlayView, edits: Seq<PaletteAction>) -> (
    OverlayView,
    OutcomeView,
)
    decreases edits.len(),
{
    if edits.len() == 0 {
        (overlay, OutcomeView::Open)
    } else {
        let (next, outcome) = overlay.palette_applied(edits[0]);
        if outcome is Open {
            edits_applied(next, edits.drop_first())
        } else {
            (next, outcome)
        }
    }
}

/// An overlay after one chunk of keyboard bytes, and what that did. Nothing
/// where the keys spell nothing the surface knows; a palette answers even to
/// keys it cannot use.
pub open spec fn keyed(overlay: OverlayView, keys: Seq<u8>) -> Option<(OverlayView, OutcomeView)> {
    match overlay.kind {
        KindView::Attention(_) => match queue_action_of(keys) {
            Some(action) => Some(overlay.queue_applied(action)),
            None => None,
        },
        KindView::Palette(_) => Some(edits_applied(overlay, palette_edits(keys))),
        _ => match overlay_action_of(keys) {
            Some(action) => Some(overlay.applied(action)),
            None => None,
        },
    }
}

impl LiveView {
    /// The state a pane is shown with.
    pub open spec fn state_of(self, pane: PaneId) -> Attention {
        match lookup(self.attention, pane) {
            Some(state) => attention(state.state),
            None => Attention::Unknown,
        }
    }

    /// One client-local surface over what this client has cached. Details need
    /// a focused pane the server told about.
    pub open spec fn surface(self, surface: ClientSurface) -> Option<KindView> {
        match surface {
            ClientSurface::Launcher => Some(KindView::Launcher(launchable(self.profiles))),
            ClientSurface::Sessions => Some(KindView::Sessions(self.sessions)),
            ClientSurface::Attention => Some(
                KindView::Attention(named_rows(self.panes, self.queue.entries)),
            ),
            ClientSurface::Details => match self.focused() {
                Some(pane) => match lookup(self.panes, pane) {
                    Some(info) => Some(
                        KindView::Details(
                            PaneDetails {
                                pane: info.pane,
                                profile: info.profile,
                                name: info.name,
                                task: info.task,
                                cwd: info.cwd,
                                attention: self.state_of(pane),
                            },
                        ),
                    ),
                    None => None,
                },
                None => None,
            },
            ClientSurface::Config => Some(
                KindView::Config(config_of(self.visual, self.prefix, self.swatches)),
            ),
        }
    }

    /// The surface an otherwise unbound prefix chord opens.
    pub open spec fn opening(self, chord: Seq<u8>, keymap: Keymap) -> Option<KindView> {
        if chord.len() != 1 {
            None
        } else if chord[0] as char == HELP_KEY {
            Some(KindView::Palette(palette_of(keymap)))
        } else {
            match surface_for(chord[0] as char) {
                Some(surface) => self.surface(surface),
                None => None,
            }
        }
    }

    /// This projection with an overlay, or without one.
    pub open spec fn showing(self, overlay: Option<OverlayView>) -> LiveView {
        LiveView { overlay, ..self }
    }

    /// This projection after one chunk of keyboard bytes went to the open
    /// overlay, and what is left for the caller to do.
    pub open spec fn overlay_keyed(self, keys: Seq<u8>) -> (LiveView, OverlayKeysView) {
        match self.overlay {
            None => (self, OverlayKeysView::Ignored),
            Some(overlay) => match keyed(overlay, keys) {
                None => (self, OverlayKeysView::Ignored),
                Some((next, outcome)) => match outcome {
                    OutcomeView::Open => (self.showing(Some(next)), OverlayKeysView::Consumed),
                    OutcomeView::Dismissed => (self.showing(None), OverlayKeysView::Consumed),
                    OutcomeView::SwitchSession(socket) => (
                        self.showing(Some(next)),
                        OverlayKeysView::SwitchSession(socket),
                    ),
                    OutcomeView::Launch(request) => (
                        self.showing(None),
                        OverlayKeysView::Launch(request),
                    ),
                    OutcomeView::RunAction(action) => (
                        self.showing(None),
                        OverlayKeysView::Command(action),
                    ),
                    OutcomeView::OpenSurface(surface) => (
                        self.showing(
                            match self.surface(surface) {
                                Some(kind) => Some(opened(kind)),
                                None => Some(next),
                            },
                        ),
                        OverlayKeysView::Consumed,
                    ),
                    OutcomeView::FocusPane(pane) => (
                        self.showing(None),
                        OverlayKeysView::Command(Action::FocusPane(pane)),
                    ),
                    OutcomeView::Acknowledge(pane) => (
                        self.showing(Some(next)),
                        OverlayKeysView::Command(Action::AcknowledgeAttention(pane)),
                    ),
                },
            },
        }
    }
}

/// A run of palette edits on an open overlay.
fn apply_edits(overlay: &mut Overlay, edits: Vec<PaletteAction>) -> (outcome: OverlayOutcome)
    requires
        old(overlay).wf(),
    ensures
        final(overlay).wf(),
        (final(overlay)@, outcome@) == edits_applied(old(overlay)@, edits@),
{
    let ghost whole = edits_applied(overlay@, edits@);
    assert(edits@.skip(0) =~= edits@);
    let mut i: usize = 0;
    while i < edits.len()
        invariant
            i <= edits@.len(),
            overlay.wf(),
            whole == edits_applied(old(overlay)@, edits@),
            whole == edits_applied(overlay@, edits@.skip(i as int)),
        decreases edits@.len() - i,
    {
        assert(edits@.skip(i as int).drop_first() =~= edits@.skip(i + 1));
        let outcome = overlay.apply_palette(edits[i]);
        match outcome {
            OverlayOutcome::Open => {},
            _ => {
                return outcome;
            },
        }
        i = i + 1;
    }
    assert(edits@.skip(i as int) =~= Seq::<PaletteAction>::empty());
    OverlayOutcome::Open
}

/// One chunk of keyboard bytes on an open overlay.
fn apply_keys(overlay: &mut Overlay, keys: &[u8]) -> (outcome: Option<OverlayOutcome>)
    requires
        old(overlay).wf(),
    ensures
        final(overlay).wf(),
        match outcome {
            Some(done) => keyed(old(overlay)@, keys@) == Some((final(overlay)@, done@)),
            None => keyed(old(overlay)@, keys@) is None && final(overlay)@ == old(overlay)@,
        },
{
    let (is_queue, is_palette) = match overlay.kind() {
        OverlayKind::Attention(_) => (true, false),
        OverlayKind::Palette(_) => (false, true),
        _ => (false, false),
    };
    if is_queue {
        match queue_action(keys) {
            Some(action) => Some(overlay.apply_queue(action)),
            None => None,
        }
    } else if is_palette {
        let edits = palette_actions(keys);
        Some(apply_edits(overlay, edits))
    } else {
        match overlay_action(keys) {
            Some(action) => Some(overlay.apply(action)),
            None => None,
        }
    }
}

impl LiveState {
    /// Builds one client-local surface out of the state this client has cached.
    pub fn surface(&self, surface: ClientSurface) -> (overlay: Option<Overlay>)
        requires
            self.wf(),
        ensures
            match overlay {
                Some(built) => built.wf() && self@.surface(surface) is Some && built@ == opened(
                    self@.surface(surface)->0,
                ),
                None => self@.surface(surface) is None,
            },
    {
        match surface {
            ClientSurface::Launcher => Some(Overlay::launcher(self.profiles.as_slice())),
            ClientSurface::Sessions => {
                let mut rows: Vec<SessionEntry> = Vec::new();
                for i in 0..self.sessions.len()
                    invariant
                        session_views(rows@) == session_views(self.sessions@).take(i as int),
                {
                    let ghost before = session_views(rows@);
                    let row = self.sessions[i].clone();
                    rows.push(row);
                    assert(session_views(rows@) =~= before.push(row@));
                    assert(session_views(self.sessions@).take(i + 1) =~= before.push(
                        session_views(self.sessions@)[i as int],
                    ));
                }
                assert(session_views(self.sessions@).take(self.sessions@.len() as int)
                    =~= session_views(self.sessions@));
                Some(Overlay::sessions(rows))
            },
            ClientSurface::Attention => Some(Overlay::attention(self.attention_entries())),
            ClientSurface::Details => {
                let pane = match &self.layout {
                    Some(layout) => match layout.focused {
                        Some(pane) => pane,
                        None => {
                            return None;
                        },
                    },
                    None => {
                        return None;
                    },
                };
                match self.panes.get(pane) {
                    Some(info) => Some(
                        Overlay::details(PaneDetails::from_info(info, self.state_of(pane))),
                    ),
                    None => None,
                }
            },
            ClientSurface::Config => Some(
                Overlay::config(
                    ConfigPreview::new(self.visual, self.prefix.as_str(), self.swatches),
                ),
            ),
        }
    }

    /// The state a pane is shown with.
    pub fn state_of(&self, pane: PaneId) -> (state: Attention)
        ensures
            state == self@.state_of(pane),
    {
        match self.attention.get(pane) {
            Some(state) => attention(state.state),
            None => Attention::Unknown,
        }
    }

    /// Starts a client-local overlay after an otherwise unbound prefix chord,
    /// reporting whether the chord opens one.
    pub fn open_overlay(&mut self, chord: &[u8], keymap: &Keymap) -> (opens: bool)
        requires
            old(self).wf(),
        ensures
            final(self).wf(),
            opens == (old(self)@.opening(chord@, *keymap) is Some),
            final(self)@ == match old(self)@.opening(chord@, *keymap) {
                Some(kind) => old(self)@.showing(Some(opened(kind))),
                None => old(self)@,
            },
    {
        if chord.len() != 1 {
            return false;
        }
        let key: char = chord[0] as char;
        let next: Option<Overlay> = if key == HELP_KEY {
            Some(Overlay::palette(keymap))
        } else {
            match ClientSurface::from_key(key) {
                Some(surface) => self.surface(surface),
                None => None,
            }
        };
        match next {
            Some(overlay) => {
                self.overlay = Some(overlay);
                true
            },
            None => false,
        }
    }

    /// Applies an open overlay's own keyboard vocabulary. Every key an open
    /// overlay understands is consumed here and never reaches a pane.
    pub fn apply_overlay_keys(&mut self, keys: &[u8]) -> (done: OverlayKeys)
        requires
            old(self).wf(),
        ensures
            final(self).wf(),
            (final(self)@, done@) == old(self)@.overlay_keyed(keys@),
    {
        let outcome = match &mut self.overlay {
            None => {
                return OverlayKeys::Ignored;
            },
            Some(overlay) => apply_keys(overlay, keys),
        };
        let done = match outcome {
            None => OverlayKeys::Ignored,
            Some(OverlayOutcome::Open) => OverlayKeys::Consumed,
            Some(OverlayOutcome::Dismissed) => {
                self.overlay = None;
                OverlayKeys::Consumed
            },
            Some(OverlayOutcome::SwitchSession(socket)) => OverlayKeys::SwitchSession(socket),
            Some(OverlayOutcome::Launch(request)) => {
                self.overlay = None;
                OverlayKeys::Launch(request)
            },
            Some(OverlayOutcome::RunAction(action)) => {
                self.overlay = None;
                OverlayKeys::Command(action)
            },
            Some(OverlayOutcome::OpenSurface(surface)) => {
                match self.surface(surface) {
                    Some(next) => {
                        self.overlay = Some(next);
                    },
                    None => {},
                }
                OverlayKeys::Consumed
            },
            Some(OverlayOutcome::FocusPane(pane)) => {
                self.overlay = None;
                OverlayKeys::Command(Action::FocusPane(pane))
            },
            Some(OverlayOutcome::Acknowledge(pane)) => OverlayKeys::Command(
                Action::AcknowledgeAttention(pane),
            ),
        };
        assert(self@ =~= old(self)@.overlay_keyed(keys@).0);
        done
    }
}

/// Whatever an open palette is typed, it keeps: no byte of a query is left for
/// a pane.
pub proof fn a_palette_keeps_every_key(state: LiveView, keys: Seq<u8>)
    requires
        state.overlay matches Some(overlay) && overlay.kind is Palette,
    ensures
        state.overlay_keyed(keys).1 !is Ignored,
{
}

/// Without an open overlay no key is kept from the pane, whatever notices are
/// showing.
pub proof fn a_notice_has_no_keyboard(state: LiveView, keys: Seq<u8>)
    requires
        state.overlay is None,
    ensures
        state.overlay_keyed(keys) == (state, OverlayKeysView::Ignored),
{
}

/// Acknowledging a row leaves the queue open and its rows as they are: the row
/// leaves when the server's projection says it has.
pub proof fn acknowledging_hides_nothing(state: LiveView, keys: Seq<u8>, pane: PaneId)
    requires
        state.overlay matches Some(overlay) && overlay.kind is Attention,
        state.overlay_keyed(keys).1 == OverlayKeysView::Command(Action::AcknowledgeAttention(pane)),
    ensures
        state.overlay_keyed(keys).0 == state,
{
    match state.overlay {
        Some(overlay) => {
            assert(state.showing(Some(overlay)) =~= state);
        },
        None => {},
    }
}

} // verus!
