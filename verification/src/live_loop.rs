//! The attached client's loop, one step at a time: what each thing that can
//! happen does to the client, and what is left to do outside.

use vstd::prelude::*;

use crate::attach::copy_tabs;
use crate::effects::{effect_bytes, framed, permitted_payload, EffectPolicy};
use crate::input::{InputDecoder, InputEvent, Reading};
use crate::keymap::Keymap;
use crate::keys::KeyRouter;
use crate::launch::notice_linger;
use crate::live::{
    session_size, text_view, CatalogEntry, Divider, Edges, LiveState, LiveView,
};
use crate::motion::{Motion, MotionKind, Phase};
use crate::overlay::SocketPath;
use crate::proto::{ClientMessage, ClientMessageView, ServerMessage, Size, TabSummary, TermCaps};
use crate::renderer::RenderError;
use crate::routing::{route_keys, typed, RouteOutcome, RouteOutcomeView};
use crate::settings::VisualConfig;
use crate::status_bar::RepositoryStatus;
use crate::text::same_text;
use crate::theme::Theme;
use crate::time::{Duration, Instant};
use crate::toast::{all_ticked, any_advances, toast_lifetime, unexpired, DeckView};

verus! {

/// How often an open session switcher verifies its catalog again.
#[verifier::allow_in_spec]
pub fn session_refresh_interval() -> Duration
    returns
        (Duration { nanos: 1_000_000_000 }),
{
    Duration::from_secs(1)
}

/// Everything one attached client keeps between the things that happen to it.
#[derive(Debug)]
pub struct LiveLoop {
    pub state: LiveState,
    pub keys: KeyRouter,
    pub decoder: InputDecoder,
    pub motion: Motion,
    pub phase: Option<Phase>,
    /// Whether the frame has to be drawn again.
    pub dirty: bool,
    /// Whether the client asked to leave and waits for the answer.
    pub detaching: bool,
    pub input_open: bool,
    pub catalog_refreshing: bool,
    pub catalog_refreshed: Option<Instant>,
    /// The directories a repository answer is under way for.
    pub repository_refreshing: Vec<String>,
    /// The directory last answered for, and when.
    pub repository_refreshed: Option<(String, Instant)>,
    /// How long a repository answer stays current.
    pub repository_interval: Duration,
    pub path: SocketPath,
    pub caps: TermCaps,
    pub policy: EffectPolicy,
}

/// The loop by its contents.
#[verifier::ext_equal]
pub struct LoopView {
    pub state: LiveView,
    pub keymap: Keymap,
    pub pending: bool,
    pub motion: Motion,
    pub phase: Option<Phase>,
    pub dirty: bool,
    pub detaching: bool,
    pub input_open: bool,
    pub catalog_refreshing: bool,
    pub catalog_refreshed: Option<Instant>,
    pub repository_refreshing: Seq<Seq<char>>,
    pub repository_refreshed: Option<(Seq<char>, Instant)>,
    pub repository_interval: Duration,
    pub path: Seq<u8>,
    pub caps: TermCaps,
    pub policy: EffectPolicy,
}

/// Directories by their contents.
pub open spec fn directories(list: Seq<String>) -> Seq<Seq<char>> {
    list.map_values(|directory: String| directory@)
}

/// A dated directory by its contents.
pub open spec fn dated(answer: Option<(String, Instant)>) -> Option<(Seq<char>, Instant)> {
    match answer {
        Some((directory, at)) => Some((directory@, at)),
        None => None,
    }
}

impl View for LiveLoop {
    type V = LoopView;

    open spec fn view(&self) -> LoopView {
        LoopView {
            state: self.state@,
            keymap: self.keys.keymap,
            pending: self.keys.pending,
            motion: self.motion,
            phase: self.phase,
            dirty: self.dirty,
            detaching: self.detaching,
            input_open: self.input_open,
            catalog_refreshing: self.catalog_refreshing,
            catalog_refreshed: self.catalog_refreshed,
            repository_refreshing: directories(self.repository_refreshing@),
            repository_refreshed: dated(self.repository_refreshed),
            repository_interval: self.repository_interval,
            path: self.path@,
            caps: self.caps,
            policy: self.policy,
        }
    }
}

/// What is left to do outside after a server message.
#[derive(Debug, PartialEq, Eq)]
pub enum ServerStep {
    /// Asking about a directory's repository, and measuring the share a moved
    /// divider now leaves, where there is one.
    Continue { ask: Option<String>, measure: Option<Divider> },
    /// Writing these bytes to the outer terminal.
    Write(Vec<u8>),
    /// Resolving this client's configuration again.
    Reload(u64),
    /// Leaving with this status, drawing the last frame first where it is due.
    Exit { status: i32, draw: bool },
}

/// What is left to do, by its contents.
#[verifier::ext_equal]
pub enum ServerStepView {
    Continue { ask: Option<Seq<char>>, measure: Option<Divider> },
    Write(Seq<u8>),
    Reload(u64),
    Exit { status: i32, draw: bool },
}

impl View for ServerStep {
    type V = ServerStepView;

    open spec fn view(&self) -> ServerStepView {
        match self {
            ServerStep::Continue { ask, measure } => ServerStepView::Continue {
                ask: text_view(*ask),
                measure: *measure,
            },
            ServerStep::Write(bytes) => ServerStepView::Write(bytes@),
            ServerStep::Reload(revision) => ServerStepView::Reload(*revision),
            ServerStep::Exit { status, draw } => ServerStepView::Exit {
                status: *status,
                draw: *draw,
            },
        }
    }
}

/// What is left to do after a render tick.
#[derive(Debug, PartialEq, Eq)]
pub struct FrameStep {
    pub send: Vec<ClientMessage>,
    pub ask: Option<String>,
    pub refresh_catalog: bool,
    pub draw: bool,
}

/// The entries of `list` other than `wanted`.
pub open spec fn others(list: Seq<Seq<char>>, wanted: Seq<char>) -> Seq<Seq<char>>
    decreases list.len(),
{
    if list.len() == 0 {
        seq![]
    } else {
        let rest = others(list.drop_last(), wanted);
        if list.last() != wanted {
            rest.push(list.last())
        } else {
            rest
        }
    }
}

impl LoopView {
    /// This loop with a transition in flight.
    pub open spec fn started(self, kind: MotionKind, now: Instant) -> LoopView {
        let (motion, phase) = self.motion.started(kind, now);
        LoopView { motion, phase: Some(phase), ..self }
    }

    /// This loop with any transition at its end state.
    pub open spec fn interrupted(self) -> LoopView {
        LoopView {
            motion: Motion { active: None, ..self.motion },
            phase: match self.motion.active {
                Some(active) => Some(Phase::settled(active.kind)),
                None => self.phase,
            },
            ..self
        }
    }

    /// This loop once a repository answer about `directory` is wanted, and
    /// whether it has to be asked for.
    pub open spec fn asking(self, directory: Seq<char>) -> (LoopView, bool) {
        if self.repository_refreshing.contains(directory) {
            (self, false)
        } else {
            (
                LoopView {
                    repository_refreshing: self.repository_refreshing.push(directory),
                    ..self
                },
                true,
            )
        }
    }

    /// This loop once a message changed the projection, or not. `tabs` are the
    /// session's tabs as the attachment now has them.
    pub open spec fn heard(self, message: ServerMessage, tabs: Seq<TabSummary>, now: Instant) -> LoopView {
        let (applied, result) = self.state.applied(message, now);
        LoopView {
            state: LiveView { tabs, ..applied },
            dirty: self.dirty || result == Ok::<bool, RenderError>(true),
            ..self
        }
    }

    /// This loop once the focused directory may have changed, and the
    /// directory to ask about.
    pub open spec fn retargeted(self) -> (LoopView, Option<Seq<char>>) {
        let (state, target) = self.state.retargeted();
        let next = LoopView { state, ..self };
        match target {
            Some(directory) => {
                let (asked, asks) = (LoopView { repository_refreshed: None, ..next }).asking(
                    directory,
                );
                (
                    asked,
                    if asks {
                        Some(directory)
                    } else {
                        None
                    },
                )
            },
            None => (next, None),
        }
    }

    /// This loop once a transition begins, where one does.
    pub open spec fn stirred(self, transition: Option<MotionKind>, now: Instant) -> LoopView {
        match transition {
            Some(kind) => LoopView { dirty: true, ..self.started(kind, now) },
            None => self,
        }
    }

    /// This loop after a message that is part of the attached stream.
    pub open spec fn told(self, message: ServerMessage, tabs: Seq<TabSummary>, now: Instant) -> (
        LoopView,
        Option<Seq<char>>,
    ) {
        let (next, ask) = self.heard(message, tabs, now).retargeted();
        (next.stirred(self.state.transition_for(message), now), ask)
    }

    /// Whether the open overlay is the session switcher.
    pub open spec fn switcher_open(self) -> bool {
        self.state.overlay matches Some(overlay) && overlay.kind is Sessions
    }

    /// This loop once typed input was routed, and whether the session catalog
    /// has to be verified again.
    pub open spec fn typed_through(self, overlay_was_open: bool, now: Instant) -> (LoopView, bool) {
        let moved = self.routed_keys(overlay_was_open, now);
        if moved.switcher_open() && !moved.catalog_refreshing {
            (LoopView { catalog_refreshing: true, ..moved }, true)
        } else {
            (moved, false)
        }
    }

    /// This loop once typed keys were routed: the frame has to be drawn again,
    /// and an overlay that opened or closed starts a transition.
    pub open spec fn routed_keys(self, overlay_was_open: bool, now: Instant) -> LoopView {
        let shown = LoopView {
            state: LiveView { prefix_pending: self.pending, ..self.state },
            dirty: true,
            ..self
        };
        if overlay_was_open != (self.state.overlay is Some) {
            shown.started(MotionKind::Overlay, now)
        } else {
            shown
        }
    }

    /// This loop once the outcome of routing was taken on: leaving waits for
    /// the answer, and a switch to this session itself closes the overlay.
    pub open spec fn outcome_taken(self, outcome: RouteOutcomeView) -> LoopView {
        match outcome {
            RouteOutcomeView::Continue => self,
            RouteOutcomeView::Detach => LoopView { detaching: true, ..self },
            RouteOutcomeView::Switch(socket) => if socket == self.path {
                LoopView { state: self.state.showing(None), ..self }
            } else {
                self
            },
        }
    }

    /// Whether a directory's repository answer is due again.
    pub open spec fn repository_due(self, now: Instant) -> bool {
        match self.state.repository_target {
            Some(target) => !self.repository_refreshing.contains(target)
                && match self.repository_refreshed {
                Some((directory, last)) => directory != target || now.saturating_duration_since(
                    last,
                ).nanos >= self.repository_interval.nanos,
                None => true,
            },
            None => false,
        }
    }

    /// Whether an open switcher's catalog is due again.
    pub open spec fn catalog_due(self, now: Instant) -> bool {
        self.switcher_open() && !self.catalog_refreshing && match self.catalog_refreshed {
            Some(last) => now.saturating_duration_since(last).nanos
                >= session_refresh_interval().nanos,
            None => true,
        }
    }

    /// This loop once keys held back were released at a render tick. A lone
    /// escape cannot confirm a switch.
    pub open spec fn released(self, held: Option<Seq<u8>>, edges: Edges, now: Instant) -> (
        LoopView,
        Seq<ClientMessageView>,
    ) {
        match held {
            None => (self, seq![]),
            Some(keys) => {
                let still = self.interrupted();
                let (state, pending, routed) = typed(
                    still.state,
                    still.keymap,
                    still.pending,
                    keys,
                    edges,
                    now,
                );
                let after = LoopView {
                    state,
                    pending,
                    detaching: still.detaching || routed.outcome is Detach,
                    ..still
                };
                (after.routed_keys(self.state.overlay is Some, now), routed.send)
            },
        }
    }

    /// This loop after its motion advanced.
    pub open spec fn moved(self, now: Instant) -> LoopView {
        let (motion, next) = self.motion.ticked(now);
        match next {
            Some(phase) => LoopView { motion, phase: Some(phase), dirty: true, ..self },
            None => LoopView { motion, ..self },
        }
    }

    /// This loop with the clock's reading.
    pub open spec fn clocked(self, clock: Option<Seq<char>>) -> LoopView {
        LoopView {
            dirty: self.dirty || self.state.clock != clock,
            state: LiveView { clock, ..self.state },
            ..self
        }
    }

    /// This loop once answers that are due again were asked for.
    pub open spec fn refreshing(self, now: Instant) -> LoopView {
        let asked = if self.repository_due(now) {
            self.asking(self.state.repository_target->0).0
        } else {
            self
        };
        if asked.catalog_due(now) {
            LoopView { catalog_refreshing: true, ..asked }
        } else {
            asked
        }
    }

    /// This loop after its transient surfaces advanced.
    pub open spec fn ticked(self, now: Instant) -> LoopView {
        let (launch, said) = self.state.launch_ticked(now);
        let kept = unexpired(launch.toasts.toasts, now);
        let toasted = LiveView {
            toasts: DeckView { toasts: all_ticked(kept, now), ..launch.toasts },
            ..launch
        };
        let over = toasted.resize_over(now);
        LoopView {
            state: if over {
                LiveView { resize: None, ..toasted }
            } else {
                toasted
            },
            dirty: self.dirty || said || kept.len() != launch.toasts.toasts.len() || any_advances(
                kept,
                now,
            ) || over,
            ..self
        }
    }

    /// This loop once the answer about a directory came.
    pub open spec fn answered(self, directory: Seq<char>, repository: Option<RepositoryStatus>, now: Instant) -> LoopView {
        let wanted = self.state.wants_answer(directory);
        LoopView {
            repository_refreshing: others(self.repository_refreshing, directory),
            repository_refreshed: if self.state.repository_target == Some(directory) {
                Some((directory, now))
            } else {
                self.repository_refreshed
            },
            dirty: self.dirty || (wanted && self.state.repository
                != crate::live::repository_view(repository)),
            state: if wanted {
                LiveView {
                    repository: crate::live::repository_view(repository),
                    ..self.state
                }
            } else {
                self.state
            },
            ..self
        }
    }
}

impl LiveLoop {
    /// The projection keeps its rules.
    pub open spec fn wf(&self) -> bool {
        self.state.wf()
    }

    /// A loop that has drawn nothing yet.
    pub fn new(
        state: LiveState,
        keys: KeyRouter,
        decoder: InputDecoder,
        path: SocketPath,
        caps: TermCaps,
        policy: EffectPolicy,
        repository_interval: Duration,
    ) -> (made: LiveLoop)
        requires
            state.wf(),
        ensures
            made.wf(),
            made.decoder == decoder,
            made@ == (LoopView {
                state: state@,
                keymap: keys.keymap,
                pending: keys.pending,
                motion: Motion::new(crate::motion::MotionSettings::from_visual(state@.visual)),
                phase: None,
                dirty: true,
                detaching: false,
                input_open: true,
                catalog_refreshing: false,
                catalog_refreshed: None,
                repository_refreshing: seq![],
                repository_refreshed: None,
                repository_interval,
                path: path@,
                caps,
                policy,
            }),
    {
        let motion = Motion::new(state.motion_settings());
        let made = LiveLoop {
            state,
            keys,
            decoder,
            motion,
            phase: None,
            dirty: true,
            detaching: false,
            input_open: true,
            catalog_refreshing: false,
            catalog_refreshed: None,
            repository_refreshing: Vec::new(),
            repository_refreshed: None,
            repository_interval,
            path,
            caps,
            policy,
        };
        assert(made@.repository_refreshing =~= seq![]);
        made
    }

    /// Starts a transition.
    fn start(&mut self, kind: MotionKind, now: Instant)
        ensures
            final(self)@ == old(self)@.started(kind, now),
            *final(self) == (LiveLoop {
                motion: final(self).motion,
                phase: final(self).phase,
                ..*old(self)
            }),
    {
        let mut motion = self.motion;
        let phase = motion.start(kind, now);
        self.motion = motion;
        self.phase = Some(phase);
    }

    /// Ends any transition at its end state.
    pub fn interrupt(&mut self)
        ensures
            final(self)@ == old(self)@.interrupted(),
            *final(self) == (LiveLoop {
                motion: final(self).motion,
                phase: final(self).phase,
                ..*old(self)
            }),
    {
        let mut motion = self.motion;
        let settled = motion.interrupt();
        self.motion = motion;
        match settled {
            Some(phase) => {
                self.phase = Some(phase);
            },
            None => {},
        }
    }

    /// Whether an answer about `directory` is under way.
    fn is_asking(&self, directory: &str) -> (asking: bool)
        ensures
            asking == self@.repository_refreshing.contains(directory@),
    {
        for i in 0..self.repository_refreshing.len()
            invariant
                forall|k: int|
                    0 <= k < i ==> (#[trigger] directories(self.repository_refreshing@)[k])
                        != directory@,
        {
            assert(directories(self.repository_refreshing@)[i as int]
                == self.repository_refreshing@[i as int]@);
            if same_text(self.repository_refreshing[i].as_str(), directory) {
                return true;
            }
        }
        assert(directories(self.repository_refreshing@).len() == self.repository_refreshing@.len());
        false
    }

    /// Notes that an answer about `directory` is wanted, reporting whether it
    /// has to be asked for.
    fn ask(&mut self, directory: &str) -> (asks: bool)
        ensures
            (final(self)@, asks) == old(self)@.asking(directory@),
            *final(self) == (LiveLoop {
                repository_refreshing: final(self).repository_refreshing,
                ..*old(self)
            }),
    {
        if self.is_asking(directory) {
            return false;
        }
        let ghost before = directories(self.repository_refreshing@);
        self.repository_refreshing.push(directory.to_owned());
        assert(directories(self.repository_refreshing@) =~= before.push(directory@));
        true
    }

    /// One framed server message, or the connection's clean close. `tabs` are
    /// the session's tabs as the attachment now has them.
    pub fn server(&mut self, message: Option<ServerMessage>, tabs: &[TabSummary], now: Instant) -> (step:
        Result<ServerStep, RenderError>)
        requires
            old(self).wf(),
            now.nanos + toast_lifetime().nanos <= u64::MAX,
        ensures
            final(self).wf(),
            final(self).decoder == old(self).decoder,
            match message {
                None => final(self)@ == old(self)@ && step == Ok::<ServerStep, RenderError>(
                    ServerStep::Exit { status: 0, draw: false },
                ),
                Some(ServerMessage::Detached) => final(self)@ == old(self)@ && step == Ok::<
                    ServerStep,
                    RenderError,
                >(ServerStep::Exit { status: 0, draw: false }),
                Some(ServerMessage::Exit(status)) => final(self)@ == old(self)@ && step == Ok::<
                    ServerStep,
                    RenderError,
                >(ServerStep::Exit { status, draw: old(self)@.dirty }),
                Some(ServerMessage::Effect { pane, effect }) => final(self)@ == old(self)@
                    && step is Ok && step->Ok_0@ == match permitted_payload(
                    old(self)@.caps,
                    old(self)@.policy,
                    effect,
                ) {
                    Some(payload) => ServerStepView::Write(framed(payload)),
                    None => ServerStepView::Continue { ask: None, measure: None },
                },
                Some(ServerMessage::ConfigReloaded { revision }) => final(self)@ == old(self)@
                    && step is Ok && step->Ok_0@ == if revision
                    > old(self)@.state.config_revision {
                    ServerStepView::Reload(revision)
                } else {
                    ServerStepView::Continue { ask: None, measure: None }
                },
                Some(other) => match old(self)@.state.applied(other, now).1 {
                    Ok(_) => step is Ok && (final(self)@, step->Ok_0@) == (
                        old(self)@.told(other, tabs@, now).0,
                        ServerStepView::Continue {
                            ask: old(self)@.told(other, tabs@, now).1,
                            measure: old(self)@.told(other, tabs@, now).0.state.measuring(other),
                        },
                    ),
                    Err(error) => step == Err::<ServerStep, RenderError>(error) && final(self)@ == (
                    LoopView { state: old(self)@.state.applied(other, now).0, ..old(self)@ }),
                },
            },
    {
        match message {
            None => Ok(ServerStep::Exit { status: 0, draw: false }),
            Some(ServerMessage::Detached) => Ok(ServerStep::Exit { status: 0, draw: false }),
            Some(ServerMessage::Exit(status)) => Ok(
                ServerStep::Exit { status, draw: self.dirty },
            ),
            Some(ServerMessage::Effect { pane: _, effect }) => {
                match effect_bytes(self.caps, self.policy, &effect) {
                    Some(bytes) => Ok(ServerStep::Write(bytes)),
                    None => Ok(ServerStep::Continue { ask: None, measure: None }),
                }
            },
            Some(ServerMessage::ConfigReloaded { revision }) => {
                if self.state.needs_reload(revision) {
                    Ok(ServerStep::Reload(revision))
                } else {
                    Ok(ServerStep::Continue { ask: None, measure: None })
                }
            },
            Some(other) => self.tell(other, tabs, now),
        }
    }

    /// A message that is part of the attached stream.
    fn tell(&mut self, message: ServerMessage, tabs: &[TabSummary], now: Instant) -> (step: Result<
        ServerStep,
        RenderError,
    >)
        requires
            old(self).wf(),
            now.nanos + toast_lifetime().nanos <= u64::MAX,
        ensures
            final(self).wf(),
            final(self).decoder == old(self).decoder,
            match old(self)@.state.applied(message, now).1 {
                Ok(_) => step is Ok && (final(self)@, step->Ok_0@) == (
                    old(self)@.told(message, tabs@, now).0,
                    ServerStepView::Continue {
                        ask: old(self)@.told(message, tabs@, now).1,
                        measure: old(self)@.told(message, tabs@, now).0.state.measuring(message),
                    },
                ),
                Err(error) => step == Err::<ServerStep, RenderError>(error) && final(self)@ == (
                LoopView { state: old(self)@.state.applied(message, now).0, ..old(self)@ }),
            },
    {
        let transition = self.state.transition_for(&message);
        let relaid = match &message {
            ServerMessage::Layout(_) => true,
            _ => false,
        };
        match self.hear(message, tabs, now) {
            Ok(_) => {},
            Err(error) => {
                return Err(error);
            },
        }
        let ask = self.retarget();
        self.stir(transition, now);
        let measure = match self.state.resize {
            Some(resize) => if relaid {
                Some(resize.divider)
            } else {
                None
            },
            None => None,
        };
        Ok(ServerStep::Continue { ask, measure })
    }

    /// Takes a message into the projection.
    fn hear(&mut self, message: ServerMessage, tabs: &[TabSummary], now: Instant) -> (heard: Result<
        (),
        RenderError,
    >)
        requires
            old(self).wf(),
            now.nanos + toast_lifetime().nanos <= u64::MAX,
        ensures
            final(self).wf(),
            final(self).decoder == old(self).decoder,
            match old(self)@.state.applied(message, now).1 {
                Ok(_) => heard is Ok && final(self)@ == old(self)@.heard(message, tabs@, now),
                Err(error) => heard == Err::<(), RenderError>(error) && final(self)@ == (LoopView {
                    state: old(self)@.state.applied(message, now).0,
                    ..old(self)@
                }),
            },
    {
        match self.state.apply_at(message, now) {
            Ok(changed) => {
                self.dirty = self.dirty || changed;
            },
            Err(error) => {
                return Err(error);
            },
        }
        self.state.tabs = copy_tabs(tabs);
        Ok(())
    }

    /// Follows the focused directory, answering with one to ask about.
    fn retarget(&mut self) -> (ask: Option<String>)
        requires
            old(self).wf(),
        ensures
            final(self).wf(),
            final(self).decoder == old(self).decoder,
            (final(self)@, text_view(ask)) == old(self)@.retargeted(),
    {
        match self.state.refresh_repository_target() {
            Some(directory) => {
                self.repository_refreshed = None;
                if self.ask(directory.as_str()) {
                    Some(directory)
                } else {
                    None
                }
            },
            None => None,
        }
    }

    /// Begins a transition, where one does.
    fn stir(&mut self, transition: Option<MotionKind>, now: Instant)
        requires
            old(self).wf(),
        ensures
            final(self).wf(),
            final(self).decoder == old(self).decoder,
            final(self)@ == old(self)@.stirred(transition, now),
    {
        match transition {
            Some(kind) => {
                self.start(kind, now);
                self.dirty = true;
            },
            None => {},
        }
    }

    /// The configuration was resolved again for a reload revision; `None` where
    /// it did not validate. A changed preference takes effect on this frame,
    /// and no transition begun under the preceding one survives.
    pub fn reloaded(&mut self, revision: u64, replacement: Option<(VisualConfig, Theme)>)
        requires
            old(self).wf(),
        ensures
            final(self).wf(),
            final(self).decoder == old(self).decoder,
            final(self)@ == ({
                let (state, changed) = old(self)@.state.reloaded(revision, replacement);
                if changed {
                    LoopView {
                        state,
                        motion: Motion::new(
                            crate::motion::MotionSettings::from_visual(state.visual),
                        ),
                        phase: None,
                        dirty: true,
                        ..old(self)@
                    }
                } else {
                    LoopView { state, ..old(self)@ }
                }
            }),
    {
        if self.state.reload_visual(revision, replacement) {
            self.motion = Motion::new(self.state.motion_settings());
            self.phase = None;
            self.dirty = true;
        }
    }

    /// Input is about to be routed: any transition ends. Answers whether an
    /// overlay is open.
    pub fn begin_input(&mut self) -> (overlay_open: bool)
        requires
            old(self).wf(),
        ensures
            final(self).wf(),
            final(self).decoder == old(self).decoder,
            final(self)@ == old(self)@.interrupted(),
            overlay_open == (old(self)@.state.overlay is Some),
    {
        self.interrupt();
        self.state.overlay.is_some()
    }

    /// Takes on what routing came to, answering with another session to attach
    /// to before this one is released.
    pub fn take_outcome(&mut self, outcome: RouteOutcome) -> (switch: Option<SocketPath>)
        requires
            old(self).wf(),
        ensures
            final(self).wf(),
            final(self).decoder == old(self).decoder,
            final(self)@ == old(self)@.outcome_taken(outcome@),
            match switch {
                Some(socket) => outcome@ == RouteOutcomeView::Switch(socket@) && socket@
                    != old(self)@.path,
                None => outcome@ !is Switch || outcome@ == RouteOutcomeView::Switch(
                    old(self)@.path,
                ),
            },
    {
        match outcome {
            RouteOutcome::Continue => None,
            RouteOutcome::Detach => {
                self.detaching = true;
                None
            },
            RouteOutcome::Switch(socket) => {
                if socket.same(&self.path) {
                    self.state.overlay = None;
                    None
                } else {
                    Some(socket)
                }
            },
        }
    }

    /// The session to switch to did not accept: its row goes, and the catalog
    /// is verified again.
    pub fn switch_failed(&mut self, socket: &SocketPath)
        requires
            old(self).wf(),
        ensures
            final(self).wf(),
            final(self).decoder == old(self).decoder,
            final(self)@ == (LoopView {
                state: old(self)@.state.relisted(
                    crate::live::elsewhere(old(self)@.state.sessions, socket@),
                ),
                catalog_refreshed: None,
                ..old(self)@
            }),
    {
        self.state.remove_session(socket);
        self.catalog_refreshed = None;
    }

    /// Keys were routed: the frame has to be drawn again, and an overlay that
    /// opened or closed starts a transition.
    fn note_keys(&mut self, overlay_was_open: bool, now: Instant)
        requires
            old(self).wf(),
        ensures
            final(self).wf(),
            final(self).decoder == old(self).decoder,
            final(self)@ == old(self)@.routed_keys(overlay_was_open, now),
    {
        self.state.prefix_pending = self.keys.is_pending();
        if overlay_was_open != self.state.overlay.is_some() {
            self.start(MotionKind::Overlay, now);
        }
        self.dirty = true;
        assert(self@ =~= old(self)@.routed_keys(overlay_was_open, now));
    }

    /// Input was routed. Answers whether the session catalog has to be verified
    /// again, because its switcher is open.
    pub fn finish_input(&mut self, overlay_was_open: bool, now: Instant) -> (refresh_catalog: bool)
        requires
            old(self).wf(),
        ensures
            final(self).wf(),
            final(self).decoder == old(self).decoder,
            (final(self)@, refresh_catalog) == old(self)@.typed_through(overlay_was_open, now),
    {
        self.note_keys(overlay_was_open, now);
        if self.state.session_switcher_open() && !self.catalog_refreshing {
            self.catalog_refreshing = true;
            return true;
        }
        false
    }

    /// Standard input reached its end.
    pub fn input_closed(&mut self)
        requires
            old(self).wf(),
        ensures
            final(self).wf(),
            final(self).decoder == old(self).decoder,
            final(self)@ == (LoopView { input_open: false, ..old(self)@ }),
    {
        self.input_open = false;
    }

    /// The outer terminal resized. Answers with what the server is told.
    pub fn resized(&mut self, size: Size) -> (send: ClientMessage)
        requires
            old(self).wf(),
        ensures
            final(self).wf(),
            final(self).decoder == old(self).decoder,
            final(self)@ == (LoopView {
                state: old(self)@.state.resized(size),
                dirty: true,
                ..old(self)@.interrupted()
            }),
            send@ == ClientMessageView::Resize(session_size(size)),
    {
        self.interrupt();
        self.state.set_outer_size(size);
        self.dirty = true;
        ClientMessage::Resize(session_size(size))
    }

    /// Takes out what the decoder held back.
    fn take_held(&mut self) -> (held: Option<Vec<u8>>)
        requires
            old(self).wf(),
        ensures
            final(self).wf(),
            final(self)@ == old(self)@,
            final(self).decoder.recognised() == old(self).decoder.recognised(),
            final(self).decoder@ == emptied(old(self).decoder@),
            match held {
                Some(bytes) => held_keys(old(self).decoder@) == Some(bytes@),
                None => held_keys(old(self).decoder@) is None,
            },
    {
        match self.decoder.flush() {
            Some(InputEvent::Keys(bytes)) => Some(bytes),
            _ => None,
        }
    }

    /// Routes keys that were held back.
    fn route_held(&mut self, bytes: &[u8], edges: Edges, now: Instant) -> (send: Vec<ClientMessage>)
        requires
            old(self).wf(),
            now.nanos + notice_linger().nanos <= u64::MAX,
        ensures
            final(self).wf(),
            final(self).decoder == old(self).decoder,
            (final(self)@, crate::proto::message_views(send@)) == old(self)@.released(
                Some(bytes@),
                edges,
                now,
            ),
    {
        let overlay_was_open = self.begin_input();
        let routed = route_keys(&mut self.state, &mut self.keys, bytes, edges, now);
        match routed.outcome {
            RouteOutcome::Detach => {
                self.detaching = true;
            },
            _ => {},
        }
        self.note_keys(overlay_was_open, now);
        assert(self@ =~= old(self)@.released(Some(bytes@), edges, now).0);
        routed.send
    }

    /// Releases what the decoder held back, as keys. It is held no longer.
    fn release(&mut self, edges: Edges, now: Instant) -> (send: Vec<ClientMessage>)
        requires
            old(self).wf(),
            now.nanos + notice_linger().nanos <= u64::MAX,
        ensures
            final(self).wf(),
            final(self).decoder.recognised() == old(self).decoder.recognised(),
            final(self).decoder@ == emptied(old(self).decoder@),
            (final(self)@, crate::proto::message_views(send@)) == old(self)@.released(
                held_keys(old(self).decoder@),
                edges,
                now,
            ),
    {
        match self.take_held() {
            Some(bytes) => self.route_held(bytes.as_slice(), edges, now),
            None => {
                let send: Vec<ClientMessage> = Vec::new();
                assert(crate::proto::message_views(send@) =~= seq![]);
                send
            },
        }
    }

    /// The directory whose repository answer is due again, if any.
    fn due_directory(&self, now: Instant) -> (due: Option<String>)
        ensures
            text_view(due) == if self@.repository_due(now) {
                self@.state.repository_target
            } else {
                None
            },
            due is Some == self@.repository_due(now),
    {
        match &self.state.repository_target {
            Some(target) => {
                if self.is_asking(target.as_str()) {
                    None
                } else {
                    let old_enough = match &self.repository_refreshed {
                        Some((directory, last)) => !same_text(directory.as_str(), target.as_str())
                            || now.saturating_duration_since(*last).nanos
                            >= self.repository_interval.nanos,
                        None => true,
                    };
                    if old_enough {
                        Some(target.clone())
                    } else {
                        None
                    }
                }
            },
            None => None,
        }
    }

    /// Asks for the session catalog where it is due again.
    fn refresh_catalog(&mut self, now: Instant) -> (due: bool)
        requires
            old(self).wf(),
        ensures
            final(self).wf(),
            final(self).decoder == old(self).decoder,
            due == old(self)@.catalog_due(now),
            final(self)@ == if due {
                LoopView { catalog_refreshing: true, ..old(self)@ }
            } else {
                old(self)@
            },
    {
        let stale = match self.catalog_refreshed {
            Some(last) => now.saturating_duration_since(last).nanos
                >= session_refresh_interval().nanos,
            None => true,
        };
        let due = self.state.session_switcher_open() && !self.catalog_refreshing && stale;
        if due {
            self.catalog_refreshing = true;
        }
        due
    }

    /// Asks for the answers that are due again.
    fn refresh(&mut self, now: Instant) -> (due: (Option<String>, bool))
        requires
            old(self).wf(),
        ensures
            final(self).wf(),
            final(self).decoder == old(self).decoder,
            final(self)@ == old(self)@.refreshing(now),
            text_view(due.0) == if old(self)@.repository_due(now) {
                old(self)@.state.repository_target
            } else {
                None
            },
            due.1 == old(self)@.catalog_due(now),
    {
        let ask = self.due_directory(now);
        match &ask {
            Some(directory) => {
                let _ = self.ask(directory.as_str());
            },
            None => {},
        }
        let refresh = self.refresh_catalog(now);
        (ask, refresh)
    }

    /// Advances the motion.
    fn move_on(&mut self, now: Instant)
        requires
            old(self).wf(),
        ensures
            final(self).wf(),
            final(self).decoder == old(self).decoder,
            final(self)@ == old(self)@.moved(now),
    {
        let mut motion = self.motion;
        let next = motion.tick(now);
        self.motion = motion;
        match next {
            Some(phase) => {
                self.phase = Some(phase);
                self.dirty = true;
            },
            None => {},
        }
    }

    /// Takes the clock's reading.
    fn read_clock(&mut self, clock: Option<String>)
        requires
            old(self).wf(),
        ensures
            final(self).wf(),
            final(self).decoder == old(self).decoder,
            final(self)@ == old(self)@.clocked(text_view(clock)),
    {
        let read = self.state.refresh_clock(clock);
        self.dirty = self.dirty || read;
    }

    /// Advances the transient surfaces.
    fn tick(&mut self, now: Instant)
        requires
            old(self).wf(),
            now.nanos + notice_linger().nanos <= u64::MAX,
        ensures
            final(self).wf(),
            final(self).decoder == old(self).decoder,
            final(self)@ == old(self)@.ticked(now),
    {
        let said = self.state.tick_launch(now);
        let toasted = self.state.tick_toasts(now);
        let over = self.state.tick_resize(now);
        self.dirty = self.dirty || said || toasted || over;
    }

    /// The render clock advanced. `clock` is the client's own reading of the
    /// time, and `edges` the dividers around the focused pane. Everything
    /// transient rides this clock, so a burst of pane output never becomes an
    /// animation source.
    pub fn frame(&mut self, clock: Option<String>, edges: Edges, now: Instant) -> (step: FrameStep)
        requires
            old(self).wf(),
            now.nanos + notice_linger().nanos <= u64::MAX,
        ensures
            final(self).wf(),
            final(self).decoder.recognised() == old(self).decoder.recognised(),
            final(self).decoder@ == emptied(old(self).decoder@),
            ({
                let (released, send) = old(self)@.released(
                    held_keys(old(self).decoder@),
                    edges,
                    now,
                );
                let clocked = released.moved(now).clocked(text_view(clock));
                let ticked = clocked.refreshing(now).ticked(now);
                &&& final(self)@ == (LoopView { dirty: false, ..ticked })
                &&& crate::proto::message_views(step.send@) == send
                &&& text_view(step.ask) == if clocked.repository_due(now) {
                    clocked.state.repository_target
                } else {
                    None
                }
                &&& step.refresh_catalog == clocked.catalog_due(now)
                &&& step.draw == ticked.dirty
            }),
    {
        let send = self.release(edges, now);
        self.move_on(now);
        self.read_clock(clock);
        let (ask, refresh_catalog) = self.refresh(now);
        self.tick(now);
        let draw = self.dirty;
        self.dirty = false;
        FrameStep { send, ask, refresh_catalog, draw }
    }

    /// One catalog verification completed; `None` where it failed.
    pub fn catalog(&mut self, entries: Option<Vec<CatalogEntry>>, now: Instant)
        requires
            old(self).wf(),
        ensures
            final(self).wf(),
            final(self).decoder == old(self).decoder,
            final(self)@ == ({
                let noted = LoopView {
                    catalog_refreshing: false,
                    catalog_refreshed: Some(now),
                    ..old(self)@
                };
                match entries {
                    Some(list) => if crate::live::session_rows(list@, noted.path)
                        != noted.state.sessions {
                        LoopView {
                            state: noted.state.catalogued(list@, noted.path),
                            dirty: true,
                            ..noted
                        }
                    } else {
                        noted
                    },
                    None => noted,
                }
            }),
    {
        self.catalog_refreshing = false;
        self.catalog_refreshed = Some(now);
        match entries {
            Some(list) => self.list_sessions(list),
            None => {},
        }
    }

    /// Takes on a verified catalog.
    fn list_sessions(&mut self, list: Vec<CatalogEntry>)
        requires
            old(self).wf(),
        ensures
            final(self).wf(),
            final(self).decoder == old(self).decoder,
            final(self)@ == if crate::live::session_rows(list@, old(self)@.path)
                != old(self)@.state.sessions {
                LoopView {
                    state: old(self)@.state.catalogued(list@, old(self)@.path),
                    dirty: true,
                    ..old(self)@
                }
            } else {
                old(self)@
            },
    {
        if self.state.refresh_sessions(list, &self.path) {
            self.dirty = true;
        }
    }

    /// One repository lookup completed away from the render loop.
    pub fn repository(&mut self, directory: String, repository: Option<RepositoryStatus>, now: Instant)
        requires
            old(self).wf(),
        ensures
            final(self).wf(),
            final(self).decoder == old(self).decoder,
            final(self)@ == old(self)@.answered(directory@, repository, now),
    {
        let ghost list = directories(self.repository_refreshing@);
        let mut kept: Vec<String> = Vec::new();
        assert(directories(kept@) =~= others(list.take(0), directory@));
        for i in 0..self.repository_refreshing.len()
            invariant
                *self == *old(self),
                list == directories(self.repository_refreshing@),
                directories(kept@) == others(list.take(i as int), directory@),
        {
            assert(list.take(i + 1).drop_last() =~= list.take(i as int));
            assert(list[i as int] == self.repository_refreshing@[i as int]@);
            if !same_text(self.repository_refreshing[i].as_str(), directory.as_str()) {
                let ghost before = directories(kept@);
                kept.push(self.repository_refreshing[i].clone());
                assert(directories(kept@) =~= before.push(list[i as int]));
            }
        }
        assert(list.take(list.len() as int) =~= list);
        self.repository_refreshing = kept;
        let targeted = match &self.state.repository_target {
            Some(target) => same_text(target.as_str(), directory.as_str()),
            None => false,
        };
        let changed = self.state.apply_repository(directory.as_str(), repository);
        if targeted {
            self.repository_refreshed = Some((directory, now));
        }
        self.dirty = self.dirty || changed;
        assert(self@ =~= old(self)@.answered(directory@, repository, now));
    }
}

/// The bytes a decoder held back that a render tick releases: none inside a
/// paste.
pub open spec fn held_keys(reading: Reading) -> Option<Seq<u8>> {
    if reading.pasting || reading.pending.len() == 0 {
        None
    } else {
        Some(reading.pending)
    }
}

/// What a decoder remembers once those bytes were released.
pub open spec fn emptied(reading: Reading) -> Reading {
    match held_keys(reading) {
        Some(_) => Reading { pending: seq![], ..reading },
        None => reading,
    }
}

/// What was held back is released once: behind a render tick nothing is left to
/// release.
pub proof fn held_keys_are_released_once(reading: Reading)
    ensures
        held_keys(emptied(reading)) is None,
        emptied(emptied(reading)) == emptied(reading),
{
}

/// A reload revision is observed once: the same notification again changes
/// nothing, whatever the configuration says by then.
pub proof fn a_reload_is_observed_once(
    state: LiveView,
    revision: u64,
    first: Option<(VisualConfig, Theme)>,
    again: Option<(VisualConfig, Theme)>,
)
    ensures
        ({
            let once = state.reloaded(revision, first).0;
            once.reloaded(revision, again) == (once, false)
        }),
{
}

/// A configuration that did not validate leaves every preference as it was.
pub proof fn a_rejected_reload_keeps_the_preferences(state: LiveView, revision: u64)
    ensures
        state.reloaded(revision, None).0.visual == state.visual,
        state.reloaded(revision, None).0.theme == state.theme,
        !state.reloaded(revision, None).1,
{
}

/// Only a layout starts a transition: pane output, states and copy mode never
/// do.
pub proof fn only_a_layout_starts_motion(state: LiveView, message: ServerMessage)
    requires
        message !is Layout,
    ensures
        state.transition_for(message) is None,
{
}

} // verus!
