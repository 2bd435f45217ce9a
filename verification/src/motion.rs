//! Short, interruptible transitions for chrome.
//!
//! Time is passed in, never read. A transition advances only on a tick, and
//! only once per frame budget. An interruption settles at the end state; it
//! never reverts. A settled phase paints every cell unchanged, so an
//! interrupted transition looks exactly like one that was never animated.

use vstd::prelude::*;

use crate::proto::{Cell, CellAttrs, Color};
use crate::renderer::Span;
use crate::time::{Duration, Instant};

verus! {

/// How long a transition may take, in milliseconds.
pub const MOTION_DURATION_MILLIS: u64 = 120;

/// The render frame budget a transition is quantized into, in milliseconds.
pub const FRAME_BUDGET_MILLIS: u64 = 16;

/// How many frames a whole transition is drawn in: the whole frames that fit
/// into the duration.
pub const MOTION_STEPS: u8 = 7;

/// How far a transition's first frame is pulled toward the frame background,
/// in percent. Partial, so that an interruption always leaves readable text.
const MOTION_BLEND: u16 = 60;

/// How long a transition may take.
#[verifier::allow_in_spec]
pub fn motion_duration() -> Duration
    returns
        (Duration { nanos: 120_000_000 }),
{
    Duration::from_millis(MOTION_DURATION_MILLIS)
}

/// The interval the render loop ticks on.
#[verifier::allow_in_spec]
pub fn frame_budget() -> Duration
    returns
        (Duration { nanos: 16_000_000 }),
{
    Duration::from_millis(FRAME_BUDGET_MILLIS)
}

/// The four layout changes that get motion.
#[derive(Clone, Copy, Debug, PartialEq, Eq, Hash, Structural)]
pub enum MotionKind {
    /// Focus moved to another pane.
    Focus,
    /// A pane was split.
    Split,
    /// A pane was closed.
    Close,
    /// An overlay opened or dismissed.
    Overlay,
}

impl MotionKind {
    /// Every kind, in stable documentation order.
    pub const ALL: [MotionKind; 4] = [
        MotionKind::Focus,
        MotionKind::Split,
        MotionKind::Close,
        MotionKind::Overlay,
    ];
}

/// The client-local accessibility choice for motion.
#[derive(Clone, Copy, Debug, PartialEq, Eq, Structural)]
pub struct MotionSettings {
    /// With reduce-motion on, every transition settles on the frame it started.
    pub reduce_motion: bool,
}

impl MotionSettings {
    /// Transitions are drawn: the default.
    #[verifier::allow_in_spec]
    pub fn animated() -> MotionSettings
        returns
            (MotionSettings { reduce_motion: false }),
    {
        MotionSettings { reduce_motion: false }
    }

    /// The reduce-motion accessibility setting.
    #[verifier::allow_in_spec]
    pub fn reduced() -> MotionSettings
        returns
            (MotionSettings { reduce_motion: true }),
    {
        MotionSettings { reduce_motion: true }
    }
}

impl Default for MotionSettings {
    fn default() -> (settings: MotionSettings)
        ensures
            settings == MotionSettings::animated(),
    {
        MotionSettings::animated()
    }
}

/// How far along a transition is, quantized to whole frames.
#[derive(Clone, Copy, Debug, PartialEq, Eq, Structural)]
pub struct Phase {
    pub kind: MotionKind,
    pub step: u8,
}

impl Phase {
    /// The end of a transition: the chrome's own colours, unchanged.
    #[verifier::allow_in_spec]
    pub fn settled(kind: MotionKind) -> Phase
        returns
            (Phase { kind, step: MOTION_STEPS }),
    {
        Phase { kind, step: MOTION_STEPS }
    }

    /// The transition this phase belongs to.
    #[verifier::allow_in_spec]
    pub fn kind(self) -> MotionKind
        returns
            (self.kind),
    {
        self.kind
    }

    /// Which whole frame of the transition this is, from zero.
    #[verifier::allow_in_spec]
    pub fn step(self) -> u8
        returns
            (self.step),
    {
        self.step
    }

    /// Whether the transition has reached its end state.
    #[verifier::allow_in_spec]
    pub fn is_settled(self) -> bool
        returns
            (self.step >= MOTION_STEPS),
    {
        self.step >= MOTION_STEPS
    }

    /// How far along the transition is, as a percentage.
    #[verifier::allow_in_spec]
    pub fn percent(self) -> u16
        returns
            (if self.step >= MOTION_STEPS {
                100u16
            } else {
                (self.step as int * 100 / 7) as u16
            }),
    {
        if self.step >= MOTION_STEPS {
            return 100;
        }
        (self.step as u16) * 100 / (MOTION_STEPS as u16)
    }

    /// How far this phase pulls a cell toward the frame background, in percent.
    pub open spec fn pull(self) -> int {
        60 * (100 - self.percent()) / 100
    }

    fn blend(self) -> (blend: u16)
        ensures
            blend == self.pull(),
            blend <= 60,
            blend == 0 <==> self.is_settled(),
    {
        MOTION_BLEND * (100 - self.percent()) / 100
    }
}

/// One in-flight transition, or none. A second start replaces whatever was
/// running rather than queueing behind it.
#[derive(Clone, Copy, Debug, PartialEq, Eq, Structural)]
pub struct Motion {
    pub settings: MotionSettings,
    pub active: Option<Active>,
}

/// The bookkeeping for a transition that is running.
#[derive(Clone, Copy, Debug, PartialEq, Eq, Structural)]
pub struct Active {
    pub kind: MotionKind,
    pub started: Instant,
    /// The step the caller was last handed.
    pub drawn: u8,
}

/// Which whole frame of a transition `now` lands in. A clock that went
/// backwards reads as the start; a late one as the end.
pub open spec fn step_of(started: Instant, now: Instant) -> u8 {
    let frames = now.saturating_duration_since(started).as_millis() / FRAME_BUDGET_MILLIS;
    if frames < MOTION_STEPS {
        frames as u8
    } else {
        MOTION_STEPS
    }
}

fn step_at(started: Instant, now: Instant) -> (step: u8)
    ensures
        step == step_of(started, now),
{
    let frames: u64 = now.saturating_duration_since(started).as_millis() / FRAME_BUDGET_MILLIS;
    if frames < MOTION_STEPS as u64 {
        frames as u8
    } else {
        MOTION_STEPS
    }
}

impl Motion {
    /// Builds a motion state with the given accessibility settings.
    #[verifier::allow_in_spec]
    pub fn new(settings: MotionSettings) -> Motion
        returns
            (Motion { settings, active: None }),
    {
        Motion { settings, active: None }
    }

    /// The settings this state was built with.
    #[verifier::allow_in_spec]
    pub fn settings(self) -> MotionSettings
        returns
            (self.settings),
    {
        self.settings
    }

    /// Whether a transition is in flight.
    #[verifier::allow_in_spec]
    pub fn is_active(self) -> bool
        returns
            (self.active is Some),
    {
        self.active.is_some()
    }

    /// The transition in flight, if any.
    #[verifier::allow_in_spec]
    pub fn kind(self) -> Option<MotionKind>
        returns
            (match self.active {
                Some(active) => Some(active.kind),
                None => None,
            }),
    {
        match self.active {
            Some(active) => Some(active.kind),
            None => None,
        }
    }

    /// This state once a transition was started, and the phase drawn for it.
    pub open spec fn started(self, kind: MotionKind, now: Instant) -> (Motion, Phase) {
        if self.settings.reduce_motion {
            (Motion { settings: self.settings, active: None }, Phase::settled(kind))
        } else {
            (
                Motion {
                    settings: self.settings,
                    active: Some(Active { kind, started: now, drawn: 0 }),
                },
                Phase { kind, step: 0 },
            )
        }
    }

    /// Begins a transition and returns the phase to draw now.
    ///
    /// Under reduce-motion the phase is already settled and nothing is left in
    /// flight.
    pub fn start(&mut self, kind: MotionKind, now: Instant) -> (phase: Phase)
        ensures
            (*final(self), phase) == old(self).started(kind, now),
    {
        if self.settings.reduce_motion {
            self.active = None;
            return Phase::settled(kind);
        }
        self.active = Some(Active { kind, started: now, drawn: 0 });
        Phase { kind, step: 0 }
    }

    /// This state after a render tick, and the phase it draws, if any.
    pub open spec fn ticked(self, now: Instant) -> (Motion, Option<Phase>) {
        match self.active {
            None => (self, None),
            Some(active) => {
                let step = step_of(active.started, now);
                if step == active.drawn {
                    (self, None)
                } else if step >= MOTION_STEPS {
                    (
                        Motion { settings: self.settings, active: None },
                        Some(Phase::settled(active.kind)),
                    )
                } else {
                    (
                        Motion {
                            settings: self.settings,
                            active: Some(Active { drawn: step, ..active }),
                        },
                        Some(Phase { kind: active.kind, step }),
                    )
                }
            },
        }
    }

    /// Advances the transition on the render tick.
    ///
    /// Answers `None` when nothing is in flight or when this tick lands on the
    /// step already drawn. The last phase of a transition is the settled one,
    /// and it clears the state.
    pub fn tick(&mut self, now: Instant) -> (phase: Option<Phase>)
        ensures
            (*final(self), phase) == old(self).ticked(now),
    {
        match self.active {
            None => None,
            Some(active) => {
                let step: u8 = step_at(active.started, now);
                if step == active.drawn {
                    return None;
                }
                if step >= MOTION_STEPS {
                    self.active = None;
                    return Some(Phase::settled(active.kind));
                }
                self.active = Some(
                    Active { kind: active.kind, started: active.started, drawn: step },
                );
                Some(Phase { kind: active.kind, step })
            },
        }
    }

    /// Ends any transition at its end state, for input, a resize, or a state
    /// change. `None` means there was nothing in flight.
    pub fn interrupt(&mut self) -> (phase: Option<Phase>)
        ensures
            final(self).settings == old(self).settings,
            final(self).active is None,
            phase == (match old(self).active {
                Some(active) => Some(Phase::settled(active.kind)),
                None => None,
            }),
    {
        match self.active {
            None => None,
            Some(active) => {
                self.active = None;
                Some(Phase::settled(active.kind))
            },
        }
    }
}

impl Default for Motion {
    fn default() -> (motion: Motion)
        ensures
            motion == Motion::new(MotionSettings::animated()),
    {
        Motion::new(MotionSettings::animated())
    }
}

/// One channel `percent` of the way from `value` to `target`.
pub open spec fn mixed(value: u8, target: u8, percent: int) -> u8 {
    ((value as int * (100 - percent) + target as int * percent) / 100) as u8
}

/// `color` pulled `percent` of the way toward `frame`; nothing where either is
/// not a 24-bit colour.
pub open spec fn pulled(color: Color, frame: Color, percent: int) -> Option<Color> {
    match (color, frame) {
        (Color::Rgb(r, g, b), Color::Rgb(fr, fg, fb)) => Some(
            Color::Rgb(mixed(r, fr, percent), mixed(g, fg, percent), mixed(b, fb, percent)),
        ),
        _ => None,
    }
}

pub(crate) fn mix(value: u8, target: u8, percent: u16) -> (channel: u8)
    requires
        percent <= 100,
    ensures
        channel == mixed(value, target, percent as int),
{
    assert(value as int * (100 - percent) + target as int * percent <= 25500) by (nonlinear_arith)
        requires
            value <= 255,
            target <= 255,
            percent <= 100,
    ;
    assert(0 <= value as int * (100 - percent)) by (nonlinear_arith)
        requires
            percent <= 100,
    ;
    assert(0 <= target as int * percent) by (nonlinear_arith);
    let sum: u16 = (value as u16) * (100 - percent) + (target as u16) * percent;
    (sum / 100) as u8
}

/// Blends one colour `percent` of the way toward `frame`.
pub(crate) fn toward(color: Color, frame: Color, percent: u16) -> (blended: Option<Color>)
    requires
        percent <= 100,
    ensures
        blended == pulled(color, frame, percent as int),
{
    match color {
        Color::Rgb(r, g, b) => match frame {
            Color::Rgb(fr, fg, fb) => Some(
                Color::Rgb(mix(r, fr, percent), mix(g, fg, percent), mix(b, fb, percent)),
            ),
            _ => None,
        },
        _ => None,
    }
}

/// `cell` as a transition at `phase` paints it.
pub open spec fn moved_cell(cell: Cell, phase: Phase, frame: Color) -> Cell {
    if phase.is_settled() {
        cell
    } else {
        let fg = pulled(cell.fg, frame, phase.pull());
        let bg = pulled(cell.bg, frame, phase.pull());
        Cell {
            ch: cell.ch,
            fg: if fg is Some {
                fg->0
            } else {
                cell.fg
            },
            bg: if bg is Some {
                bg->0
            } else {
                cell.bg
            },
            attrs: if fg is Some {
                cell.attrs
            } else {
                cell.attrs.union(CellAttrs::dim())
            },
        }
    }
}

/// Applies a phase to one cell.
///
/// A 24-bit colour is blended toward `frame`; where the text colour cannot be
/// blended the cell takes the terminal's faint rendition instead.
pub fn phase_cell(cell: Cell, phase: Phase, frame: Color) -> (moved: Cell)
    ensures
        moved == moved_cell(cell, phase, frame),
{
    let blend: u16 = phase.blend();
    if blend == 0 {
        return cell;
    }
    let (fg, attrs): (Color, CellAttrs) = match toward(cell.fg, frame, blend) {
        Some(fg) => (fg, cell.attrs),
        None => (cell.fg, cell.attrs.union(CellAttrs::dim())),
    };
    let bg: Color = match toward(cell.bg, frame, blend) {
        Some(bg) => bg,
        None => cell.bg,
    };
    Cell { ch: cell.ch, fg, bg, attrs }
}

/// `cells` as a transition at `phase` paints them.
pub open spec fn moved_cells(cells: Seq<Cell>, phase: Phase, frame: Color) -> Seq<Cell> {
    cells.map_values(|cell: Cell| moved_cell(cell, phase, frame))
}

/// Applies a phase to a run of cells.
pub fn phase_cells(cells: &[Cell], phase: Phase, frame: Color) -> (moved: Vec<Cell>)
    ensures
        moved@ == moved_cells(cells@, phase, frame),
{
    let mut moved: Vec<Cell> = Vec::new();
    for i in 0..cells.len()
        invariant
            moved@ == moved_cells(cells@.take(i as int), phase, frame),
    {
        moved.push(phase_cell(cells[i], phase, frame));
        assert(cells@.take(i + 1) == cells@.take(i as int).push(cells@[i as int]));
    }
    assert(cells@.take(cells@.len() as int) == cells@);
    moved
}

/// Applies a phase to a positioned chrome span, keeping its origin.
pub fn phase_span(span: &Span, phase: Phase, frame: Color) -> (moved: Span)
    ensures
        moved.at == span.at,
        moved.cells@ == moved_cells(span.cells@, phase, frame),
{
    Span::new(span.at, phase_cells(span.cells.as_slice(), phase, frame))
}

/// A transition fits into its duration, and one more frame would not.
pub proof fn transition_fits_its_duration()
    ensures
        FRAME_BUDGET_MILLIS * MOTION_STEPS <= MOTION_DURATION_MILLIS,
        FRAME_BUDGET_MILLIS * (MOTION_STEPS + 1) > MOTION_DURATION_MILLIS,
{
}

/// A settled phase paints every cell unchanged.
pub proof fn settled_paints_unchanged(kind: MotionKind, cells: Seq<Cell>, frame: Color)
    ensures
        moved_cells(cells, Phase::settled(kind), frame) == cells,
{
    assert(moved_cells(cells, Phase::settled(kind), frame) =~= cells);
}

/// Motion never touches a character, nor takes away an attribute, nor blends a
/// colour more than part of the way.
pub proof fn motion_changes_contrast_alone(cell: Cell, phase: Phase, frame: Color)
    ensures
        moved_cell(cell, phase, frame).ch == cell.ch,
        moved_cell(cell, phase, frame).attrs.contains(cell.attrs),
        phase.pull() <= 60,
{
}

/// With reduce-motion on, a start settles at once, leaves nothing in flight,
/// and no later tick draws anything.
pub proof fn reduce_motion_draws_one_frame(motion: Motion, kind: MotionKind, now: Instant, later: Instant)
    requires
        motion.settings.reduce_motion,
    ensures
        motion.started(kind, now).1.is_settled(),
        motion.started(kind, now).0.active is None,
        motion.started(kind, now).0.ticked(later).1 is None,
{
}

/// How many frames a state draws when it is ticked at each of `samples`.
pub open spec fn frames_drawn(motion: Motion, samples: Seq<Instant>) -> nat
    decreases samples.len(),
{
    if samples.len() == 0 {
        0
    } else {
        let (next, phase) = motion.ticked(samples[0]);
        let rest = frames_drawn(next, samples.drop_first());
        if phase is Some {
            rest + 1
        } else {
            rest
        }
    }
}

/// Whether no sample is earlier than the one before it.
pub open spec fn forward(samples: Seq<Instant>) -> bool {
    forall|i: int, j: int| 0 <= i <= j < samples.len() ==> samples[i].nanos <= samples[j].nanos
}

/// However often a transition is sampled, it draws at most
/// [`MOTION_STEPS`] frames beyond the one it started with, as long as the clock
/// does not run backwards between samples.
pub proof fn transition_draws_a_bounded_number_of_frames(
    motion: Motion,
    kind: MotionKind,
    now: Instant,
    samples: Seq<Instant>,
)
    requires
        forward(samples),
    ensures
        frames_drawn(motion.started(kind, now).0, samples) <= MOTION_STEPS,
{
    frames_left(motion.started(kind, now).0, samples);
}

proof fn frames_left(motion: Motion, samples: Seq<Instant>)
    requires
        forward(samples),
        motion.active matches Some(active) ==> active.drawn <= MOTION_STEPS && (samples.len() > 0
            ==> active.drawn <= step_of(active.started, samples[0])),
    ensures
        motion.active is None ==> frames_drawn(motion, samples) == 0,
        motion.active matches Some(active) ==> frames_drawn(motion, samples) <= MOTION_STEPS
            - active.drawn,
    decreases samples.len(),
{
    if samples.len() > 0 {
        let (next, phase) = motion.ticked(samples[0]);
        let rest = samples.drop_first();
        assert(forward(rest)) by {
            assert forall|i: int, j: int| 0 <= i <= j < rest.len() implies rest[i].nanos
                <= rest[j].nanos by {
                assert(rest[i] == samples[i + 1]);
                assert(rest[j] == samples[j + 1]);
            }
        }
        if rest.len() > 0 {
            assert(samples[0].nanos <= samples[1].nanos);
            assert(rest[0] == samples[1]);
            if motion.active is Some {
                step_grows(motion.active->0.started, samples[0], samples[1]);
            }
        }
        frames_left(next, rest);
    }
}

proof fn step_grows(started: Instant, earlier: Instant, later: Instant)
    requires
        earlier.nanos <= later.nanos,
    ensures
        step_of(started, earlier) <= step_of(started, later),
{
    let a = earlier.saturating_duration_since(started);
    let b = later.saturating_duration_since(started);
    assert(a.nanos <= b.nanos);
    vstd::arithmetic::div_mod::lemma_div_is_ordered(a.nanos as int, b.nanos as int, 1_000_000);
    vstd::arithmetic::div_mod::lemma_div_is_ordered(
        a.as_millis() as int,
        b.as_millis() as int,
        16,
    );
}

/// An interruption settles and never reverts: it draws what a client that
/// animates nothing draws, and asks for no further frame.
pub proof fn an_interruption_settles(
    motion: Motion,
    kind: MotionKind,
    now: Instant,
    later: Instant,
    cells: Seq<Cell>,
    frame: Color,
)
    ensures
        ({
            let stopped = Motion { active: None, ..motion.started(kind, now).0 };
            stopped.ticked(later) == (stopped, None::<Phase>)
        }),
        Motion::new(MotionSettings::reduced()).started(kind, now).1 == Phase::settled(kind),
        moved_cells(cells, Phase::settled(kind), frame) == cells,
{
    settled_paints_unchanged(kind, cells, frame);
}

/// Blending is proportional: each channel goes the given share of the way from
/// the colour to the frame, rounded down, and only 24-bit colours blend.
pub proof fn blending_goes_part_of_the_way(color: Color, frame: Color, percent: int)
    requires
        0 <= percent <= 100,
    ensures
        pulled(color, frame, percent) is Some <==> (color is Rgb && frame is Rgb),
        (color is Rgb && frame is Rgb) ==> {
            let made = pulled(color, frame, percent)->0;
            &&& made is Rgb
            &&& goes_part_of_the_way(color->Rgb_0, frame->Rgb_0, percent, made->Rgb_0)
            &&& goes_part_of_the_way(color->Rgb_1, frame->Rgb_1, percent, made->Rgb_1)
            &&& goes_part_of_the_way(color->Rgb_2, frame->Rgb_2, percent, made->Rgb_2)
        },
{
    match (color, frame) {
        (Color::Rgb(r, g, b), Color::Rgb(fr, fg, fb)) => {
            a_channel_goes_part_of_the_way(r, fr, percent);
            a_channel_goes_part_of_the_way(g, fg, percent);
            a_channel_goes_part_of_the_way(b, fb, percent);
        },
        _ => {},
    }
}

/// Whether `made` is `percent` of the way from `value` to `target`, rounded down.
pub open spec fn goes_part_of_the_way(value: u8, target: u8, percent: int, made: u8) -> bool {
    100 * made <= value * (100 - percent) + target * percent < 100 * made + 100
}

proof fn a_channel_goes_part_of_the_way(value: u8, target: u8, percent: int)
    requires
        0 <= percent <= 100,
    ensures
        goes_part_of_the_way(value, target, percent, mixed(value, target, percent)),
{
    let sum = value as int * (100 - percent) + target as int * percent;
    assert(0 <= sum <= 25500) by (nonlinear_arith)
        requires
            sum == value as int * (100 - percent) + target as int * percent,
            0 <= value <= 255,
            0 <= target <= 255,
            0 <= percent <= 100,
    ;
}

/// A running transition starts faded and only ever gains contrast: a later step
/// is pulled no further toward the frame, and the last one not at all.
pub proof fn a_transition_gains_contrast(early: Phase, late: Phase)
    requires
        early.step <= late.step,
    ensures
        0 <= late.pull() <= early.pull() <= 60,
        early.step == 0 ==> early.pull() == 60,
        late.step >= 7 <==> late.pull() == 0,
        late.step >= 7 <==> late.is_settled(),
{
}

/// A cell of a transition in flight: its colours are blended where they can be,
/// and it is faint where its text colour cannot.
pub proof fn a_transition_blends_its_cells(cell: Cell, phase: Phase, frame: Color)
    requires
        phase.step < 7,
    ensures
        ({
            let made = moved_cell(cell, phase, frame);
            &&& made.ch == cell.ch
            &&& (cell.fg is Rgb && frame is Rgb) ==> Some(made.fg) == pulled(
                cell.fg,
                frame,
                phase.pull(),
            ) && made.attrs == cell.attrs
            &&& !(cell.fg is Rgb && frame is Rgb) ==> made.fg == cell.fg && made.attrs == (CellAttrs {
                dim: true,
                ..cell.attrs
            })
            &&& (cell.bg is Rgb && frame is Rgb) ==> Some(made.bg) == pulled(
                cell.bg,
                frame,
                phase.pull(),
            )
            &&& !(cell.bg is Rgb && frame is Rgb) ==> made.bg == cell.bg
        }),
{
}

/// A transition keeps time: behind the `n`th whole frame budget since it started
/// a tick draws step `n`, and from the last on it is settled and over. A step is
/// drawn once.
pub proof fn a_transition_keeps_time(
    motion: Motion,
    kind: MotionKind,
    now: Instant,
    later: Instant,
    n: int,
)
    requires
        !motion.settings.reduce_motion,
        0 <= n,
        now.nanos + n * 16_000_000 <= later.nanos < now.nanos + (n + 1) * 16_000_000,
    ensures
        motion.started(kind, now).1 == (Phase { kind, step: 0 }),
        motion.started(kind, now).0.kind() == Some(kind),
        n == 0 ==> motion.started(kind, now).0.ticked(later).1 is None,
        0 < n < 7 ==> motion.started(kind, now).0.ticked(later).1 == Some(
            Phase { kind, step: n as u8 },
        ),
        n >= 7 ==> motion.started(kind, now).0.ticked(later) == (
            Motion { settings: motion.settings, active: None },
            Some(Phase::settled(kind)),
        ),
        ({
            let once = motion.started(kind, now).0.ticked(later).0;
            once.ticked(later) == (once, None::<Phase>)
        }),
{
    let since = later.nanos - now.nanos;
    assert(later.saturating_duration_since(now).nanos == since);
    assert(since / 1_000_000 / 16 == n) by (nonlinear_arith)
        requires
            n * 16_000_000 <= since < (n + 1) * 16_000_000,
            0 <= n,
    ;
}

/// A tick draws the step it lands on wherever that is another than the one drawn,
/// in whatever order the ticks come; a clock behind the start reads as the start.
pub proof fn a_tick_draws_where_it_lands(motion: Motion, kind: MotionKind, started: Instant, drawn: u8, now: Instant)
    requires
        motion.active == Some(Active { kind, started, drawn }),
        drawn < 7,
        now.nanos < started.nanos + 112_000_000,
    ensures
        ({
            let lands = if now.nanos < started.nanos {
                0int
            } else {
                (now.nanos - started.nanos) / 16_000_000
            };
            let (after, phase) = motion.ticked(now);
            &&& phase is None <==> lands == drawn
            &&& phase matches Some(step) ==> step.kind() == kind && step.step() == lands
                && after.active == Some(Active { kind, started, drawn: lands as u8 })
            &&& phase is None ==> after == motion
            &&& after.settings == motion.settings
        }),
{
    if now.nanos >= started.nanos {
        let since = (now.nanos - started.nanos) as int;
        assert(since / 1_000_000 / 16 == since / 16_000_000) by (nonlinear_arith)
            requires
                since >= 0,
        ;
    }
}

} // verus!
