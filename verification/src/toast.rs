//! Transient notices that a pane raised an actionable event.
//!
//! The stack is bounded; repeated events from one pane coalesce into one notice
//! with a repeat count; and a notice dismisses itself.

use std::collections::VecDeque;

use vstd::prelude::*;

use crate::attention::Attention;
use crate::cells::{cut, push_chars};
use crate::motion::{frame_budget, Motion, MotionKind, MotionSettings, Phase, MOTION_STEPS};
use crate::palette::{plain, push_glyph, push_str, surface};
use crate::proto::{Cell, CellAttrs, Color, Point, Size};
use crate::renderer::{Span, SpanView};
use crate::text::{chars_of, decimal, decimal_chars, push_all};
use crate::theme::Theme;
use crate::time::{Duration, Instant};

verus! {

/// How many toasts the live stack shows at once.
pub const TOAST_CAPACITY: usize = 3;

/// How long a toast stays up before it dismisses itself, in seconds.
pub const TOAST_LIFETIME_SECS: u64 = 4;

/// The columns the stack keeps clear of the frame's right edge.
pub const TOAST_MARGIN: u16 = 1;

/// The most width one toast takes, however wide the terminal is.
pub const TOAST_MAX_WIDTH: u16 = 36;

/// How long a toast stays up before it dismisses itself.
#[verifier::allow_in_spec]
pub fn toast_lifetime() -> Duration
    returns
        (Duration { nanos: 4_000_000_000 }),
{
    Duration::from_secs(TOAST_LIFETIME_SECS)
}

/// A transient notice that a pane raised an actionable event.
#[derive(Clone, Debug, PartialEq, Eq)]
pub struct Toast {
    /// The pane the notice is about.
    pub index: u16,
    /// The pane's name.
    pub title: String,
    /// The state that raised it.
    pub attention: Attention,
    /// How many times this pane's event has coalesced into this notice.
    pub repeats: u32,
    /// When this notice stops showing.
    pub until: Instant,
    /// The entrance, in flight until it settles.
    pub motion: Motion,
    /// The step of that entrance last handed out, or `None` once it has settled.
    pub phase: Option<Phase>,
}

/// A toast by its contents.
pub struct ToastView {
    pub index: u16,
    pub title: Seq<char>,
    pub attention: Attention,
    pub repeats: u32,
    pub until: Instant,
    pub motion: Motion,
    pub phase: Option<Phase>,
}

impl View for Toast {
    type V = ToastView;

    open spec fn view(&self) -> ToastView {
        ToastView {
            index: self.index,
            title: self.title@,
            attention: self.attention,
            repeats: self.repeats,
            until: self.until,
            motion: self.motion,
            phase: self.phase,
        }
    }
}

/// Toasts by their contents.
pub open spec fn toast_views(toasts: Seq<Toast>) -> Seq<ToastView> {
    toasts.map_values(|toast: Toast| toast@)
}

/// A phase worth drawing: a settled one is the chrome's own colours.
pub open spec fn drawn(phase: Option<Phase>) -> Option<Phase> {
    match phase {
        Some(step) => if step.is_settled() {
            None
        } else {
            phase
        },
        None => None,
    }
}

impl ToastView {
    /// The step drawn is that of the entrance in flight: an overlay's, and never
    /// the last one.
    pub open spec fn wf(self) -> bool {
        &&& self.motion.active matches Some(active) ==> active.kind == MotionKind::Overlay
            && active.drawn < MOTION_STEPS
        &&& self.phase == match self.motion.active {
            Some(active) => Some(Phase { kind: MotionKind::Overlay, step: active.drawn }),
            None => None,
        }
    }

    /// Whether the entrance, where it is still in flight, began at `at`.
    pub open spec fn entered_at(self, at: Instant) -> bool {
        self.motion.active matches Some(active) ==> active.started == at
    }

    /// This notice with its entrance and its lifetime started afresh.
    pub open spec fn entered(self, now: Instant, lifetime: Duration, settings: MotionSettings) -> ToastView {
        let (motion, phase) = Motion::new(settings).started(MotionKind::Overlay, now);
        ToastView { until: now.plus(lifetime), motion, phase: drawn(Some(phase)), ..self }
    }

    /// This notice after a render tick.
    pub open spec fn ticked(self, now: Instant) -> ToastView {
        let (motion, phase) = self.motion.ticked(now);
        if phase is Some {
            ToastView { motion, phase: drawn(phase), ..self }
        } else {
            ToastView { motion, ..self }
        }
    }

    /// This notice with its entrance settled.
    pub open spec fn settled(self) -> ToastView {
        ToastView { motion: Motion { active: None, ..self.motion }, phase: None, ..self }
    }
}

/// A first notice for a pane.
pub open spec fn raised(
    index: u16,
    title: Seq<char>,
    attention: Attention,
    now: Instant,
    lifetime: Duration,
    settings: MotionSettings,
) -> ToastView {
    (ToastView {
        index,
        title,
        attention,
        repeats: 1,
        until: now,
        motion: Motion::new(settings),
        phase: None,
    }).entered(now, lifetime, settings)
}

impl Toast {
    /// A first notice for a pane, raised at `now` with the default lifetime and
    /// an animated entrance.
    pub fn new(index: u16, title: &str, attention: Attention, now: Instant) -> (toast: Toast)
        requires
            now.nanos + toast_lifetime().nanos <= u64::MAX,
        ensures
            toast@ == raised(
                index,
                title@,
                attention,
                now,
                toast_lifetime(),
                MotionSettings::animated(),
            ),
            toast@.wf(),
    {
        let mut toast = Toast {
            index,
            title: title.to_owned(),
            attention,
            repeats: 1,
            until: now,
            motion: Motion::new(MotionSettings::animated()),
            phase: None,
        };
        toast.enter(now, toast_lifetime(), MotionSettings::animated());
        toast
    }

    /// The step of the entrance to draw, or `None` for the settled cells.
    #[verifier::allow_in_spec]
    pub fn phase(&self) -> Option<Phase>
        returns
            (self.phase),
    {
        self.phase
    }

    /// When this notice stops showing.
    #[verifier::allow_in_spec]
    pub fn expires_at(&self) -> Instant
        returns
            (self.until),
    {
        self.until
    }

    /// Restarts the entrance and the lifetime.
    fn enter(&mut self, now: Instant, lifetime: Duration, settings: MotionSettings)
        requires
            now.nanos + lifetime.nanos <= u64::MAX,
        ensures
            final(self)@ == old(self)@.entered(now, lifetime, settings),
    {
        self.until = now.plus(lifetime);
        let mut motion = Motion::new(settings);
        let phase = motion.start(MotionKind::Overlay, now);
        self.motion = motion;
        self.phase = if phase.is_settled() {
            None
        } else {
            Some(phase)
        };
    }

    /// Advances the entrance, reporting whether the cells it draws changed.
    fn tick(&mut self, now: Instant) -> (changed: bool)
        ensures
            final(self)@ == old(self)@.ticked(now),
            changed == (old(self).motion.ticked(now).1 is Some),
    {
        let mut motion = self.motion;
        let next = motion.tick(now);
        self.motion = motion;
        match next {
            None => false,
            Some(phase) => {
                self.phase = if phase.is_settled() {
                    None
                } else {
                    Some(phase)
                };
                true
            },
        }
    }
}

/// A deck by its contents, oldest toast first.
pub struct DeckView {
    pub toasts: Seq<ToastView>,
    pub capacity: nat,
    pub lifetime: Duration,
    pub settings: MotionSettings,
}

/// Where a pane's toast is, if it has one.
pub open spec fn showing(toasts: Seq<ToastView>, index: u16) -> Option<nat>
    decreases toasts.len(),
{
    if toasts.len() == 0 {
        None
    } else if toasts[0].index == index {
        Some(0)
    } else {
        match showing(toasts.drop_first(), index) {
            Some(at) => Some(at + 1),
            None => None,
        }
    }
}

impl DeckView {
    /// At most as many toasts as the deck holds, and at most one per pane, each
    /// drawn by the entrance it has in flight.
    pub open spec fn wf(self) -> bool {
        &&& 1 <= self.capacity
        &&& self.toasts.len() <= self.capacity
        &&& forall|i: int| 0 <= i < self.toasts.len() ==> (#[trigger] self.toasts[i]).wf()
        &&& forall|i: int, j: int|
            0 <= i < j < self.toasts.len() ==> (#[trigger] self.toasts[i]).index != (
            #[trigger] self.toasts[j]).index
    }

    /// This deck once a pane's notice was raised.
    ///
    /// A pane already showing coalesces into the newest position; a new pane
    /// goes behind the others, the oldest giving way where the deck is full.
    pub open spec fn pushed(self, index: u16, title: Seq<char>, attention: Attention, now: Instant) -> DeckView {
        match showing(self.toasts, index) {
            Some(at) => {
                let old = self.toasts[at as int];
                let toast = (ToastView {
                    title,
                    attention,
                    repeats: old.repeats.saturating_add(1),
                    ..old
                }).entered(now, self.lifetime, self.settings);
                DeckView { toasts: self.toasts.remove(at as int).push(toast), ..self }
            },
            None => {
                let kept = if self.toasts.len() == self.capacity {
                    self.toasts.drop_first()
                } else {
                    self.toasts
                };
                DeckView {
                    toasts: kept.push(
                        raised(index, title, attention, now, self.lifetime, self.settings),
                    ),
                    ..self
                }
            },
        }
    }
}

impl DeckView {
    /// This deck after a render tick: every expired notice is gone, and every
    /// entrance moved on.
    pub open spec fn ticked(self, now: Instant) -> DeckView {
        DeckView { toasts: all_ticked(unexpired(self.toasts, now), now), ..self }
    }

    /// This deck without a pane's notice.
    pub open spec fn dismissed(self, index: u16) -> DeckView {
        DeckView { toasts: without_pane(self.toasts, index), ..self }
    }

    /// This deck without the notices of positions past `panes`.
    pub open spec fn retained(self, panes: u16) -> DeckView {
        DeckView { toasts: within(self.toasts, panes), ..self }
    }

    /// This deck under other accessibility settings. Reduce-motion settles every
    /// entrance in flight.
    pub open spec fn moving(self, settings: MotionSettings) -> DeckView {
        DeckView {
            settings,
            toasts: if settings.reduce_motion {
                self.toasts.map_values(|toast: ToastView| toast.settled())
            } else {
                self.toasts
            },
            ..self
        }
    }
}

/// The toasts that have not expired at `now`.
pub open spec fn unexpired(toasts: Seq<ToastView>, now: Instant) -> Seq<ToastView>
    decreases toasts.len(),
{
    if toasts.len() == 0 {
        seq![]
    } else {
        let rest = unexpired(toasts.drop_last(), now);
        if now.nanos < toasts.last().until.nanos {
            rest.push(toasts.last())
        } else {
            rest
        }
    }
}

/// The toasts of panes other than `index`.
pub open spec fn without_pane(toasts: Seq<ToastView>, index: u16) -> Seq<ToastView>
    decreases toasts.len(),
{
    if toasts.len() == 0 {
        seq![]
    } else {
        let rest = without_pane(toasts.drop_last(), index);
        if toasts.last().index != index {
            rest.push(toasts.last())
        } else {
            rest
        }
    }
}

/// The toasts of pane positions no further than `panes`.
pub open spec fn within(toasts: Seq<ToastView>, panes: u16) -> Seq<ToastView>
    decreases toasts.len(),
{
    if toasts.len() == 0 {
        seq![]
    } else {
        let rest = within(toasts.drop_last(), panes);
        if toasts.last().index <= panes {
            rest.push(toasts.last())
        } else {
            rest
        }
    }
}

/// `toasts`, each after a render tick.
pub open spec fn all_ticked(toasts: Seq<ToastView>, now: Instant) -> Seq<ToastView> {
    toasts.map_values(|toast: ToastView| toast.ticked(now))
}

/// Whether the entrance of any toast draws another step at `now`.
pub open spec fn any_advances(toasts: Seq<ToastView>, now: Instant) -> bool {
    exists|i: int| 0 <= i < toasts.len() && (#[trigger] toasts[i]).motion.ticked(now).1 is Some
}

/// A bounded, coalescing stack of toasts.
#[derive(Clone, Debug)]
pub struct ToastDeck {
    toasts: VecDeque<Toast>,
    capacity: usize,
    lifetime: Duration,
    settings: MotionSettings,
}

impl View for ToastDeck {
    type V = DeckView;

    closed spec fn view(&self) -> DeckView {
        DeckView {
            toasts: toast_views(self.toasts@),
            capacity: self.capacity as nat,
            lifetime: self.lifetime,
            settings: self.settings,
        }
    }
}

pub(crate) proof fn showing_finds(toasts: Seq<ToastView>, index: u16)
    ensures
        showing(toasts, index) matches Some(at) ==> at < toasts.len() && toasts[at as int].index
            == index,
        showing(toasts, index) is None ==> forall|i: int|
            0 <= i < toasts.len() ==> (#[trigger] toasts[i]).index != index,
    decreases toasts.len(),
{
    if toasts.len() > 0 && toasts[0].index != index {
        let rest = toasts.drop_first();
        showing_finds(rest, index);
        if showing(rest, index) is None {
            assert forall|i: int| 0 <= i < toasts.len() implies (#[trigger] toasts[i]).index
                != index by {
                if i > 0 {
                    assert(toasts[i] == rest[i - 1]);
                }
            }
        }
    }
}

/// Raising a notice keeps the deck bounded, with one toast per pane.
pub proof fn raising_keeps_the_deck_bounded(
    deck: DeckView,
    index: u16,
    title: Seq<char>,
    attention: Attention,
    now: Instant,
)
    requires
        deck.wf(),
    ensures
        deck.pushed(index, title, attention, now).wf(),
        deck.pushed(index, title, attention, now).toasts.last().index == index,
{
    showing_finds(deck.toasts, index);
    let next = deck.pushed(index, title, attention, now);
    if let Some(at) = showing(deck.toasts, index) {
        let rest = deck.toasts.remove(at as int);
        assert forall|i: int| 0 <= i < rest.len() implies (#[trigger] rest[i]).index != index by {
            if i < at {
                assert(rest[i] == deck.toasts[i]);
            } else {
                assert(rest[i] == deck.toasts[i + 1]);
            }
        }
    }
}

/// A pane already showing coalesces: the deck grows by none, and the notice
/// counts one more.
pub proof fn a_repeated_event_coalesces(
    deck: DeckView,
    index: u16,
    title: Seq<char>,
    attention: Attention,
    now: Instant,
)
    requires
        deck.wf(),
        showing(deck.toasts, index) is Some,
    ensures
        deck.pushed(index, title, attention, now).toasts.len() == deck.toasts.len(),
        deck.pushed(index, title, attention, now).toasts.last().repeats
            == deck.toasts[showing(deck.toasts, index)->0 as int].repeats.saturating_add(1),
{
    showing_finds(deck.toasts, index);
}

pub(crate) proof fn kept_of(toasts: Seq<ToastView>, now: Instant, index: u16, panes: u16)
    ensures
        unexpired(toasts, now).len() <= toasts.len(),
        without_pane(toasts, index).len() <= toasts.len(),
        within(toasts, panes).len() <= toasts.len(),
        forall|i: int|
            0 <= i < unexpired(toasts, now).len() ==> toasts.contains(
                #[trigger] unexpired(toasts, now)[i],
            ) && now.nanos < unexpired(toasts, now)[i].until.nanos,
        forall|i: int|
            0 <= i < without_pane(toasts, index).len() ==> toasts.contains(
                #[trigger] without_pane(toasts, index)[i],
            ) && without_pane(toasts, index)[i].index != index,
        forall|i: int|
            0 <= i < within(toasts, panes).len() ==> toasts.contains(
                #[trigger] within(toasts, panes)[i],
            ) && within(toasts, panes)[i].index <= panes,
    decreases toasts.len(),
{
    if toasts.len() > 0 {
        let rest = toasts.drop_last();
        kept_of(rest, now, index, panes);
        assert forall|toast: ToastView| rest.contains(toast) implies toasts.contains(toast) by {
            let i = choose|i: int| 0 <= i < rest.len() && rest[i] == toast;
            assert(toasts[i] == toast);
        }
        assert(toasts.contains(toasts.last())) by {
            assert(toasts[toasts.len() - 1] == toasts.last());
        }
    }
}

proof fn kept_are_distinct(toasts: Seq<ToastView>, now: Instant, index: u16, panes: u16)
    requires
        forall|i: int, j: int|
            0 <= i < j < toasts.len() ==> (#[trigger] toasts[i]).index != (
            #[trigger] toasts[j]).index,
    ensures
        forall|i: int, j: int|
            0 <= i < j < unexpired(toasts, now).len() ==> (#[trigger] unexpired(toasts, now)[i]).index
                != (#[trigger] unexpired(toasts, now)[j]).index,
        forall|i: int, j: int|
            0 <= i < j < without_pane(toasts, index).len() ==> (#[trigger] without_pane(
                toasts,
                index,
            )[i]).index != (#[trigger] without_pane(toasts, index)[j]).index,
        forall|i: int, j: int|
            0 <= i < j < within(toasts, panes).len() ==> (#[trigger] within(toasts, panes)[i]).index
                != (#[trigger] within(toasts, panes)[j]).index,
    decreases toasts.len(),
{
    if toasts.len() > 0 {
        let rest = toasts.drop_last();
        assert forall|i: int, j: int| 0 <= i < j < rest.len() implies (#[trigger] rest[i]).index
            != (#[trigger] rest[j]).index by {
            assert(rest[i] == toasts[i]);
            assert(rest[j] == toasts[j]);
        }
        kept_are_distinct(rest, now, index, panes);
        kept_of(rest, now, index, panes);
        assert forall|toast: ToastView| rest.contains(toast) implies toast.index
            != toasts.last().index by {
            let i = choose|i: int| 0 <= i < rest.len() && rest[i] == toast;
            assert(toasts[i] == toast);
            assert(toasts[toasts.len() - 1] == toasts.last());
        }
    }
}

impl ToastDeck {
    /// A deck holding at most `capacity` toasts (at least one).
    pub fn new(capacity: usize) -> (deck: ToastDeck)
        ensures
            deck@ == (DeckView {
                toasts: seq![],
                capacity: if capacity == 0 {
                    1
                } else {
                    capacity as nat
                },
                lifetime: toast_lifetime(),
                settings: MotionSettings::animated(),
            }),
            deck@.wf(),
    {
        let deck = ToastDeck {
            toasts: VecDeque::new(),
            capacity: if capacity == 0 {
                1
            } else {
                capacity
            },
            lifetime: toast_lifetime(),
            settings: MotionSettings::animated(),
        };
        assert(deck@.toasts =~= seq![]);
        deck
    }

    /// Sets how long a toast raised from now on stays up.
    pub fn lifetime(self, lifetime: Duration) -> (deck: ToastDeck)
        ensures
            deck@ == (DeckView { lifetime, ..self@ }),
            self@.wf() ==> deck@.wf(),
    {
        ToastDeck { lifetime, ..self }
    }

    /// Sets the entrance's accessibility settings.
    pub fn motion(self, settings: MotionSettings) -> (deck: ToastDeck)
        ensures
            deck@ == (DeckView { settings, ..self@ }),
            self@.wf() ==> deck@.wf(),
    {
        ToastDeck { settings, ..self }
    }

    /// Replaces the entrance's accessibility settings without losing the stack.
    /// Reduce-motion settles every entrance in flight on this frame.
    pub fn set_motion(&mut self, settings: MotionSettings)
        requires
            old(self)@.wf(),
        ensures
            final(self)@.wf(),
            final(self)@ == old(self)@.moving(settings),
    {
        let ghost before = self.toasts@;
        self.settings = settings;
        if settings.reduce_motion {
            let mut settled: VecDeque<Toast> = VecDeque::new();
            let mut toasts: VecDeque<Toast> = VecDeque::new();
            std::mem::swap(&mut toasts, &mut self.toasts);
            for i in 0..toasts.len()
                invariant
                    toasts@ == before,
                    toast_views(settled@) == toast_views(before.take(i as int)).map_values(
                        |toast: ToastView| toast.settled(),
                    ),
            {
                let ghost so_far = settled@;
                let toast = copy_toast(&toasts[i]);
                settled.push_back(settle_toast(toast));
                assert(before.take(i + 1) =~= before.take(i as int).push(before[i as int]));
                assert(toast_views(settled@) =~= toast_views(so_far).push(
                    before[i as int]@.settled(),
                ));
                assert(toast_views(before.take(i + 1)).map_values(
                    |toast: ToastView| toast.settled(),
                ) =~= toast_views(before.take(i as int)).map_values(
                    |toast: ToastView| toast.settled(),
                ).push(before[i as int]@.settled()));
            }
            assert(before.take(before.len() as int) =~= before);
            self.toasts = settled;
            assert(self@.toasts =~= old(self)@.toasts.map_values(
                |toast: ToastView| toast.settled(),
            ));
        }
    }

    /// How long a toast raised now would stay up.
    pub fn lifetime_of(&self) -> (lifetime: Duration)
        ensures
            lifetime == self@.lifetime,
    {
        self.lifetime
    }

    /// Raises or coalesces a toast for a pane.
    pub fn push(&mut self, index: u16, title: &str, attention: Attention, now: Instant)
        requires
            old(self)@.wf(),
            now.nanos + old(self)@.lifetime.nanos <= u64::MAX,
        ensures
            final(self)@ == old(self)@.pushed(index, title@, attention, now),
            final(self)@.wf(),
    {
        let ghost before = self.toasts@;
        proof {
            raising_keeps_the_deck_bounded(self@, index, title@, attention, now);
            showing_finds(self@.toasts, index);
        }
        match self.position(index) {
            Some(pos) => {
                let mut toast = self.toasts.remove(pos).unwrap();
                toast.title = title.to_owned();
                toast.attention = attention;
                toast.repeats = toast.repeats.saturating_add(1);
                toast.enter(now, self.lifetime, self.settings);
                let ghost raised = toast@;
                self.toasts.push_back(toast);
                assert(self@.toasts =~= toast_views(before).remove(pos as int).push(raised));
            },
            None => {
                if self.toasts.len() == self.capacity {
                    let _ = self.toasts.pop_front();
                    assert(toast_views(self.toasts@) =~= toast_views(before).drop_first());
                }
                let ghost kept = self.toasts@;
                let mut toast = Toast {
                    index,
                    title: title.to_owned(),
                    attention,
                    repeats: 1,
                    until: now,
                    motion: Motion::new(self.settings),
                    phase: None,
                };
                toast.enter(now, self.lifetime, self.settings);
                let ghost raised = toast@;
                self.toasts.push_back(toast);
                assert(self@.toasts =~= toast_views(kept).push(raised));
            },
        }
    }

    fn position(&self, index: u16) -> (at: Option<usize>)
        ensures
            at is Some <==> showing(self@.toasts, index) is Some,
            at matches Some(found) ==> showing(self@.toasts, index) == Some(found as nat) && found
                < self.toasts@.len(),
    {
        let ghost views = self@.toasts;
        let mut i: usize = 0;
        assert(views.skip(0) =~= views);
        while i < self.toasts.len()
            invariant
                views == self@.toasts,
                views.len() == self.toasts@.len(),
                i <= self.toasts.len(),
                showing(views, index) == (match showing(views.skip(i as int), index) {
                    Some(at) => Some((at + i) as nat),
                    None => None,
                }),
            decreases self.toasts.len() - i,
        {
            assert(views.skip(i as int)[0] == self.toasts@[i as int]@);
            if self.toasts[i].index == index {
                return Some(i);
            }
            assert(views.skip(i as int).drop_first() =~= views.skip(i + 1));
            i = i + 1;
        }
        None
    }

    /// Advances every entrance and drops every expired notice, reporting
    /// whether the frame changed.
    pub fn tick(&mut self, now: Instant) -> (changed: bool)
        requires
            old(self)@.wf(),
        ensures
            final(self)@.wf(),
            final(self)@ == old(self)@.ticked(now),
            changed == (unexpired(old(self)@.toasts, now).len() != old(self)@.toasts.len()
                || any_advances(unexpired(old(self)@.toasts, now), now)),
    {
        let ghost before = self.toasts@;
        let ghost views = toast_views(before);
        let mut toasts: VecDeque<Toast> = VecDeque::new();
        std::mem::swap(&mut toasts, &mut self.toasts);
        let mut kept: VecDeque<Toast> = VecDeque::new();
        let mut changed: bool = false;
        let mut i: usize = 0;
        proof {
            assert(unexpired(views.take(0), now) =~= seq![]);
            assert(toast_views(kept@) =~= all_ticked(unexpired(views.take(0), now), now));
        }
        while i < toasts.len()
            invariant
                toasts@ == before,
                views == toast_views(before),
                views.len() == toasts@.len(),
                i <= toasts.len(),
                toast_views(kept@) == all_ticked(unexpired(views.take(i as int), now), now),
                changed == (unexpired(views.take(i as int), now).len() != i || any_advances(
                    unexpired(views.take(i as int), now),
                    now,
                )),
                unexpired(views.take(i as int), now).len() <= i,
            decreases toasts.len() - i,
        {
            let ghost done = unexpired(views.take(i as int), now);
            let ghost next = unexpired(views.take(i + 1), now);
            let ghost so_far = kept@;
            proof {
                assert(views.take(i + 1).drop_last() =~= views.take(i as int));
                assert(views.take(i + 1).last() == toasts@[i as int]@);
            }
            if now.nanos < toasts[i].until.nanos {
                let mut toast = copy_toast(&toasts[i]);
                let ghost view = toast@;
                let advanced: bool = toast.tick(now);
                if advanced {
                    changed = true;
                }
                let ghost after = toast@;
                kept.push_back(toast);
                proof {
                    assert(next == done.push(view));
                    assert(toast_views(kept@) =~= toast_views(so_far).push(after));
                    assert(all_ticked(next, now) =~= all_ticked(done, now).push(after));
                    if any_advances(done, now) {
                        let k = choose|k: int|
                            0 <= k < done.len() && (#[trigger] done[k]).motion.ticked(now).1 is Some;
                        assert(next[k] == done[k]);
                    }
                    if advanced {
                        assert(next[done.len() as int].motion.ticked(now).1 is Some);
                    }
                    if any_advances(next, now) && !advanced {
                        let k = choose|k: int|
                            0 <= k < next.len() && (#[trigger] next[k]).motion.ticked(now).1 is Some;
                        assert(k < done.len());
                        assert(done[k] == next[k]);
                    }
                }
            } else {
                changed = true;
            }
            i = i + 1;
        }
        proof {
            assert(views.take(views.len() as int) =~= views);
            kept_of(views, now, 0, 0);
            kept_are_distinct(views, now, 0, 0);
            let ticked = all_ticked(unexpired(views, now), now);
            assert forall|a: int, b: int| 0 <= a < b < ticked.len() implies (
            #[trigger] ticked[a]).index != (#[trigger] ticked[b]).index by {
                assert(unexpired(views, now)[a].index != unexpired(views, now)[b].index);
            }
        }
        self.toasts = kept;
        changed
    }

    /// Removes a pane's toast, if it has one.
    pub fn dismiss(&mut self, index: u16)
        requires
            old(self)@.wf(),
        ensures
            final(self)@.wf(),
            final(self)@ == old(self)@.dismissed(index),
    {
        let ghost before = self.toasts@;
        let ghost views = toast_views(before);
        let mut toasts: VecDeque<Toast> = VecDeque::new();
        std::mem::swap(&mut toasts, &mut self.toasts);
        let mut kept: VecDeque<Toast> = VecDeque::new();
        assert(toast_views(kept@) =~= without_pane(views.take(0), index));
        for i in 0..toasts.len()
            invariant
                toasts@ == before,
                views == toast_views(before),
                toast_views(kept@) == without_pane(views.take(i as int), index),
        {
            let ghost so_far = kept@;
            proof {
                assert(views.take(i + 1).drop_last() =~= views.take(i as int));
                assert(views.take(i + 1).last() == toasts@[i as int]@);
            }
            if toasts[i].index != index {
                kept.push_back(copy_toast(&toasts[i]));
                assert(toast_views(kept@) =~= toast_views(so_far).push(before[i as int]@));
            }
        }
        proof {
            assert(views.take(views.len() as int) =~= views);
            kept_of(views, Instant { nanos: 0 }, index, 0);
            kept_are_distinct(views, Instant { nanos: 0 }, index, 0);
        }
        self.toasts = kept;
    }

    /// Drops notices for pane positions the workspace no longer has.
    pub fn retain_within(&mut self, panes: u16)
        requires
            old(self)@.wf(),
        ensures
            final(self)@.wf(),
            final(self)@ == old(self)@.retained(panes),
    {
        let ghost before = self.toasts@;
        let ghost views = toast_views(before);
        let mut toasts: VecDeque<Toast> = VecDeque::new();
        std::mem::swap(&mut toasts, &mut self.toasts);
        let mut kept: VecDeque<Toast> = VecDeque::new();
        assert(toast_views(kept@) =~= within(views.take(0), panes));
        for i in 0..toasts.len()
            invariant
                toasts@ == before,
                views == toast_views(before),
                toast_views(kept@) == within(views.take(i as int), panes),
        {
            let ghost so_far = kept@;
            proof {
                assert(views.take(i + 1).drop_last() =~= views.take(i as int));
                assert(views.take(i + 1).last() == toasts@[i as int]@);
            }
            if toasts[i].index <= panes {
                kept.push_back(copy_toast(&toasts[i]));
                assert(toast_views(kept@) =~= toast_views(so_far).push(before[i as int]@));
            }
        }
        proof {
            assert(views.take(views.len() as int) =~= views);
            kept_of(views, Instant { nanos: 0 }, 0, panes);
            kept_are_distinct(views, Instant { nanos: 0 }, 0, panes);
        }
        self.toasts = kept;
    }

    /// The toasts, oldest first.
    pub fn toasts(&self) -> (toasts: &VecDeque<Toast>)
        ensures
            toast_views(toasts@) == self@.toasts,
    {
        &self.toasts
    }

    /// How many toasts are showing.
    pub fn len(&self) -> (len: usize)
        ensures
            len == self@.toasts.len(),
    {
        self.toasts.len()
    }

    /// Whether the deck is empty.
    pub fn is_empty(&self) -> (empty: bool)
        ensures
            empty == (self@.toasts.len() == 0),
    {
        self.toasts.len() == 0
    }

    /// The most a deck will hold at once.
    pub fn capacity(&self) -> (capacity: usize)
        ensures
            capacity == self@.capacity,
    {
        self.capacity
    }
}

fn copy_toast(toast: &Toast) -> (copy: Toast)
    ensures
        copy@ == toast@,
        copy.motion == toast.motion,
{
    Toast {
        index: toast.index,
        title: toast.title.clone(),
        attention: toast.attention,
        repeats: toast.repeats,
        until: toast.until,
        motion: toast.motion,
        phase: toast.phase,
    }
}

fn settle_toast(toast: Toast) -> (settled: Toast)
    ensures
        settled@ == toast@.settled(),
{
    Toast {
        motion: Motion { settings: toast.motion.settings, active: None },
        phase: None,
        ..toast
    }
}

/// A notice never outlives its lifetime, its pane's dismissal, or its pane.
pub proof fn dropped_notices_are_gone(
    toasts: Seq<ToastView>,
    now: Instant,
    index: u16,
    panes: u16,
    i: int,
)
    ensures
        0 <= i < unexpired(toasts, now).len() ==> now.nanos < unexpired(toasts, now)[i].until.nanos,
        0 <= i < without_pane(toasts, index).len() ==> without_pane(toasts, index)[i].index != index,
        0 <= i < within(toasts, panes).len() ==> within(toasts, panes)[i].index <= panes,
{
    kept_of(toasts, now, index, panes);
}

/// An entrance settled by reduce-motion stays settled: no later tick draws
/// another step of it.
pub proof fn a_settled_entrance_asks_for_no_frame(toast: ToastView, now: Instant)
    ensures
        toast.settled().motion.ticked(now).1 is None,
        toast.settled().ticked(now) == toast.settled(),
{
}

/// A step that a toast draws is one of an overlay's entrance, and never the
/// settled one, which is the chrome's own colours.
pub proof fn a_drawn_step_is_an_unsettled_entrance(deck: DeckView, i: int)
    requires
        deck.wf(),
        0 <= i < deck.toasts.len(),
    ensures
        deck.toasts[i].phase matches Some(phase) ==> !phase.is_settled() && phase.kind()
            == MotionKind::Overlay,
{
}

/// One thing that happens to a deck.
pub enum DeckEvent {
    Pushed { index: u16, title: Seq<char>, attention: Attention, now: Instant },
    Ticked { now: Instant },
    Dismissed { index: u16 },
    Retained { panes: u16 },
    MotionSet { settings: MotionSettings },
}

impl DeckEvent {
    /// Whether this raises the notice of a pane.
    pub open spec fn raises(self, pane: u16) -> bool {
        self matches DeckEvent::Pushed { index, .. } && index == pane
    }

    /// Whether this is a tick by which an entrance begun at `at` is over.
    pub open spec fn is_past(self, at: Instant) -> bool {
        self matches DeckEvent::Ticked { now } && now.nanos >= at.nanos + MOTION_STEPS
            * frame_budget().nanos
    }
}

impl DeckView {
    /// This deck after one thing happened to it.
    pub open spec fn after(self, event: DeckEvent) -> DeckView {
        match event {
            DeckEvent::Pushed { index, title, attention, now } => self.pushed(
                index,
                title,
                attention,
                now,
            ),
            DeckEvent::Ticked { now } => self.ticked(now),
            DeckEvent::Dismissed { index } => self.dismissed(index),
            DeckEvent::Retained { panes } => self.retained(panes),
            DeckEvent::MotionSet { settings } => self.moving(settings),
        }
    }

    /// This deck after some things happened to it, the first one first.
    pub open spec fn after_all(self, events: Seq<DeckEvent>) -> DeckView
        decreases events.len(),
    {
        if events.len() == 0 {
            self
        } else {
            self.after_all(events.drop_last()).after(events.last())
        }
    }

    /// Whether the entrance of a pane's notice, where there is one, began at
    /// `at`, and is over where it has to be.
    pub open spec fn entered_at(self, pane: u16, at: Instant, over: bool) -> bool {
        forall|i: int|
            0 <= i < self.toasts.len() && (#[trigger] self.toasts[i]).index == pane
                ==> self.toasts[i].entered_at(at) && (over ==> self.toasts[i].phase is None)
    }
}

/// Everything that happens to a deck keeps its rules.
pub proof fn a_deck_keeps_its_rules(deck: DeckView, event: DeckEvent)
    requires
        deck.wf(),
    ensures
        deck.after(event).wf(),
{
    match event {
        DeckEvent::Pushed { index, title, attention, now } => {
            raising_keeps_the_deck_bounded(deck, index, title, attention, now);
        },
        DeckEvent::Ticked { now } => {
            kept_of(deck.toasts, now, 0, 0);
            kept_are_distinct(deck.toasts, now, 0, 0);
            let kept = unexpired(deck.toasts, now);
            let next = deck.after(event);
            assert forall|i: int, j: int| 0 <= i < j < next.toasts.len() implies (
            #[trigger] next.toasts[i]).index != (#[trigger] next.toasts[j]).index by {
                assert(kept[i].index != kept[j].index);
            }
        },
        DeckEvent::Dismissed { index } => {
            kept_of(deck.toasts, Instant { nanos: 0 }, index, 0);
            kept_are_distinct(deck.toasts, Instant { nanos: 0 }, index, 0);
        },
        DeckEvent::Retained { panes } => {
            kept_of(deck.toasts, Instant { nanos: 0 }, 0, panes);
            kept_are_distinct(deck.toasts, Instant { nanos: 0 }, 0, panes);
        },
        DeckEvent::MotionSet { .. } => {},
    }
}

/// A raised notice begins its entrance then, and has none under reduce-motion.
pub proof fn raising_begins_an_entrance(
    deck: DeckView,
    index: u16,
    title: Seq<char>,
    attention: Attention,
    now: Instant,
)
    requires
        deck.wf(),
    ensures
        deck.pushed(index, title, attention, now).entered_at(
            index,
            now,
            deck.settings.reduce_motion,
        ),
{
    raising_keeps_the_deck_bounded(deck, index, title, attention, now);
    let next = deck.pushed(index, title, attention, now).toasts;
    assert forall|i: int| 0 <= i < next.len() && (#[trigger] next[i]).index == index implies i
        == next.len() - 1 by {
        if i < next.len() - 1 {
            assert(next[i].index != next[next.len() - 1].index);
        }
    }
}

/// By a tick as long after it as a transition takes, an entrance is over.
pub proof fn an_entrance_is_over_in_time(toast: ToastView, at: Instant, now: Instant)
    requires
        toast.wf(),
        toast.entered_at(at),
        (DeckEvent::Ticked { now }).is_past(at),
    ensures
        toast.ticked(now).phase is None,
        toast.ticked(now).motion.active is None,
{
    let since = now.saturating_duration_since(at);
    assert(since.nanos >= 112_000_000);
    assert(since.as_millis() >= 112);
}

proof fn an_entrance_goes_on(deck: DeckView, event: DeckEvent, pane: u16, at: Instant, over: bool)
    requires
        deck.wf(),
        deck.entered_at(pane, at, over),
        !event.raises(pane),
    ensures
        deck.after(event).entered_at(pane, at, over || event.is_past(at)),
{
    let before = deck.toasts;
    let next = deck.after(event).toasts;
    assert forall|i: int| 0 <= i < next.len() && (#[trigger] next[i]).index
        == pane implies next[i].entered_at(at) && (over || event.is_past(at) ==> next[i].phase is None) by {
        match event {
            DeckEvent::Pushed { index, title, attention, now } => {
                showing_finds(before, index);
                raising_keeps_the_deck_bounded(deck, index, title, attention, now);
                assert(i < next.len() - 1);
                assert(before.contains(next[i])) by {
                    match showing(before, index) {
                        Some(gone) => {
                            assert(next[i] == before.remove(gone as int)[i]);
                            if i < gone {
                                assert(next[i] == before[i]);
                            } else {
                                assert(next[i] == before[i + 1]);
                            }
                        },
                        None => {
                            if before.len() == deck.capacity {
                                assert(next[i] == before[i + 1]);
                            } else {
                                assert(next[i] == before[i]);
                            }
                        },
                    }
                }
                let k = choose|k: int| 0 <= k < before.len() && before[k] == next[i];
                assert(before[k].index == pane);
            },
            DeckEvent::Ticked { now } => {
                kept_of(before, now, 0, 0);
                let was = unexpired(before, now)[i];
                assert(before.contains(was));
                let k = choose|k: int| 0 <= k < before.len() && before[k] == was;
                assert(before[k].index == pane);
                if event.is_past(at) {
                    an_entrance_is_over_in_time(was, at, now);
                }
            },
            DeckEvent::Dismissed { index } => {
                kept_of(before, Instant { nanos: 0 }, index, 0);
                let k = choose|k: int| 0 <= k < before.len() && before[k] == next[i];
                assert(before[k].index == pane);
            },
            DeckEvent::Retained { panes } => {
                kept_of(before, Instant { nanos: 0 }, 0, panes);
                let k = choose|k: int| 0 <= k < before.len() && before[k] == next[i];
                assert(before[k].index == pane);
            },
            DeckEvent::MotionSet { .. } => {
                assert(before[i].index == pane);
            },
        }
    }
}

/// Until a pane is raised again its entrance only goes on: it keeps the moment it
/// began, and once a tick found it over nothing brings it back.
pub proof fn an_entrance_ends_and_stays_ended(
    deck: DeckView,
    events: Seq<DeckEvent>,
    pane: u16,
    at: Instant,
    over: bool,
)
    requires
        deck.wf(),
        deck.entered_at(pane, at, over),
        forall|i: int| 0 <= i < events.len() ==> !(#[trigger] events[i]).raises(pane),
    ensures
        deck.after_all(events).wf(),
        deck.after_all(events).entered_at(
            pane,
            at,
            over || exists|i: int| 0 <= i < events.len() && (#[trigger] events[i]).is_past(at),
        ),
    decreases events.len(),
{
    if events.len() > 0 {
        let earlier = events.drop_last();
        assert forall|i: int| 0 <= i < earlier.len() implies !(#[trigger] earlier[i]).raises(
            pane,
        ) by {
            assert(earlier[i] == events[i]);
        }
        an_entrance_ends_and_stays_ended(deck, earlier, pane, at, over);
        let ended = over || exists|i: int|
            0 <= i < earlier.len() && (#[trigger] earlier[i]).is_past(at);
        let last = events[events.len() - 1];
        an_entrance_goes_on(deck.after_all(earlier), last, pane, at, ended);
        a_deck_keeps_its_rules(deck.after_all(earlier), last);
        if exists|i: int| 0 <= i < events.len() && (#[trigger] events[i]).is_past(at) {
            let i = choose|i: int| 0 <= i < events.len() && (#[trigger] events[i]).is_past(at);
            if i < earlier.len() {
                assert(earlier[i].is_past(at));
            }
        }
    }
}

/// The line a toast shows, before it is cut: title, state, and the repeat
/// count where there is one.
pub open spec fn toast_line(toast: ToastView, theme: Theme) -> Seq<Cell> {
    plain(toast.title, theme.primary, CellAttrs::none()) + plain(
        seq![' '],
        Color::Default,
        CellAttrs::none(),
    ) + plain(
        seq![toast.attention.glyph(), ' '] + toast.attention.words(),
        toast.attention.color_in(theme),
        CellAttrs::none(),
    ) + (if toast.repeats > 1 {
        plain(
            seq![' ', '(', 'x'] + decimal(toast.repeats as nat) + seq![')'],
            theme.muted,
            CellAttrs::none(),
        )
    } else {
        seq![]
    })
}

/// A toast's cells in one theme, no wider than `width`.
pub open spec fn toast_row(toast: ToastView, width: nat, theme: Theme) -> Seq<Cell> {
    theme.mapped_cells(cut(toast_line(toast, theme), width))
}

/// A concise toast line, cut to `width`, in one client theme. Not padded: a
/// toast floats over the layout rather than owning a row.
pub fn toast_cells_in(toast: &Toast, width: u16, theme: Theme) -> (cells: Vec<Cell>)
    ensures
        cells@ == toast_row(toast@, width as nat, theme),
        cells@.len() <= width,
{
    let width: usize = width as usize;
    let mut cells: Vec<Cell> = Vec::new();
    push_str(&mut cells, toast.title.as_str(), theme.primary, CellAttrs::none());
    push_glyph(&mut cells, ' ', Color::Default, CellAttrs::none());
    let mut state: Vec<char> = Vec::new();
    state.push(toast.attention.glyph());
    state.push(' ');
    let label = chars_of(toast.attention.label());
    push_all(&mut state, label.as_slice());
    assert(state@ =~= seq![toast.attention.glyph(), ' '] + toast.attention.words());
    push_chars(
        &mut cells,
        state.as_slice(),
        toast.attention.color_in(theme),
        surface(),
        CellAttrs::none(),
    );
    if toast.repeats > 1 {
        let mut count: Vec<char> = Vec::new();
        count.push(' ');
        count.push('(');
        count.push('x');
        let number = decimal_chars(toast.repeats as u64);
        push_all(&mut count, number.as_slice());
        count.push(')');
        assert(count@ =~= seq![' ', '(', 'x'] + decimal(toast.repeats as nat) + seq![')']);
        push_chars(&mut cells, count.as_slice(), theme.muted, surface(), CellAttrs::none());
    }
    assert(cells@ =~= toast_line(toast@, theme));
    if cells.len() > width {
        cells.truncate(width);
    }
    theme.map_storm_cells(cells)
}

/// A concise toast line, cut to `width`, in the default palette.
pub fn toast_cells(toast: &Toast, width: u16) -> (cells: Vec<Cell>)
    ensures
        cells@ == toast_row(toast@, width as nat, Theme::storm()),
        cells@.len() <= width,
{
    toast_cells_in(toast, width, Theme::storm())
}

/// A toast as a positioned span.
pub fn toast_span(at: Point, toast: &Toast, width: u16) -> (span: Span)
    ensures
        span@ == (SpanView { at, cells: toast_row(toast@, width as nat, Theme::storm()) }),
{
    Span::new(at, toast_cells(toast, width))
}

/// The first `count` rows from `row` up to `last`, skipping `avoid`.
pub open spec fn rows_from(row: nat, last: nat, count: nat, avoid: Option<u16>) -> Seq<u16>
    decreases last + 1 - row,
{
    if count == 0 || row > last {
        seq![]
    } else if avoid == Some(row as u16) {
        rows_from(row + 1, last, count, avoid)
    } else {
        seq![row as u16] + rows_from(row + 1, last, (count - 1) as nat, avoid)
    }
}

/// The last row the stack may use: the one above the status row.
pub open spec fn last_toast_row(outer: Size) -> nat {
    if outer.rows < 2 {
        0
    } else {
        (outer.rows - 2) as nat
    }
}

/// The rows a bounded toast stack draws on, oldest first: the rows between the
/// two fixed chrome rows, skipping `avoid_row`.
pub fn toast_rows(outer: Size, count: usize, avoid_row: Option<u16>) -> (rows: Vec<u16>)
    ensures
        rows@ == rows_from(1, last_toast_row(outer), count as nat, avoid_row),
{
    let last: u16 = if outer.rows < 2 {
        0
    } else {
        outer.rows - 2
    };
    let mut rows: Vec<u16> = Vec::new();
    let mut row: u16 = 1;
    while rows.len() < count && row <= last
        invariant
            last == last_toast_row(outer),
            1 <= row <= last + 1,
            rows@.len() <= count,
            rows_from(1, last as nat, count as nat, avoid_row) == rows@ + rows_from(
                row as nat,
                last as nat,
                (count - rows@.len()) as nat,
                avoid_row,
            ),
        decreases last + 1 - row,
    {
        let ghost before = rows@;
        if avoid_row != Some(row) {
            rows.push(row);
        }
        proof {
            let rest = rows_from(
                (row + 1) as nat,
                last as nat,
                (count - rows@.len()) as nat,
                avoid_row,
            );
            assert(before + rows_from(
                row as nat,
                last as nat,
                (count - before.len()) as nat,
                avoid_row,
            ) =~= rows@ + rest);
        }
        row = row + 1;
    }
    assert(rows@ + Seq::<u16>::empty() =~= rows@);
    rows
}

/// A toast never covers the tab row, the status row, or the row being typed
/// into, and no two share a row.
pub proof fn toasts_keep_to_the_safe_rows(outer: Size, count: nat, avoid: Option<u16>, i: int)
    requires
        0 <= i < rows_from(1, last_toast_row(outer), count, avoid).len(),
    ensures
        ({
            let row = rows_from(1, last_toast_row(outer), count, avoid)[i];
            &&& 0 < row
            &&& row + 1 < outer.rows
            &&& avoid != Some(row)
        }),
        rows_from(1, last_toast_row(outer), count, avoid).len() <= count,
        forall|j: int|
            0 <= j < i ==> rows_from(1, last_toast_row(outer), count, avoid)[j] < rows_from(
                1,
                last_toast_row(outer),
                count,
                avoid,
            )[i],
{
    rows_ascend(1, last_toast_row(outer), count, avoid);
}

proof fn rows_ascend(row: nat, last: nat, count: nat, avoid: Option<u16>)
    requires
        last <= u16::MAX,
    ensures
        rows_from(row, last, count, avoid).len() <= count,
        forall|i: int|
            0 <= i < rows_from(row, last, count, avoid).len() ==> row <= (#[trigger] rows_from(
                row,
                last,
                count,
                avoid,
            )[i]) <= last && avoid != Some(rows_from(row, last, count, avoid)[i]),
        forall|i: int, j: int|
            0 <= i < j < rows_from(row, last, count, avoid).len() ==> (#[trigger] rows_from(
                row,
                last,
                count,
                avoid,
            )[i]) < (#[trigger] rows_from(row, last, count, avoid)[j]),
    decreases last + 1 - row,
{
    if count > 0 && row <= last {
        if avoid == Some(row as u16) {
            rows_ascend(row + 1, last, count, avoid);
        } else {
            rows_ascend(row + 1, last, (count - 1) as nat, avoid);
            let rest = rows_from(row + 1, last, (count - 1) as nat, avoid);
            let all = rows_from(row, last, count, avoid);
            assert forall|i: int| 1 <= i < all.len() implies all[i] == rest[i - 1] by {}
        }
    }
}

/// How wide a toast may be on a frame.
pub open spec fn toast_width(outer: Size) -> nat {
    if outer.cols < 2 {
        0
    } else if outer.cols - 2 < TOAST_MAX_WIDTH {
        (outer.cols - 2) as nat
    } else {
        TOAST_MAX_WIDTH as nat
    }
}

/// One toast, right-aligned in the outer frame's upper-right safe area.
pub fn toast_stack_span(outer: Size, row: u16, toast: &Toast, theme: Theme) -> (span: Span)
    ensures
        span@ == ({
            let cells = toast_row(toast@, toast_width(outer), theme);
            SpanView {
                at: Point {
                    col: if outer.cols < 1 + cells.len() {
                        0
                    } else {
                        (outer.cols - 1 - cells.len()) as u16
                    },
                    row,
                },
                cells,
            }
        }),
        span@.cells.len() > 0 ==> span@.at.col + span@.cells.len() < outer.cols,
{
    let spare: u16 = if outer.cols < 2 {
        0
    } else {
        outer.cols - 2
    };
    let width: u16 = if spare < TOAST_MAX_WIDTH {
        spare
    } else {
        TOAST_MAX_WIDTH
    };
    let cells = toast_cells_in(toast, width, theme);
    let len: u16 = cells.len() as u16;
    let col: u16 = outer.cols.saturating_sub(len + TOAST_MARGIN);
    Span::new(Point::new(col, row), cells)
}

/// A raised notice is the newest and says what was raised: the pane, its name and
/// its state, up for the deck's lifetime. A repeat counts one more, and everyone
/// else's notice stays as it was, but for the oldest of a full deck.
pub proof fn a_raised_notice_is_the_newest(
    deck: DeckView,
    index: u16,
    title: Seq<char>,
    attention: Attention,
    now: Instant,
    i: int,
)
    requires
        deck.wf(),
        0 <= i < deck.toasts.len(),
        now.nanos + deck.lifetime.nanos <= u64::MAX,
    ensures
        ({
            let next = deck.pushed(index, title, attention, now);
            let raised = next.toasts.last();
            let shown = exists|k: int|
                0 <= k < deck.toasts.len() && (#[trigger] deck.toasts[k]).index == index;
            &&& next.toasts.len() > 0
            &&& raised.index == index
            &&& raised.title == title
            &&& raised.attention == attention
            &&& raised.until.nanos == now.nanos + deck.lifetime.nanos
            &&& deck.toasts[i].index == index ==> raised.repeats == if deck.toasts[i].repeats
                == u32::MAX {
                u32::MAX as int
            } else {
                deck.toasts[i].repeats + 1
            }
            &&& !shown ==> raised.repeats == 1
            &&& deck.toasts[i].index != index && !(i == 0 && !shown && deck.toasts.len()
                == deck.capacity) ==> next.toasts.contains(deck.toasts[i])
            &&& shown ==> next.toasts.len() == deck.toasts.len()
            &&& !shown ==> next.toasts.len() == if deck.toasts.len() == deck.capacity {
                deck.capacity
            } else {
                deck.toasts.len() + 1
            }
            &&& next.capacity == deck.capacity
            &&& next.lifetime == deck.lifetime
            &&& next.settings == deck.settings
        }),
{
    showing_finds(deck.toasts, index);
    let next = deck.pushed(index, title, attention, now);
    let toast = deck.toasts[i];
    match showing(deck.toasts, index) {
        Some(at) => {
            let at = at as int;
            assert(deck.toasts[at].index == index);
            if toast.index == index {
                if at < i {
                    assert(deck.toasts[at].index != deck.toasts[i].index);
                }
                if i < at {
                    assert(deck.toasts[i].index != deck.toasts[at].index);
                }
            } else if i < at {
                assert(next.toasts[i] == toast);
            } else {
                assert(next.toasts[i - 1] == toast);
            }
        },
        None => {
            if deck.toasts.len() == deck.capacity {
                if i > 0 {
                    assert(next.toasts[i - 1] == toast);
                }
            } else {
                assert(next.toasts[i] == toast);
            }
        },
    }
}

/// The first notice of an empty deck is all it shows.
pub proof fn a_first_notice_is_shown(
    deck: DeckView,
    index: u16,
    title: Seq<char>,
    attention: Attention,
    now: Instant,
)
    requires
        deck.wf(),
        deck.toasts.len() == 0,
        now.nanos + deck.lifetime.nanos <= u64::MAX,
    ensures
        ({
            let next = deck.pushed(index, title, attention, now);
            &&& next.toasts.len() == 1
            &&& next.toasts[0].index == index
            &&& next.toasts[0].title == title
            &&& next.toasts[0].attention == attention
            &&& next.toasts[0].repeats == 1
            &&& next.toasts[0].until.nanos == now.nanos + deck.lifetime.nanos
        }),
{
}

proof fn kept_what_stays(toasts: Seq<ToastView>, now: Instant, index: u16, panes: u16, toast: ToastView)
    ensures
        unexpired(toasts, now).contains(toast) <==> toasts.contains(toast) && now.nanos
            < toast.until.nanos,
        without_pane(toasts, index).contains(toast) <==> toasts.contains(toast) && toast.index
            != index,
        within(toasts, panes).contains(toast) <==> toasts.contains(toast) && toast.index <= panes,
    decreases toasts.len(),
{
    if toasts.len() > 0 {
        let front = toasts.drop_last();
        kept_what_stays(front, now, index, panes, toast);
        assert(toasts.contains(toast) <==> front.contains(toast) || toasts.last() == toast) by {
            if toasts.contains(toast) {
                let i = choose|i: int| 0 <= i < toasts.len() && toasts[i] == toast;
                if i < front.len() {
                    assert(front[i] == toast);
                }
            }
            if front.contains(toast) {
                let i = choose|i: int| 0 <= i < front.len() && front[i] == toast;
                assert(toasts[i] == toast);
            }
            assert(toasts[toasts.len() - 1] == toasts.last());
        }
        pushing_contains(unexpired(front, now), toasts.last(), toast);
        pushing_contains(without_pane(front, index), toasts.last(), toast);
        pushing_contains(within(front, panes), toasts.last(), toast);
    }
}

proof fn pushing_contains(list: Seq<ToastView>, last: ToastView, toast: ToastView)
    ensures
        list.push(last).contains(toast) <==> list.contains(toast) || last == toast,
{
    let more = list.push(last);
    if more.contains(toast) {
        let i = choose|i: int| 0 <= i < more.len() && more[i] == toast;
        if i < list.len() {
            assert(list[i] == toast);
        }
    }
    if list.contains(toast) {
        let i = choose|i: int| 0 <= i < list.len() && list[i] == toast;
        assert(more[i] == toast);
    }
    assert(more[list.len() as int] == last);
}

/// A tick takes the notices whose time is up and no others; a dismissal takes its
/// pane's, and a smaller workspace those of the positions it no longer has.
pub proof fn only_what_is_over_leaves(
    deck: DeckView,
    now: Instant,
    index: u16,
    panes: u16,
    toast: ToastView,
)
    requires
        deck.toasts.contains(toast),
    ensures
        deck.ticked(now).toasts.contains(toast.ticked(now)) || now.nanos >= toast.until.nanos,
        deck.dismissed(index).toasts.contains(toast) <==> toast.index != index,
        deck.retained(panes).toasts.contains(toast) <==> toast.index <= panes,
        forall|i: int|
            0 <= i < deck.ticked(now).toasts.len() ==> now.nanos < (
            #[trigger] deck.ticked(now).toasts[i]).until.nanos,
        toast.ticked(now).index == toast.index,
        toast.ticked(now).title == toast.title,
        toast.ticked(now).attention == toast.attention,
        toast.ticked(now).repeats == toast.repeats,
        toast.ticked(now).until == toast.until,
{
    kept_what_stays(deck.toasts, now, index, panes, toast);
    kept_of(deck.toasts, now, index, panes);
    let kept = unexpired(deck.toasts, now);
    if now.nanos < toast.until.nanos {
        let i = choose|i: int| 0 <= i < kept.len() && kept[i] == toast;
        assert(deck.ticked(now).toasts[i] == toast.ticked(now));
    }
    assert forall|i: int| 0 <= i < deck.ticked(now).toasts.len() implies now.nanos < (
    #[trigger] deck.ticked(now).toasts[i]).until.nanos by {
        assert(deck.ticked(now).toasts[i] == kept[i].ticked(now));
    }
}

} // verus!
