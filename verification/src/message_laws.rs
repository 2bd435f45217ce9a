//! What each message makes of the projection, in the message's own terms.

use vstd::prelude::*;

use crate::frame::Cursor;
use crate::input::PaneArea;
use crate::live::{
    blank_grid, laid_areas, pane_entries, state_entries, GridView, LiveView, PaneCursor,
};
use crate::live_laws::{shows_or_gave_way, turned, what_turned_is_told};
use crate::panes::{ascending, holds, inserting, kept_in, lookup, lookup_finds};
use crate::proto::{
    Color, CopyModeState, CursorShape, LayoutSnapshot, PaneAttention, PaneId, PaneInfo, PaneModes,
    PaneRect, Point, RowUpdate, ServerMessage, Size, TabSummary,
};
use crate::renderer::RenderError;
use crate::time::Instant;
use crate::toast::{within, ToastView};

verus! {

/// Whether an entry of a list is the last one about its pane.
pub open spec fn is_last_word<A>(list: Seq<A>, pane_of: spec_fn(A) -> PaneId, i: int) -> bool {
    0 <= i < list.len() && forall|j: int|
        i < j < list.len() ==> pane_of(#[trigger] list[j]) != pane_of(list[i])
}

proof fn states_hold_the_last_word(states: Seq<PaneAttention>, pane: PaneId)
    ensures
        ascending(state_entries(states)),
        forall|i: int|
            #![trigger states[i]]
            is_last_word(states, |state: PaneAttention| state.pane, i) && states[i].pane == pane
                ==> lookup(state_entries(states), pane) == Some(states[i]),
        (forall|i: int| 0 <= i < states.len() ==> (#[trigger] states[i]).pane != pane) ==> lookup(
            state_entries(states),
            pane,
        ) is None,
    decreases states.len(),
{
    let pane_of = |state: PaneAttention| state.pane;
    if states.len() > 0 {
        let front = states.drop_last();
        let last = states[states.len() - 1];
        states_hold_the_last_word(front, pane);
        inserting(state_entries(front), last.pane, last, pane);
        assert forall|i: int|
            #![trigger states[i]]
            is_last_word(states, pane_of, i) && states[i].pane == pane implies lookup(
            state_entries(states),
            pane,
        ) == Some(states[i]) by {
            if i < front.len() {
                assert(front[i] == states[i]);
                assert(pane_of(states[states.len() - 1]) != pane_of(states[i]));
                assert forall|j: int| i < j < front.len() implies pane_of(#[trigger] front[j])
                    != pane_of(front[i]) by {
                    assert(front[j] == states[j]);
                }
                assert(is_last_word(front, pane_of, i));
            }
        }
        if forall|i: int| 0 <= i < states.len() ==> (#[trigger] states[i]).pane != pane {
            assert forall|i: int| 0 <= i < front.len() implies (#[trigger] front[i]).pane != pane by {
                assert(front[i] == states[i]);
            }
        }
    }
}

proof fn panes_are_named(infos: Seq<PaneInfo>, pane: PaneId)
    ensures
        ascending(pane_entries(infos)),
        (forall|i: int| 0 <= i < infos.len() ==> (#[trigger] infos[i]).pane != pane) ==> lookup(
            pane_entries(infos),
            pane,
        ) is None,
    decreases infos.len(),
{
    if infos.len() > 0 {
        let front = infos.drop_last();
        let last = infos[infos.len() - 1];
        panes_are_named(front, pane);
        inserting(pane_entries(front), last.pane, last, pane);
        if forall|i: int| 0 <= i < infos.len() ==> (#[trigger] infos[i]).pane != pane {
            assert forall|i: int| 0 <= i < front.len() implies (#[trigger] front[i]).pane != pane by {
                assert(front[i] == infos[i]);
            }
        }
    }
}

#[verifier::rlimit(40)]
proof fn panes_hold_the_last_word(infos: Seq<PaneInfo>, i: int)
    requires
        0 <= i < infos.len(),
        forall|j: int| i < j < infos.len() ==> (#[trigger] infos[j]).pane != infos[i].pane,
    ensures
        lookup(pane_entries(infos), infos[i].pane) == Some(infos[i]),
    decreases infos.len(),
{
    let front = infos.drop_last();
    let last = infos[infos.len() - 1];
    panes_are_named(front, infos[i].pane);
    inserting(pane_entries(front), last.pane, last, infos[i].pane);
    if i < front.len() {
        assert(front[i] == infos[i]);
        assert(infos[infos.len() - 1].pane != infos[i].pane);
        assert forall|j: int| i < j < front.len() implies (#[trigger] front[j]).pane
            != front[i].pane by {
            assert(front[j] == infos[j]);
        }
        panes_hold_the_last_word(front, i);
    }
}

/// The grid area of a rectangle: where the session put it, below the tab row.
pub open spec fn drawn_area(rect: PaneRect, area: PaneArea) -> bool {
    &&& area.pane == rect.pane
    &&& area.x == rect.x
    &&& area.y == if rect.y == u16::MAX {
        u16::MAX as int
    } else {
        rect.y + 1
    }
    &&& area.size == rect.size
    &&& area.header
}

proof fn areas_hold_the_last_word(rects: Seq<PaneRect>, pane: PaneId)
    ensures
        ascending(laid_areas(rects)),
        forall|i: int|
            #![trigger rects[i]]
            is_last_word(rects, |rect: PaneRect| rect.pane, i) && rects[i].pane == pane ==> match lookup(
                laid_areas(rects),
                pane,
            ) {
                Some(area) => drawn_area(rects[i], area),
                None => false,
            },
        (forall|i: int| 0 <= i < rects.len() ==> (#[trigger] rects[i]).pane != pane) ==> lookup(
            laid_areas(rects),
            pane,
        ) is None,
    decreases rects.len(),
{
    let pane_of = |rect: PaneRect| rect.pane;
    if rects.len() > 0 {
        let front = rects.drop_last();
        let last = rects[rects.len() - 1];
        areas_hold_the_last_word(front, pane);
        inserting(laid_areas(front), last.pane, crate::live::area_of(last), pane);
        assert forall|i: int|
            #![trigger rects[i]]
            is_last_word(rects, pane_of, i) && rects[i].pane == pane implies match lookup(
            laid_areas(rects),
            pane,
        ) {
            Some(area) => drawn_area(rects[i], area),
            None => false,
        } by {
            if i < front.len() {
                assert(front[i] == rects[i]);
                assert(pane_of(rects[rects.len() - 1]) != pane_of(rects[i]));
                assert forall|j: int| i < j < front.len() implies pane_of(#[trigger] front[j])
                    != pane_of(front[i]) by {
                    assert(front[j] == rects[j]);
                }
                assert(is_last_word(front, pane_of, i));
            }
        }
        if forall|i: int| 0 <= i < rects.len() ==> (#[trigger] rects[i]).pane != pane {
            assert forall|i: int| 0 <= i < front.len() implies (#[trigger] front[i]).pane != pane by {
                assert(front[i] == rects[i]);
            }
        }
    }
}

/// What the server told about states is what is held: the last word about each
/// pane, and nothing about a pane it did not name. The other projections stay.
pub proof fn states_are_held_as_told(
    state: LiveView,
    states: Vec<PaneAttention>,
    now: Instant,
    i: int,
    pane: PaneId,
)
    ensures
        ({
            let (after, result) = state.applied(ServerMessage::Attention(states), now);
            &&& result == Ok::<bool, RenderError>(true)
            &&& is_last_word(states@, |told: PaneAttention| told.pane, i) ==> lookup(
                after.attention,
                states@[i].pane,
            ) == Some(states@[i])
            &&& (forall|k: int| 0 <= k < states@.len() ==> (#[trigger] states@[k]).pane != pane)
                ==> lookup(after.attention, pane) is None
            &&& after == (LiveView {
                attention: after.attention,
                queue: after.queue,
                toasts: after.toasts,
                overlay: after.overlay,
                ..state
            })
        }),
{
    states_hold_the_last_word(states@, pane);
    if 0 <= i < states@.len() {
        states_hold_the_last_word(states@, states@[i].pane);
    }
}

proof fn staying_within(toasts: Seq<ToastView>, panes: u16, k: int)
    requires
        0 <= k <= toasts.len(),
        forall|i: int| k <= i < toasts.len() ==> (#[trigger] toasts[i]).index <= panes,
    ensures
        within(toasts, panes) == within(toasts.take(k), panes) + toasts.skip(k),
    decreases toasts.len(),
{
    if k < toasts.len() {
        let front = toasts.drop_last();
        assert(toasts.last() == toasts[toasts.len() - 1]);
        assert forall|i: int| k <= i < front.len() implies (#[trigger] front[i]).index <= panes by {
            assert(front[i] == toasts[i]);
        }
        staying_within(front, panes, k);
        assert(front.take(k) =~= toasts.take(k));
        assert(within(toasts, panes) =~= within(toasts.take(k), panes) + toasts.skip(k));
    } else {
        assert(toasts.take(k) =~= toasts);
        assert(toasts.skip(k) =~= seq![]);
        assert(within(toasts, panes) =~= within(toasts.take(k), panes) + toasts.skip(k));
    }
}

/// A pane whose state becomes one that asks for someone is told about: behind the
/// message its notice is up, with its name and that state, whatever the state was
/// before. Only a deck full of notices about later panes can be without it.
pub proof fn a_message_tells_what_turned(
    state: LiveView,
    states: Vec<PaneAttention>,
    now: Instant,
    at: int,
    i: int,
)
    requires
        state.toasts.wf(),
        now.nanos + state.toasts.lifetime.nanos <= u64::MAX,
        0 <= at < state.panes.len() <= u16::MAX,
        is_last_word(states@, |told: PaneAttention| told.pane, i),
        states@[i].pane == state.panes[at].1.pane,
        turned(lookup(state.attention, state.panes[at].1.pane), Some(states@[i])),
    ensures
        shows_or_gave_way(
            state.applied(ServerMessage::Attention(states), now).0.toasts,
            at,
            state.panes.len(),
            state.panes[at].1.name@,
            states@[i].state,
            now,
        ),
{
    let pane = state.panes[at].1.pane;
    states_hold_the_last_word(states@, pane);
    let next = state_entries(states@);
    let count = state.panes.len();
    let title = state.panes[at].1.name@;
    let mark = states@[i].state;
    what_turned_is_told(state.toasts, state.panes, state.attention, next, now, count, at);
    let deck = crate::live::noticed(
        state.toasts,
        state.panes,
        state.attention,
        next,
        now,
        count,
    );
    let after = state.applied(ServerMessage::Attention(states), now).0.toasts;
    assert(after.toasts == within(deck.toasts, count as u16));
    if exists|k: int|
        0 <= k < deck.toasts.len() && #[trigger] crate::live_laws::is_notice(
            deck.toasts[k],
            at,
            title,
            mark,
            now,
            deck.lifetime,
        ) && forall|j: int|
            k < j < deck.toasts.len() ==> at + 1 < (#[trigger] deck.toasts[j]).index <= count {
        let k = choose|k: int|
            0 <= k < deck.toasts.len() && #[trigger] crate::live_laws::is_notice(
                deck.toasts[k],
                at,
                title,
                mark,
                now,
                deck.lifetime,
            ) && forall|j: int|
                k < j < deck.toasts.len() ==> at + 1 < (#[trigger] deck.toasts[j]).index <= count;
        assert forall|j: int| k <= j < deck.toasts.len() implies (#[trigger] deck.toasts[j]).index
            <= count as u16 by {}
        staying_within(deck.toasts, count as u16, k);
        let front = within(deck.toasts.take(k), count as u16);
        let at_k = front.len() as int;
        assert(after.toasts[at_k] == deck.toasts[k]);
        assert(crate::live_laws::is_notice(
            after.toasts[at_k],
            at,
            title,
            mark,
            now,
            after.lifetime,
        ));
        assert forall|j: int| at_k < j < after.toasts.len() implies at + 1 < (
        #[trigger] after.toasts[j]).index <= count by {
            assert(after.toasts[j] == deck.toasts[k + (j - at_k)]);
        }
    } else {
        assert forall|j: int| 0 <= j < deck.toasts.len() implies (#[trigger] deck.toasts[j]).index
            <= count as u16 by {}
        staying_within(deck.toasts, count as u16, 0);
        assert(deck.toasts.take(0) =~= seq![]);
        assert(within(deck.toasts.take(0), count as u16) =~= seq![]);
        assert(after.toasts =~= deck.toasts);
    }
}

/// What the server told about panes is what is held: the last word about each,
/// and nothing about any other. A launch is answered by a pane of its profile
/// that was not there when it was sent, and by nothing else.
pub proof fn panes_are_held_as_told(
    state: LiveView,
    infos: Vec<PaneInfo>,
    now: Instant,
    i: int,
    pane: PaneId,
)
    ensures
        ({
            let (after, result) = state.applied(ServerMessage::Panes(infos), now);
            &&& result == Ok::<bool, RenderError>(true)
            &&& is_last_word(infos@, |told: PaneInfo| told.pane, i) ==> lookup(
                after.panes,
                infos@[i].pane,
            ) == Some(infos@[i])
            &&& (forall|k: int| 0 <= k < infos@.len() ==> (#[trigger] infos@[k]).pane != pane)
                ==> lookup(after.panes, pane) is None
            &&& match state.launch {
                None => after.launch is None,
                Some(notice) => if !notice.refused && exists|k: int|
                    0 <= k < infos@.len() && (#[trigger] infos@[k]).profile@ == notice.profile
                        && !notice.before.contains(infos@[k].pane) {
                    after.launch is None
                } else {
                    after.launch == Some(notice)
                },
            }
            &&& after == (LiveView {
                panes: after.panes,
                launch: after.launch,
                queue: after.queue,
                toasts: after.toasts,
                overlay: after.overlay,
                ..state
            })
        }),
{
    panes_are_named(infos@, pane);
    let pane_of = |told: PaneInfo| told.pane;
    if is_last_word(infos@, pane_of, i) {
        assert forall|j: int| i < j < infos@.len() implies (#[trigger] infos@[j]).pane
            != infos@[i].pane by {
            assert(pane_of(infos@[j]) != pane_of(infos@[i]));
        }
        panes_hold_the_last_word(infos@, i);
    }
    if let Some(notice) = state.launch {
        if exists|k: int|
            0 <= k < infos@.len() && (#[trigger] infos@[k]).profile@ == notice.profile
                && !notice.before.contains(infos@[k].pane) {
            let k = choose|k: int|
                0 <= k < infos@.len() && (#[trigger] infos@[k]).profile@ == notice.profile
                    && !notice.before.contains(infos@[k].pane);
            assert(notice.answered_by(infos@[k]));
        }
    }
}

proof fn keeping_keeps<V, W>(entries: Seq<(PaneId, V)>, others: Seq<(PaneId, W)>, pane: PaneId)
    requires
        ascending(entries),
    ensures
        lookup(kept_in(entries, others), pane) == if holds(others, pane) {
            lookup(entries, pane)
        } else {
            None
        },
    decreases entries.len(),
{
    let kept = kept_in(entries, others);
    crate::panes::keeping(entries, others);
    if holds(entries, pane) && holds(others, pane) {
        let r = crate::panes::rank(entries, pane) as int;
        kept_stays(entries, others, r);
        let k = choose|k: int| 0 <= k < kept.len() && kept[k] == entries[r];
        lookup_finds(kept, pane, k);
    } else if holds(kept, pane) {
        let k = crate::panes::rank(kept, pane) as int;
        assert(entries.contains(kept[k]));
        let r = choose|r: int| 0 <= r < entries.len() && entries[r] == kept[k];
        lookup_finds(entries, pane, r);
        kept_is_held(entries, others, k);
    }
}

proof fn kept_stays<V, W>(entries: Seq<(PaneId, V)>, others: Seq<(PaneId, W)>, r: int)
    requires
        0 <= r < entries.len(),
        holds(others, entries[r].0),
    ensures
        kept_in(entries, others).contains(entries[r]),
    decreases entries.len(),
{
    let front = entries.drop_last();
    let rest = kept_in(front, others);
    let all = kept_in(entries, others);
    if r < front.len() {
        kept_stays(front, others, r);
        let k = choose|k: int| 0 <= k < rest.len() && rest[k] == front[r];
        assert(all[k] == entries[r]);
    } else {
        assert(all[rest.len() as int] == entries[r]);
    }
}

proof fn kept_is_held<V, W>(entries: Seq<(PaneId, V)>, others: Seq<(PaneId, W)>, k: int)
    requires
        0 <= k < kept_in(entries, others).len(),
    ensures
        holds(others, kept_in(entries, others)[k].0),
    decreases entries.len(),
{
    if entries.len() > 0 {
        let rest = kept_in(entries.drop_last(), others);
        if k < rest.len() {
            kept_is_held(entries.drop_last(), others, k);
        }
    }
}

/// A layout places its panes: each one's grid where the session put it, one row
/// further down for the tab row. Cursors and modes are kept for the panes that
/// are still there, and for no others; focus is the layout's.
#[verifier::rlimit(40)]
pub proof fn a_layout_places_its_panes(
    state: LiveView,
    layout: LayoutSnapshot,
    now: Instant,
    i: int,
    pane: PaneId,
)
    requires
        ascending(state.cursors),
        ascending(state.modes),
    ensures
        ({
            let (after, result) = state.applied(ServerMessage::Layout(layout), now);
            let rects = layout.panes@;
            let named = exists|k: int| 0 <= k < rects.len() && (#[trigger] rects[k]).pane == pane;
            &&& result == Ok::<bool, RenderError>(true)
            &&& after.layout == Some(layout@)
            &&& after.focused() == layout.focused
            &&& is_last_word(rects, |rect: PaneRect| rect.pane, i) ==> match lookup(
                after.areas,
                rects[i].pane,
            ) {
                Some(area) => drawn_area(rects[i], area),
                None => false,
            }
            &&& !named ==> lookup(after.areas, pane) is None
            &&& lookup(after.cursors, pane) == if named {
                lookup(state.cursors, pane)
            } else {
                None
            }
            &&& lookup(after.modes, pane) == if named {
                lookup(state.modes, pane)
            } else {
                None
            }
            &&& after == (LiveView {
                areas: after.areas,
                grids: after.grids,
                cursors: after.cursors,
                modes: after.modes,
                layout: after.layout,
                screen: after.screen,
                ..state
            })
        }),
{
    let rects = layout.panes@;
    areas_hold_the_last_word(rects, pane);
    if 0 <= i < rects.len() {
        areas_hold_the_last_word(rects, rects[i].pane);
    }
    let areas = laid_areas(rects);
    keeping_keeps(state.cursors, areas, pane);
    keeping_keeps(state.modes, areas, pane);
    if exists|k: int| 0 <= k < rects.len() && (#[trigger] rects[k]).pane == pane {
        let k = choose|k: int| 0 <= k < rects.len() && (#[trigger] rects[k]).pane == pane;
        let last = last_of(rects, pane, rects.len());
        last_is_last(rects, pane, rects.len(), k);
        assert(rects[last].pane == pane);
        assert(is_last_word(rects, |rect: PaneRect| rect.pane, last));
        assert(lookup(areas, pane) is Some);
    }
}

spec fn last_of(rects: Seq<PaneRect>, pane: PaneId, count: nat) -> int
    decreases count,
{
    if count == 0 {
        0
    } else if rects[count - 1].pane == pane {
        count - 1
    } else {
        last_of(rects, pane, (count - 1) as nat)
    }
}

proof fn last_is_last(rects: Seq<PaneRect>, pane: PaneId, count: nat, k: int)
    requires
        0 <= k < count <= rects.len(),
        rects[k].pane == pane,
    ensures
        0 <= last_of(rects, pane, count) < count,
        rects[last_of(rects, pane, count)].pane == pane,
        forall|j: int|
            last_of(rects, pane, count) < j < count ==> (#[trigger] rects[j]).pane != pane,
    decreases count,
{
    if rects[count - 1].pane != pane {
        last_is_last(rects, pane, (count - 1) as nat, k);
    }
}

/// The screen a pointer is looked up on is the one that is drawn: the tab row on
/// the first row, the status row on the last, and each pane where its area is.
pub proof fn the_screen_is_what_is_drawn(state: LiveView, layout: LayoutSnapshot, now: Instant, i: int)
    requires
        state.outer_size.rows > 0,
    ensures
        ({
            let after = state.applied(ServerMessage::Layout(layout), now).0;
            &&& after.screen.size == state.outer_size
            &&& after.screen.tab_row == Some(0u16)
            &&& after.screen.status_row == Some((state.outer_size.rows - 1) as u16)
            &&& after.screen.focused == layout.focused
            &&& after.screen.panes.len() == after.areas.len()
            &&& 0 <= i < after.areas.len() ==> after.screen.panes[i] == after.areas[i].1
        }),
{
}

/// A pane's cursor is held as it was told, and every other pane's as it was.
pub proof fn a_cursor_is_held_as_told(
    state: LiveView,
    pane: PaneId,
    pos: Point,
    shape: CursorShape,
    visible: bool,
    now: Instant,
    other: PaneId,
)
    requires
        ascending(state.cursors),
    ensures
        ({
            let (after, result) = state.applied(
                ServerMessage::CursorMoved { pane, pos, shape, visible },
                now,
            );
            &&& result == Ok::<bool, RenderError>(true)
            &&& lookup(after.cursors, other) == if other == pane {
                Some(PaneCursor { pos, shape, visible })
            } else {
                lookup(state.cursors, other)
            }
            &&& after == (LiveView { cursors: after.cursors, ..state })
        }),
{
    inserting(state.cursors, pane, PaneCursor { pos, shape, visible }, other);
}

/// A pane's modes are held as they were told, without drawing anything again.
pub proof fn modes_are_held_as_told(
    state: LiveView,
    pane: PaneId,
    modes: PaneModes,
    now: Instant,
    other: PaneId,
)
    requires
        ascending(state.modes),
    ensures
        ({
            let (after, result) = state.applied(ServerMessage::Modes { pane, modes }, now);
            &&& result == Ok::<bool, RenderError>(false)
            &&& lookup(after.modes, other) == if other == pane {
                Some(modes)
            } else {
                lookup(state.modes, other)
            }
            &&& after == (LiveView { modes: after.modes, ..state })
        }),
{
    inserting(state.modes, pane, modes, other);
}

/// The modes that decide a mouse report are the focused pane's own, and nothing
/// is tracked where they are not known.
pub proof fn the_focused_panes_modes_decide(state: LiveView, pane: PaneId)
    requires
        state.focused() == Some(pane),
    ensures
        match lookup(state.modes, pane) {
            Some(modes) => state.focused_modes() == modes,
            None => state.focused_modes().mouse == crate::proto::MouseTracking::Off,
        },
{
}

/// Tabs and copy mode are taken over whole.
pub proof fn tabs_and_copy_mode_are_taken_over(
    state: LiveView,
    tabs: Vec<TabSummary>,
    copy_mode: Option<CopyModeState>,
    now: Instant,
)
    ensures
        state.applied(ServerMessage::Tabs(tabs), now) == (
            LiveView { tabs: tabs@, ..state },
            Ok::<bool, RenderError>(true),
        ),
        state.applied(ServerMessage::CopyMode(copy_mode), now) == (
            LiveView { copy_mode, ..state },
            Ok::<bool, RenderError>(true),
        ),
{
}

/// Whether a row fits a grid.
pub open spec fn fits(grid: GridView, update: RowUpdate) -> bool {
    update.row < grid.size.rows && update.cells@.len() == grid.size.cols
}

/// Rows that fit replace theirs, the last word about each row standing, and leave
/// every other row as it was.
pub proof fn rows_are_replaced_as_told(grid: GridView, updates: Seq<RowUpdate>, i: int, row: int)
    requires
        grid.rows.len() == grid.size.rows,
        forall|k: int| 0 <= k < updates.len() ==> fits(grid, #[trigger] updates[k]),
        0 <= row < grid.rows.len(),
    ensures
        grid.damaged(updates).1 is None,
        grid.damaged(updates).0.size == grid.size,
        grid.damaged(updates).0.rows.len() == grid.rows.len(),
        0 <= i < updates.len() && (forall|j: int|
            i < j < updates.len() ==> (#[trigger] updates[j]).row != updates[i].row)
            ==> grid.damaged(updates).0.rows[updates[i].row as int] == updates[i].cells@,
        (forall|k: int| 0 <= k < updates.len() ==> (#[trigger] updates[k]).row != row)
            ==> grid.damaged(updates).0.rows[row] == grid.rows[row],
    decreases updates.len(),
{
    if updates.len() > 0 {
        let next = grid.patched(updates[0])->Ok_0;
        let rest = updates.drop_first();
        assert(fits(grid, updates[0]));
        assert forall|k: int| 0 <= k < rest.len() implies fits(next, #[trigger] rest[k]) by {
            assert(rest[k] == updates[k + 1]);
        }
        rows_are_replaced_as_told(next, rest, i - 1, row);
        if 0 <= i < updates.len() && (forall|j: int|
            i < j < updates.len() ==> (#[trigger] updates[j]).row != updates[i].row) {
            if i == 0 {
                let written = updates[0].row as int;
                assert forall|k: int| 0 <= k < rest.len() implies (#[trigger] rest[k]).row
                    != written by {
                    assert(rest[k] == updates[k + 1]);
                }
                rows_are_replaced_as_told(next, rest, i - 1, written);
            } else {
                assert(rest[i - 1] == updates[i]);
                assert forall|j: int| i - 1 < j < rest.len() implies (#[trigger] rest[j]).row
                    != rest[i - 1].row by {
                    assert(rest[j] == updates[j + 1]);
                }
            }
        }
        if forall|k: int| 0 <= k < updates.len() ==> (#[trigger] updates[k]).row != row {
            assert(updates[0].row != row);
            assert forall|k: int| 0 <= k < rest.len() implies (#[trigger] rest[k]).row != row by {
                assert(rest[k] == updates[k + 1]);
            }
        }
    }
}

/// The first row that does not fit is what is wrong: one past the grid, or one of
/// another width.
pub proof fn a_row_that_does_not_fit_is_refused(grid: GridView, updates: Seq<RowUpdate>, i: int)
    requires
        0 <= i < updates.len(),
        !fits(grid, updates[i]),
        forall|k: int| 0 <= k < i ==> fits(grid, #[trigger] updates[k]),
    ensures
        grid.damaged(updates).1 == Some(
            if updates[i].row >= grid.size.rows {
                RenderError::RowOutOfBounds { row: updates[i].row, rows: grid.size.rows }
            } else {
                RenderError::WidthMismatch {
                    cells: updates[i].cells@.len() as usize,
                    cols: grid.size.cols,
                }
            },
        ),
    decreases updates.len(),
{
    if i > 0 {
        assert(fits(grid, updates[0]));
        let next = grid.patched(updates[0])->Ok_0;
        let rest = updates.drop_first();
        assert(rest[i - 1] == updates[i]);
        assert forall|k: int| 0 <= k < i - 1 implies fits(next, #[trigger] rest[k]) by {
            assert(rest[k] == updates[k + 1]);
        }
        a_row_that_does_not_fit_is_refused(next, rest, i - 1);
    }
}

/// A pane's output goes to that pane's grid.
pub proof fn output_goes_to_its_pane(
    state: LiveView,
    pane: PaneId,
    rows: Vec<RowUpdate>,
    now: Instant,
    grid: GridView,
)
    requires
        ascending(state.grids),
        lookup(state.grids, pane) == Some(grid),
    ensures
        ({
            let (after, result) = state.applied(ServerMessage::Damage { pane, rows }, now);
            &&& lookup(after.grids, pane) == Some(grid.damaged(rows@).0)
            &&& match grid.damaged(rows@).1 {
                Some(error) => result == Err::<bool, RenderError>(error),
                None => result == Ok::<bool, RenderError>(true),
            }
        }),
{
    inserting(state.grids, pane, grid.damaged(rows@).0, pane);
}

/// The outer cursor is the focused pane's, where its pane is drawn, and only while
/// it is shown and inside that pane.
pub proof fn the_cursor_is_where_the_pane_is(
    state: LiveView,
    pane: PaneId,
    area: PaneArea,
    cursor: PaneCursor,
)
    requires
        state.focused() == Some(pane),
        lookup(state.areas, pane) == Some(area),
        lookup(state.cursors, pane) == Some(cursor),
        area.x + area.size.cols <= u16::MAX,
        area.y + area.size.rows <= u16::MAX,
    ensures
        state.cursor() == if cursor.visible && cursor.pos.col < area.size.cols && cursor.pos.row
            < area.size.rows {
            Some(
                Cursor {
                    pos: Point {
                        col: (area.x + cursor.pos.col) as u16,
                        row: (area.y + cursor.pos.row) as u16,
                    },
                    shape: cursor.shape,
                },
            )
        } else {
            None
        },
{
}

/// Without a focused pane, or without its cursor, there is no cursor.
pub proof fn no_cursor_without_a_focused_pane(state: LiveView)
    requires
        match state.focused() {
            Some(pane) => lookup(state.cursors, pane) is None || lookup(state.areas, pane) is None,
            None => true,
        },
    ensures
        state.cursor() is None,
{
}

/// A grid that starts anew is blank all over: a space in the terminal's own
/// colours in every cell of every row.
pub proof fn a_new_grid_is_blank(size: Size, row: int, col: int)
    requires
        0 <= row < size.rows,
        0 <= col < size.cols,
    ensures
        blank_grid(size).size == size,
        blank_grid(size).rows.len() == size.rows,
        blank_grid(size).rows[row].len() == size.cols,
        ({
            let cell = blank_grid(size).rows[row][col];
            &&& cell.ch == ' '
            &&& cell.fg == Color::Default && cell.bg == Color::Default
            &&& !cell.attrs.bold && !cell.attrs.dim && !cell.attrs.italic && !cell.attrs.underline
                && !cell.attrs.reverse
        }),
{
}

} // verus!
