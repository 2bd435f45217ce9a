//! What holds of the projection over several messages.

use vstd::prelude::*;

use crate::attention::{place, place_finds, recording_keeps_the_rules, Attention};
use crate::live::{
    attention, blank_grid, drawn_grids_follow, grids_follow, is_laid, laid_grid, laid_grids,
    laid_grids_are_ascending, laid_grids_follow, noticed, placed_in, position, queue_of, GridView,
    LiveView,
};
use crate::panes::{ascending, inserting, lookup};
use crate::proto::{
    AttentionState, PaneAttention, PaneId, PaneInfo, PaneRect, RowUpdate, ServerMessage, Size,
    WorkspaceStatus,
};
use crate::renderer::RenderError;
use crate::time::{Duration, Instant};
use crate::toast::{
    a_deck_keeps_its_rules, kept_of, raising_keeps_the_deck_bounded, showing, showing_finds,
    without_pane, DeckEvent, DeckView, ToastView,
};

verus! {

/// Pane output changes the grid of its pane and nothing else: no notice, no
/// queue and no other grid.
pub proof fn damage_changes_one_grid(
    state: LiveView,
    pane: PaneId,
    updates: Seq<RowUpdate>,
    other: PaneId,
)
    requires
        ascending(state.grids),
        other != pane,
    ensures
        ({
            let after = state.damaged(pane, updates).0;
            &&& after == (LiveView { grids: after.grids, ..state })
            &&& lookup(after.grids, other) == lookup(state.grids, other)
        }),
{
    if let Some(grid) = lookup(state.grids, pane) {
        inserting(state.grids, pane, grid.damaged(updates).0, other);
    }
}

/// Whether a message says nothing that the projection has to follow: a status it
/// already holds, output of a pane that is no longer laid out, or a message that
/// is not part of what is drawn.
pub open spec fn is_stale(state: LiveView, message: ServerMessage) -> bool {
    match message {
        ServerMessage::WorkspaceStatus(status) => state.status == Some(status@),
        ServerMessage::Damage { pane, .. } => !is_laid(state.layout, pane),
        ServerMessage::Hello { .. } => true,
        ServerMessage::Refused { .. } => true,
        ServerMessage::SessionSummary(_) => true,
        ServerMessage::ConfigReloaded { .. } => true,
        ServerMessage::Effect { .. } => true,
        ServerMessage::Bell(_) => true,
        ServerMessage::Detached => true,
        ServerMessage::Exit(_) => true,
        _ => false,
    }
}

/// A repeated or obsolete message leaves the projection as it is and dirties no
/// frame.
pub proof fn a_stale_message_changes_nothing(state: LiveView, message: ServerMessage, now: Instant)
    requires
        grids_follow(state.grids, state.layout),
        is_stale(state, message),
    ensures
        state.applied(message, now) == (state, Ok::<bool, RenderError>(false)),
{
    reveal(grids_follow);
}

/// A status other than the one held takes its place, changes nothing else, and
/// dirties the frame. The same status told again is then stale.
pub proof fn a_changed_status_replaces_the_held_one(
    state: LiveView,
    status: WorkspaceStatus,
    now: Instant,
)
    requires
        state.status != Some(status@),
    ensures
        ({
            let message = ServerMessage::WorkspaceStatus(status);
            let after = LiveView { status: Some(status@), ..state };
            &&& state.applied(message, now) == (after, Ok::<bool, RenderError>(true))
            &&& is_stale(after, message)
        }),
{
}

/// A held status stays until another one replaces it.
pub proof fn only_a_status_changes_the_status(state: LiveView, message: ServerMessage, now: Instant)
    requires
        message !is WorkspaceStatus,
    ensures
        state.applied(message, now).0.status == state.status,
{
}

/// Whatever the server says and however the terminal is resized, only panes of
/// the layout that came last have contents.
pub proof fn grids_follow_the_layout(
    state: LiveView,
    message: ServerMessage,
    outer: Size,
    now: Instant,
)
    requires
        grids_follow(state.grids, state.layout),
    ensures
        ({
            let next = state.applied(message, now).0;
            grids_follow(next.grids, next.layout)
        }),
        grids_follow(state.resized(outer).grids, state.resized(outer).layout),
{
    if let Some(layout) = state.layout {
        laid_grids_follow(state.grids, layout);
    }
    match message {
        ServerMessage::Layout(layout) => {
            laid_grids_follow(state.grids, layout@);
        },
        ServerMessage::Damage { pane, rows } => {
            if let Some(grid) = lookup(state.grids, pane) {
                drawn_grids_follow(state.grids, state.layout, pane, grid.damaged(rows@).0);
            }
        },
        _ => {},
    }
}

/// The panes of a projection told again raise no notice: each one still shown
/// was shown before.
pub proof fn a_repeated_projection_raises_nothing(
    deck: DeckView,
    panes: Seq<(PaneId, PaneInfo)>,
    states: Seq<(PaneId, PaneAttention)>,
    now: Instant,
    count: nat,
    i: int,
)
    requires
        count <= panes.len(),
        0 <= i < noticed(deck, panes, states, states, now, count).toasts.len(),
    ensures
        deck.toasts.contains(noticed(deck, panes, states, states, now, count).toasts[i]),
    decreases count,
{
    if count > 0 {
        let rest = noticed(deck, panes, states, states, now, (count - 1) as nat);
        let after = noticed(deck, panes, states, states, now, count);
        kept_of(rest.toasts, now, position((count - 1) as nat), 0);
        assert(rest.toasts.contains(after.toasts[i]));
        let j = choose|j: int| 0 <= j < rest.toasts.len() && rest.toasts[j] == after.toasts[i];
        a_repeated_projection_raises_nothing(deck, panes, states, now, (count - 1) as nat, j);
    }
}

proof fn laid_grids_are_laid(grids: Seq<(PaneId, GridView)>, rects: Seq<PaneRect>, i: int)
    requires
        0 <= i < rects.len(),
        forall|j: int| i < j < rects.len() ==> (#[trigger] rects[j]).pane != rects[i].pane,
    ensures
        ascending(laid_grids(grids, rects)),
        lookup(laid_grids(grids, rects), rects[i].pane) == Some(
            laid_grid(grids, rects.take(i), rects[i]),
        ),
    decreases rects.len(),
{
    let rest = rects.drop_last();
    laid_grids_are_ascending(grids, rest);
    inserting(
        laid_grids(grids, rest),
        rects.last().pane,
        laid_grid(grids, rest, rects.last()),
        rects[i].pane,
    );
    if i == rects.len() - 1 {
        assert(rects.take(i) =~= rest);
    } else {
        assert(rest[i] == rects[i]);
        assert forall|j: int| i < j < rest.len() implies (#[trigger] rest[j]).pane
            != rest[i].pane by {
            assert(rest[j] == rects[j]);
        }
        laid_grids_are_laid(grids, rest, i);
        assert(rest.take(i) =~= rects.take(i));
        assert(rects[rects.len() - 1].pane != rects[i].pane);
    }
}

/// A new layout keeps the contents of every pane whose size it leaves alone,
/// and blanks those it resizes or adds. Each pane has one rectangle.
pub proof fn a_layout_keeps_unchanged_grids(
    grids: Seq<(PaneId, GridView)>,
    rects: Seq<PaneRect>,
    i: int,
)
    requires
        0 <= i < rects.len(),
        forall|a: int, b: int|
            0 <= a < b < rects.len() ==> (#[trigger] rects[a]).pane != (#[trigger] rects[b]).pane,
    ensures
        lookup(laid_grids(grids, rects), rects[i].pane) == Some(
            match lookup(grids, rects[i].pane) {
                Some(grid) => if grid.size == rects[i].size {
                    grid
                } else {
                    blank_grid(rects[i].size)
                },
                None => blank_grid(rects[i].size),
            },
        ),
{
    laid_grids_are_laid(grids, rects, i);
    let earlier = rects.take(i);
    if placed_in(earlier, rects[i].pane) {
        let j = choose|j: int|
            0 <= j < earlier.len() && (#[trigger] earlier[j]).pane == rects[i].pane;
        assert(earlier[j] == rects[j]);
    }
}

/// Whether the pane at a position waits: its state asks for someone and nobody
/// acknowledged it.
pub open spec fn waits(
    panes: Seq<(PaneId, PaneInfo)>,
    states: Seq<(PaneId, PaneAttention)>,
    at: int,
) -> bool {
    match lookup(states, panes[at].1.pane) {
        Some(state) => !state.acknowledged && attention(state.state).is_actionable(),
        None => false,
    }
}

/// The queue lists the panes that wait and no others, each under its own
/// position, name and state.
pub proof fn the_queue_lists_what_waits(
    panes: Seq<(PaneId, PaneInfo)>,
    states: Seq<(PaneId, PaneAttention)>,
    count: nat,
    at: int,
)
    requires
        count <= panes.len() <= u16::MAX,
        0 <= at < panes.len(),
    ensures
        queue_of(panes, states, count).wf(),
        queue_of(panes, states, count).acked == Map::<u16, crate::attention::Attention>::empty(),
        ({
            let entries = queue_of(panes, states, count).entries;
            match place(entries, position(at as nat)) {
                Some(i) => at < count && waits(panes, states, at) && entries[i as int].title
                    == panes[at].1.name@ && entries[i as int].attention == attention(
                    lookup(states, panes[at].1.pane)->0.state,
                ),
                None => at >= count || !waits(panes, states, at),
            }
        }),
    decreases count,
{
    if count > 0 {
        the_queue_lists_what_waits(panes, states, (count - 1) as nat, at);
        let rest = queue_of(panes, states, (count - 1) as nat);
        let info = panes[count - 1].1;
        let index = position((count - 1) as nat);
        the_queue_lists_what_waits(panes, states, (count - 1) as nat, count - 1);
        place_finds(rest.entries, index);
        place_finds(rest.entries, position(at as nat));
        if let Some(state) = lookup(states, info.pane) {
            if !state.acknowledged {
                let next = rest.recorded(index, info.name@, attention(state.state));
                recording_keeps_the_rules(rest, index, info.name@, attention(state.state));
                assert(rest.acked.remove(index) =~= rest.acked);
                place_finds(next.entries, position(at as nat));
                if attention(state.state).is_actionable() {
                    assert(next.entries[0].index == index);
                    assert(next.entries.drop_first() =~= rest.entries);
                }
            }
        }
    } else {
        assert(place(Seq::<crate::attention::EntryView>::empty(), position(at as nat)) is None);
    }
}

/// Whether a state asks for someone.
pub open spec fn asks(state: AttentionState) -> bool {
    state == AttentionState::NeedsInput || state == AttentionState::Ready || state
        == AttentionState::Failed
}

/// The mark a state is shown with.
pub open spec fn shown_as(state: AttentionState, shown: Attention) -> bool {
    match state {
        AttentionState::Unknown => shown == Attention::Unknown,
        AttentionState::Working => shown == Attention::Working,
        AttentionState::NeedsInput => shown == Attention::NeedsInput,
        AttentionState::Ready => shown == Attention::Ready,
        AttentionState::Failed => shown == Attention::Failed,
        AttentionState::Quiet => shown == Attention::Quiet,
    }
}

/// A server's state is shown as that state.
pub proof fn a_state_is_shown_as_itself(state: AttentionState)
    ensures
        shown_as(state, attention(state)),
        asks(state) <==> attention(state).is_actionable(),
{
}

/// Whether a pane's state became one that asks for someone: it is not
/// acknowledged, and it was another one before, or none, or an acknowledged one.
pub open spec fn turned(before: Option<PaneAttention>, next: Option<PaneAttention>) -> bool {
    match next {
        Some(now) => !now.acknowledged && asks(now.state) && match before {
            Some(was) => was.acknowledged || was.state != now.state,
            None => true,
        },
        None => false,
    }
}

/// Whether a deck shows a pane's notice, raised for a state at a moment, with only
/// notices of later positions behind it; or is full of those alone.
pub open spec fn shows_or_gave_way(
    deck: DeckView,
    at: int,
    count: nat,
    title: Seq<char>,
    state: AttentionState,
    now: Instant,
) -> bool {
    ||| exists|k: int|
        0 <= k < deck.toasts.len() && #[trigger] is_notice(
            deck.toasts[k],
            at,
            title,
            state,
            now,
            deck.lifetime,
        ) && forall|j: int|
            k < j < deck.toasts.len() ==> at + 1 < (#[trigger] deck.toasts[j]).index <= count
    ||| deck.toasts.len() == deck.capacity && forall|j: int|
        0 <= j < deck.toasts.len() ==> at + 1 < (#[trigger] deck.toasts[j]).index <= count
}

/// Whether a notice is the one raised for a pane's state at a moment.
pub open spec fn is_notice(
    toast: ToastView,
    at: int,
    title: Seq<char>,
    state: AttentionState,
    now: Instant,
    lifetime: Duration,
) -> bool {
    &&& toast.index == at + 1
    &&& toast.title == title
    &&& shown_as(state, toast.attention)
    &&& toast.until.nanos == now.nanos + lifetime.nanos
}

proof fn noticing_keeps_the_deck(
    deck: DeckView,
    panes: Seq<(PaneId, PaneInfo)>,
    before: Seq<(PaneId, PaneAttention)>,
    next: Seq<(PaneId, PaneAttention)>,
    now: Instant,
    count: nat,
)
    requires
        deck.wf(),
        count <= panes.len(),
    ensures
        noticed(deck, panes, before, next, now, count).wf(),
        noticed(deck, panes, before, next, now, count).capacity == deck.capacity,
        noticed(deck, panes, before, next, now, count).lifetime == deck.lifetime,
        noticed(deck, panes, before, next, now, count).settings == deck.settings,
    decreases count,
{
    if count > 0 {
        noticing_keeps_the_deck(deck, panes, before, next, now, (count - 1) as nat);
        let rest = noticed(deck, panes, before, next, now, (count - 1) as nat);
        let info = panes[count - 1].1;
        let index = position((count - 1) as nat);
        a_deck_keeps_its_rules(rest, DeckEvent::Dismissed { index });
        if let Some(state) = lookup(next, info.pane) {
            raising_keeps_the_deck_bounded(rest, index, info.name@, attention(state.state), now);
        }
    }
}

/// A pane whose state became one that asks for someone is told about, whatever it
/// was doing before: once every pane was looked at, its notice is up with that
/// state and its name, unless so many later panes were told about as well that
/// the deck is full of them.
#[verifier::rlimit(40)]
pub proof fn what_turned_is_told(
    deck: DeckView,
    panes: Seq<(PaneId, PaneInfo)>,
    before: Seq<(PaneId, PaneAttention)>,
    next: Seq<(PaneId, PaneAttention)>,
    now: Instant,
    count: nat,
    at: int,
)
    requires
        deck.wf(),
        now.nanos + deck.lifetime.nanos <= u64::MAX,
        0 <= at < count <= panes.len() <= u16::MAX,
        turned(lookup(before, panes[at].1.pane), lookup(next, panes[at].1.pane)),
    ensures
        shows_or_gave_way(
            noticed(deck, panes, before, next, now, count),
            at,
            count,
            panes[at].1.name@,
            lookup(next, panes[at].1.pane)->0.state,
            now,
        ),
    decreases count,
{
    let rest = noticed(deck, panes, before, next, now, (count - 1) as nat);
    let after = noticed(deck, panes, before, next, now, count);
    let info = panes[count - 1].1;
    let index = position((count - 1) as nat);
    let title = panes[at].1.name@;
    let state = lookup(next, panes[at].1.pane)->0.state;
    noticing_keeps_the_deck(deck, panes, before, next, now, (count - 1) as nat);
    noticing_keeps_the_deck(deck, panes, before, next, now, count);
    if at == count - 1 {
        raising_keeps_the_deck_bounded(rest, index, info.name@, attention(state), now);
        let k = after.toasts.len() - 1;
        assert(is_notice(after.toasts[k], at, title, state, now, after.lifetime));
    } else {
        what_turned_is_told(deck, panes, before, next, now, (count - 1) as nat, at);
        if let Some(told) = lookup(next, info.pane) {
            if told.acknowledged {
                a_dismissal_keeps_the_others(rest, at, count, title, state, now, index);
            } else if attention(told.state).is_actionable() && crate::live::is_news(
                lookup(before, info.pane),
                told.state,
            ) {
                a_later_notice_keeps_or_takes_over(
                    rest,
                    at,
                    count,
                    title,
                    state,
                    now,
                    index,
                    info.name@,
                    attention(told.state),
                );
            } else {
                a_longer_look_keeps(rest, at, count, title, state, now);
            }
        } else {
            a_dismissal_keeps_the_others(rest, at, count, title, state, now, index);
        }
    }
}

proof fn a_longer_look_keeps(
    rest: DeckView,
    at: int,
    count: nat,
    title: Seq<char>,
    state: AttentionState,
    now: Instant,
)
    requires
        count > 0,
        shows_or_gave_way(rest, at, (count - 1) as nat, title, state, now),
    ensures
        shows_or_gave_way(rest, at, count, title, state, now),
{
    if exists|k: int|
        0 <= k < rest.toasts.len() && #[trigger] is_notice(
            rest.toasts[k],
            at,
            title,
            state,
            now,
            rest.lifetime,
        ) && forall|j: int|
            k < j < rest.toasts.len() ==> at + 1 < (#[trigger] rest.toasts[j]).index <= count - 1 {
        let k = choose|k: int|
            0 <= k < rest.toasts.len() && #[trigger] is_notice(
                rest.toasts[k],
                at,
                title,
                state,
                now,
                rest.lifetime,
            ) && forall|j: int|
                k < j < rest.toasts.len() ==> at + 1 < (#[trigger] rest.toasts[j]).index <= count
                    - 1;
        assert(is_notice(rest.toasts[k], at, title, state, now, rest.lifetime));
    }
}

proof fn a_dismissal_keeps_the_others(
    rest: DeckView,
    at: int,
    count: nat,
    title: Seq<char>,
    state: AttentionState,
    now: Instant,
    index: u16,
)
    requires
        0 <= at < count - 1,
        count <= u16::MAX,
        index == count,
        shows_or_gave_way(rest, at, (count - 1) as nat, title, state, now),
    ensures
        shows_or_gave_way(rest.dismissed(index), at, count, title, state, now),
{
    let after = rest.dismissed(index);
    if exists|k: int|
        0 <= k < rest.toasts.len() && #[trigger] is_notice(
            rest.toasts[k],
            at,
            title,
            state,
            now,
            rest.lifetime,
        ) && forall|j: int|
            k < j < rest.toasts.len() ==> at + 1 < (#[trigger] rest.toasts[j]).index <= count - 1 {
        let k = choose|k: int|
            0 <= k < rest.toasts.len() && #[trigger] is_notice(
                rest.toasts[k],
                at,
                title,
                state,
                now,
                rest.lifetime,
            ) && forall|j: int|
                k < j < rest.toasts.len() ==> at + 1 < (#[trigger] rest.toasts[j]).index <= count
                    - 1;
        dismissing_splits(rest.toasts, index, k);
        let front = without_pane(rest.toasts.take(k), index);
        assert(after.toasts[front.len() as int] == rest.toasts[k]);
        assert(is_notice(
            after.toasts[front.len() as int],
            at,
            title,
            state,
            now,
            after.lifetime,
        ));
        assert forall|j: int| front.len() < j < after.toasts.len() implies at + 1 < (
        #[trigger] after.toasts[j]).index <= count by {
            assert(after.toasts[j] == rest.toasts[k + (j - front.len())]);
        }
    } else {
        dismissing_nobody(rest.toasts, index);
    }
}

proof fn dismissing_nobody(toasts: Seq<ToastView>, index: u16)
    requires
        forall|i: int| 0 <= i < toasts.len() ==> (#[trigger] toasts[i]).index != index,
    ensures
        without_pane(toasts, index) == toasts,
    decreases toasts.len(),
{
    if toasts.len() > 0 {
        let front = toasts.drop_last();
        assert forall|i: int| 0 <= i < front.len() implies (#[trigger] front[i]).index != index by {
            assert(front[i] == toasts[i]);
        }
        dismissing_nobody(front, index);
        assert(toasts.last() == toasts[toasts.len() - 1]);
        assert(front.push(toasts.last()) =~= toasts);
    } else {
        assert(without_pane(toasts, index) =~= toasts);
    }
}

proof fn dismissing_splits(toasts: Seq<ToastView>, index: u16, k: int)
    requires
        0 <= k < toasts.len(),
        forall|i: int| k <= i < toasts.len() ==> (#[trigger] toasts[i]).index != index,
    ensures
        without_pane(toasts, index) == without_pane(toasts.take(k), index) + toasts.skip(k),
    decreases toasts.len(),
{
    let front = toasts.drop_last();
    assert(toasts.last() == toasts[toasts.len() - 1]);
    if k < front.len() {
        assert forall|i: int| k <= i < front.len() implies (#[trigger] front[i]).index != index by {
            assert(front[i] == toasts[i]);
        }
        dismissing_splits(front, index, k);
        assert(front.take(k) =~= toasts.take(k));
        assert(without_pane(toasts, index) =~= without_pane(toasts.take(k), index) + toasts.skip(k));
    } else {
        assert(front =~= toasts.take(k));
        assert(toasts.skip(k) =~= seq![toasts.last()]);
        assert(without_pane(toasts, index) =~= without_pane(toasts.take(k), index) + toasts.skip(k));
    }
}

proof fn a_later_notice_keeps_or_takes_over(
    rest: DeckView,
    at: int,
    count: nat,
    title: Seq<char>,
    state: AttentionState,
    now: Instant,
    index: u16,
    name: Seq<char>,
    raised_for: Attention,
)
    requires
        rest.wf(),
        0 <= at < count - 1,
        count <= u16::MAX,
        index == count,
        shows_or_gave_way(rest, at, (count - 1) as nat, title, state, now),
    ensures
        shows_or_gave_way(
            rest.pushed(index, name, raised_for, now),
            at,
            count,
            title,
            state,
            now,
        ),
{
    let after = rest.pushed(index, name, raised_for, now);
    raising_keeps_the_deck_bounded(rest, index, name, raised_for, now);
    showing_finds(rest.toasts, index);
    let last = after.toasts.len() - 1;
    assert(after.toasts[last].index == index);
    if exists|k: int|
        0 <= k < rest.toasts.len() && #[trigger] is_notice(
            rest.toasts[k],
            at,
            title,
            state,
            now,
            rest.lifetime,
        ) && forall|j: int|
            k < j < rest.toasts.len() ==> at + 1 < (#[trigger] rest.toasts[j]).index <= count - 1 {
        let k = choose|k: int|
            0 <= k < rest.toasts.len() && #[trigger] is_notice(
                rest.toasts[k],
                at,
                title,
                state,
                now,
                rest.lifetime,
            ) && forall|j: int|
                k < j < rest.toasts.len() ==> at + 1 < (#[trigger] rest.toasts[j]).index <= count
                    - 1;
        match showing(rest.toasts, index) {
            Some(gone) => {
                assert(gone < k);
                assert(after.toasts[k - 1] == rest.toasts[k]);
                assert(is_notice(after.toasts[k - 1], at, title, state, now, after.lifetime));
                assert forall|j: int| k - 1 < j < after.toasts.len() implies at + 1 < (
                #[trigger] after.toasts[j]).index <= count by {
                    if j < last {
                        assert(after.toasts[j] == rest.toasts[j + 1]);
                    }
                }
            },
            None => {
                if rest.toasts.len() == rest.capacity {
                    if k > 0 {
                        assert(after.toasts[k - 1] == rest.toasts[k]);
                        assert(is_notice(
                            after.toasts[k - 1],
                            at,
                            title,
                            state,
                            now,
                            after.lifetime,
                        ));
                        assert forall|j: int| k - 1 < j < after.toasts.len() implies at + 1 < (
                        #[trigger] after.toasts[j]).index <= count by {
                            if j < last {
                                assert(after.toasts[j] == rest.toasts[j + 1]);
                            }
                        }
                    } else {
                        assert forall|j: int| 0 <= j < after.toasts.len() implies at + 1 < (
                        #[trigger] after.toasts[j]).index <= count by {
                            if j < last {
                                assert(after.toasts[j] == rest.toasts[j + 1]);
                            }
                        }
                    }
                } else {
                    assert(after.toasts[k] == rest.toasts[k]);
                    assert(is_notice(after.toasts[k], at, title, state, now, after.lifetime));
                    assert forall|j: int| k < j < after.toasts.len() implies at + 1 < (
                    #[trigger] after.toasts[j]).index <= count by {
                        if j < last {
                            assert(after.toasts[j] == rest.toasts[j]);
                        }
                    }
                }
            },
        }
    } else {
        assert(showing(rest.toasts, index) is None);
        assert forall|j: int| 0 <= j < after.toasts.len() implies at + 1 < (
        #[trigger] after.toasts[j]).index <= count by {
            if j < last {
                assert(after.toasts[j] == rest.toasts[j + 1]);
            }
        }
    }
}

/// Nobody is told about anything else: each notice that is up was up before and
/// unchanged, or is that of a pane whose state became one that asks for someone,
/// with that state and that pane's name.
#[verifier::rlimit(40)]
pub proof fn nothing_else_is_told(
    deck: DeckView,
    panes: Seq<(PaneId, PaneInfo)>,
    before: Seq<(PaneId, PaneAttention)>,
    next: Seq<(PaneId, PaneAttention)>,
    now: Instant,
    count: nat,
    i: int,
)
    requires
        count <= panes.len() <= u16::MAX,
        deck.wf(),
        0 <= i < noticed(deck, panes, before, next, now, count).toasts.len(),
    ensures
        ({
            let toast = noticed(deck, panes, before, next, now, count).toasts[i];
            ||| deck.toasts.contains(toast)
            ||| 1 <= toast.index <= count && turned(
                lookup(before, panes[toast.index - 1].1.pane),
                lookup(next, panes[toast.index - 1].1.pane),
            ) && toast.title == panes[toast.index - 1].1.name@ && shown_as(
                lookup(next, panes[toast.index - 1].1.pane)->0.state,
                toast.attention,
            )
        }),
    decreases count,
{
    if count > 0 {
        let rest = noticed(deck, panes, before, next, now, (count - 1) as nat);
        let after = noticed(deck, panes, before, next, now, count);
        let index = position((count - 1) as nat);
        noticing_keeps_the_deck(deck, panes, before, next, now, (count - 1) as nat);
        kept_of(rest.toasts, now, index, 0);
        showing_finds(rest.toasts, index);
        let toast = after.toasts[i];
        if rest.toasts.contains(toast) {
            let j = choose|j: int| 0 <= j < rest.toasts.len() && rest.toasts[j] == toast;
            nothing_else_is_told(deck, panes, before, next, now, (count - 1) as nat, j);
        } else {
            match showing(rest.toasts, index) {
                Some(gone) => {
                    if i < after.toasts.len() - 1 && i < gone {
                        assert(rest.toasts[i] == toast);
                    } else if i < after.toasts.len() - 1 {
                        assert(rest.toasts[i + 1] == toast);
                    }
                },
                None => {
                    if i < after.toasts.len() - 1 {
                        if rest.toasts.len() == rest.capacity {
                            assert(rest.toasts[i + 1] == toast);
                        } else {
                            assert(rest.toasts[i] == toast);
                        }
                    }
                },
            }
        }
    } else {
        assert(deck.toasts.contains(deck.toasts[i]));
    }
}

/// A pane that is gone from the states, or was acknowledged, has no notice left.
#[verifier::rlimit(40)]
pub proof fn a_settled_pane_has_no_notice(
    deck: DeckView,
    panes: Seq<(PaneId, PaneInfo)>,
    before: Seq<(PaneId, PaneAttention)>,
    next: Seq<(PaneId, PaneAttention)>,
    now: Instant,
    count: nat,
    at: int,
    i: int,
)
    requires
        deck.wf(),
        0 <= at < count <= panes.len() <= u16::MAX,
        match lookup(next, panes[at].1.pane) {
            Some(state) => state.acknowledged,
            None => true,
        },
        0 <= i < noticed(deck, panes, before, next, now, count).toasts.len(),
    ensures
        noticed(deck, panes, before, next, now, count).toasts[i].index != at + 1,
    decreases count,
{
    let rest = noticed(deck, panes, before, next, now, (count - 1) as nat);
    let after = noticed(deck, panes, before, next, now, count);
    let index = position((count - 1) as nat);
    noticing_keeps_the_deck(deck, panes, before, next, now, (count - 1) as nat);
    kept_of(rest.toasts, now, index, 0);
    if at < count - 1 {
        let toast = after.toasts[i];
        showing_finds(rest.toasts, index);
        if toast.index == at + 1 {
            if !rest.toasts.contains(toast) {
                match showing(rest.toasts, index) {
                    Some(gone) => {
                        if i < after.toasts.len() - 1 && i < gone {
                            assert(rest.toasts[i] == toast);
                        } else if i < after.toasts.len() - 1 {
                            assert(rest.toasts[i + 1] == toast);
                        }
                    },
                    None => {
                        if i < after.toasts.len() - 1 {
                            if rest.toasts.len() == rest.capacity {
                                assert(rest.toasts[i + 1] == toast);
                            } else {
                                assert(rest.toasts[i] == toast);
                            }
                        }
                    },
                }
            }
            let j = choose|j: int| 0 <= j < rest.toasts.len() && rest.toasts[j] == toast;
            a_settled_pane_has_no_notice(
                deck,
                panes,
                before,
                next,
                now,
                (count - 1) as nat,
                at,
                j,
            );
        }
    }
}

} // verus!
