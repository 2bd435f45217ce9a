//! What the attached client does over time: what it asks for and when, what it
//! lets go of, and in what order it acts on what was read.

use vstd::prelude::*;

use crate::attach::{
    detach_settled, handshake, inspect_handshake, AttachError, AttachRunError, Attached,
    AttachedView, InspectError, RawModeFailure,
};
use crate::capabilities::CapsError;
use crate::input::EventView;
use crate::keymap::{KeyCode, Keymap};
use crate::keys::{pointed_side, ChordView};
use crate::launch::NoticeView;
use crate::live::{
    session_rows, CatalogEntry, Divider, Edges, LiveView, ResizeSource, Side,
};
use crate::live_local::step_toward;
use crate::live_loop::{others, LoopView};
use crate::motion::MotionKind;
use crate::outer::{current_size_from, size_from_winsize};
use crate::overlay_laws::leaving_closes_a_list;
use crate::proto::{
    Action, ClientMessageView, LayoutSnapshot, PaneInfo, ServerMessage, SessionId, SessionSummary,
    Size, TabSummary, WorkspaceStatus,
};
use crate::renderer::RenderError;
use crate::routing::{done_by, done_by_all, followed, RouteOutcomeView};
use crate::status_bar::RepositoryStatus;
use crate::text::decimal;
use crate::time::Instant;
use crate::toast::{all_ticked, unexpired, ToastView};

verus! {

// A moved divider.

/// An arrow points at its own side, reaches the divider there, and moves it one
/// step away from the top left for right and down, and toward it for left and up.
pub proof fn an_arrow_moves_the_divider_it_points_at(edges: Edges)
    ensures
        pointed_side(KeyCode::Left) == Some(Side::Left),
        pointed_side(KeyCode::Right) == Some(Side::Right),
        pointed_side(KeyCode::Up) == Some(Side::Up),
        pointed_side(KeyCode::Down) == Some(Side::Down),
        edges.toward(Side::Left) == edges.left,
        edges.toward(Side::Right) == edges.right,
        edges.toward(Side::Up) == edges.up,
        edges.toward(Side::Down) == edges.down,
        step_toward(Side::Left) == -1,
        step_toward(Side::Up) == -1,
        step_toward(Side::Left) + step_toward(Side::Right) == 0,
        step_toward(Side::Up) + step_toward(Side::Down) == 0,
{
}

/// A moved divider shows the share that was measured, or an even one where none
/// was. Moved by the keyboard it is shown for three quarters of a second, held by
/// the mouse until it is let go.
pub proof fn a_moved_divider_is_shown_for_a_while(
    state: LiveView,
    divider: Divider,
    share: Option<u16>,
    now: Instant,
    later: Instant,
)
    requires
        now.nanos + 750_000_000 <= u64::MAX,
    ensures
        ({
            let typed = state.resizing(divider, share, ResizeSource::Keyboard, now);
            let held = state.resizing(divider, share, ResizeSource::Mouse, now);
            &&& typed.resize matches Some(shown) && shown.divider == divider && shown.share == (
            if share is Some {
                share->0
            } else {
                50u16
            })
            &&& held.resize matches Some(shown) && shown.divider == divider && shown.share == (
            if share is Some {
                share->0
            } else {
                50u16
            })
            &&& typed.resize_over(later) <==> later.nanos >= now.nanos + 750_000_000
            &&& !held.resize_over(later)
            &&& (LiveView { resize: state.resize, ..typed }) == state
            &&& (LiveView { resize: state.resize, ..held }) == state
        }),
{
}

/// A layout that measures the divider again changes its share alone, and the
/// keyboard's is shown for another three quarters of a second. One that no longer
/// has the divider stops showing it.
pub proof fn a_divider_is_measured_again(
    state: LiveView,
    divider: Divider,
    before: Option<u16>,
    measured: u16,
    source: ResizeSource,
    first: Instant,
    now: Instant,
)
    requires
        now.nanos + 750_000_000 <= u64::MAX,
    ensures
        ({
            let moved = state.resizing(divider, before, source, first);
            &&& moved.remeasured(Some(measured), now) == state.resizing(
                divider,
                Some(measured),
                source,
                now,
            )
            &&& moved.remeasured(None, now) == (LiveView { resize: None, ..state })
            &&& state.resize is None ==> state.remeasured(Some(measured), now) == state
        }),
{
    let moved = state.resizing(divider, before, source, first);
    assert(moved.remeasured(Some(measured), now) =~= state.resizing(
        divider,
        Some(measured),
        source,
        now,
    ));
}

/// A layout starts the transition of what it changed: panes that came, panes that
/// went, or a focus that moved. The first layout, and any other message, starts
/// none.
pub proof fn a_transition_is_of_what_changed(state: LiveView, layout: LayoutSnapshot)
    ensures
        ({
            let kind = state.transition_for(ServerMessage::Layout(layout));
            match state.layout {
                None => kind is None,
                Some(before) => {
                    &&& kind == Some(MotionKind::Split) <==> layout.panes@.len() > before.panes.len()
                    &&& kind == Some(MotionKind::Close) <==> layout.panes@.len() < before.panes.len()
                    &&& kind == Some(MotionKind::Focus) <==> layout.panes@.len()
                        == before.panes.len() && layout.focused != before.focused
                    &&& kind != Some(MotionKind::Overlay)
                },
            }
        }),
{
}

/// A message that changes anything that is drawn has the frame drawn again: only a
/// pane's modes, which nothing is drawn from, change without it. What already had
/// to be drawn still has to be.
pub proof fn what_changes_is_drawn(
    client: LoopView,
    message: ServerMessage,
    tabs: Seq<TabSummary>,
    now: Instant,
)
    requires
        client.state.applied(message, now).1 is Ok,
    ensures
        !(message is Modes) && client.state.applied(message, now).0 != client.state
            ==> client.state.applied(message, now).1 == Ok::<bool, RenderError>(true),
        client.state.applied(message, now).1 == Ok::<bool, RenderError>(true) ==> client.told(
            message,
            tabs,
            now,
        ).0.dirty,
        client.dirty ==> client.told(message, tabs, now).0.dirty,
        client.state.transition_for(message) matches Some(kind) ==> {
            let after = client.told(message, tabs, now).0;
            after.dirty && after.phase is Some && after.phase->0.kind() == kind
        },
        ({
            let after = client.told(message, tabs, now).0;
            after.pending == client.pending && after.detaching == client.detaching && after.path
                == client.path && after.keymap == client.keymap && after.input_open
                == client.input_open && after.caps == client.caps && after.policy == client.policy
        }),
{
    if let ServerMessage::WorkspaceStatus(status) = message {
        if client.state.status == Some(status@) {
            assert(client.state.applied(message, now).0 =~= client.state);
        }
    }
}

// What is asked for.

/// After every message the repository that is wanted is the focused pane's. Where
/// that changed, no answer about another directory is kept, and the new one is
/// asked about unless an answer is under way.
pub proof fn the_focused_directory_is_asked_about(
    client: LoopView,
    message: ServerMessage,
    tabs: Seq<TabSummary>,
    now: Instant,
)
    ensures
        ({
            let (after, ask) = client.told(message, tabs, now);
            let state = after.state;
            &&& state.repository_target == state.focused_cwd()
            &&& state.tabs == tabs
            &&& match ask {
                Some(directory) => state.focused_cwd() == Some(directory)
                    && !client.repository_refreshing.contains(directory)
                    && after.repository_refreshing == client.repository_refreshing.push(directory)
                    && state.repository is None && after.repository_refreshed is None,
                None => after.repository_refreshing == client.repository_refreshing,
            }
        }),
{
    let heard = client.heard(message, tabs, now);
    let (state, target) = heard.state.retargeted();
    assert(state.focused_cwd() == heard.state.focused_cwd());
}

/// An answer is due again where one is wanted, none is under way, and the last one
/// was about another directory or is as old as answers may become.
pub proof fn a_repository_is_due_after_its_interval(client: LoopView, target: Seq<char>, now: Instant)
    requires
        client.state.repository_target == Some(target),
    ensures
        client.repository_refreshing.contains(target) ==> !client.repository_due(now),
        !client.repository_refreshing.contains(target) ==> match client.repository_refreshed {
            None => client.repository_due(now),
            Some((directory, at)) => if directory != target {
                client.repository_due(now)
            } else if now.nanos >= at.nanos {
                client.repository_due(now) <==> now.nanos >= at.nanos
                    + client.repository_interval.nanos
            } else {
                client.repository_due(now) <==> client.repository_interval.nanos == 0
            },
        },
        (LoopView {
            state: LiveView { repository_target: None, ..client.state },
            ..client
        }).repository_due(now) == false,
{
}

/// An open switcher verifies its catalog once a second, one verification at a
/// time. A closed one verifies nothing.
pub proof fn a_catalog_is_due_once_a_second(client: LoopView, at: Instant, now: Instant)
    requires
        now.nanos >= at.nanos,
    ensures
        ({
            let open = client.state.overlay is Some && client.state.overlay->0.kind is Sessions;
            let idle = LoopView {
                catalog_refreshing: false,
                catalog_refreshed: Some(at),
                ..client
            };
            &&& idle.catalog_due(now) <==> open && now.nanos - at.nanos >= 1_000_000_000
            &&& (LoopView { catalog_refreshed: None, ..idle }).catalog_due(now) <==> open
            &&& !(LoopView { catalog_refreshing: true, ..client }).catalog_due(now)
        }),
{
}

/// What is asked for at a tick is under way afterwards, and asking again at once
/// asks for nothing more.
pub proof fn nothing_is_asked_for_twice(client: LoopView, now: Instant)
    ensures
        ({
            let after = client.refreshing(now);
            &&& !after.repository_due(now)
            &&& !after.catalog_due(now)
            &&& after.refreshing(now) == after
            &&& after.state == client.state
            &&& client.repository_due(now) ==> after.repository_refreshing
                == client.repository_refreshing.push(client.state.repository_target->0)
            &&& !client.repository_due(now) ==> after.repository_refreshing
                == client.repository_refreshing
            &&& after.catalog_refreshing <==> client.catalog_refreshing || client.catalog_due(now)
        }),
{
    let asked = if client.repository_due(now) {
        client.asking(client.state.repository_target->0).0
    } else {
        client
    };
    if client.repository_due(now) {
        let target = client.state.repository_target->0;
        assert(asked.repository_refreshing[client.repository_refreshing.len() as int] == target);
        assert(asked.repository_refreshing.contains(target));
    }
}

proof fn others_are_kept(list: Seq<Seq<char>>, wanted: Seq<char>, entry: Seq<char>)
    ensures
        others(list, wanted).contains(entry) <==> list.contains(entry) && entry != wanted,
    decreases list.len(),
{
    if list.len() > 0 {
        let front = list.drop_last();
        others_are_kept(front, wanted, entry);
        let rest = others(front, wanted);
        let all = others(list, wanted);
        assert(list =~= front.push(list.last()));
        if front.contains(entry) {
            let k = choose|k: int| 0 <= k < front.len() && front[k] == entry;
            assert(list[k] == entry);
        }
        if list.contains(entry) && entry != list.last() {
            let k = choose|k: int| 0 <= k < list.len() && list[k] == entry;
            assert(front[k] == entry);
        }
        if rest.contains(entry) {
            let k = choose|k: int| 0 <= k < rest.len() && rest[k] == entry;
            assert(all[k] == entry);
        }
        if all.contains(entry) && entry != list.last() {
            let k = choose|k: int| 0 <= k < all.len() && all[k] == entry;
            assert(rest[k] == entry);
        }
        if entry == list.last() && entry != wanted {
            assert(all[rest.len() as int] == entry);
            assert(list[list.len() - 1] == entry);
        }
    }
}

/// An answer ends the wait for its own directory and for no other. It is shown
/// where that directory is still the focused one, and is dropped where it is not.
pub proof fn an_answer_is_for_its_directory(
    client: LoopView,
    directory: Seq<char>,
    repository: Option<RepositoryStatus>,
    now: Instant,
    other: Seq<char>,
)
    ensures
        ({
            let after = client.answered(directory, repository, now);
            &&& after.repository_refreshing.contains(other) <==> client.repository_refreshing.contains(
                other,
            ) && other != directory
            &&& if client.state.repository_target == Some(directory) {
                after.repository_refreshed == Some((directory, now))
            } else {
                after.repository_refreshed == client.repository_refreshed && after.state
                    == client.state
            }
            &&& if client.state.repository_target == Some(directory)
                && client.state.focused_cwd() == Some(directory) {
                match repository {
                    Some(status) => after.state.repository matches Some(shown) && shown.changes
                        == status.changes && match status.branch {
                        Some(branch) => shown.branch == Some(branch@),
                        None => shown.branch is None,
                    },
                    None => after.state.repository is None,
                }
            } else {
                after.state == client.state && after.dirty == client.dirty
            }
        }),
{
    others_are_kept(client.repository_refreshing, directory, other);
}

/// A clock is drawn when it reads something new, and not otherwise.
pub proof fn a_clock_draws_when_it_changes(client: LoopView, clock: Option<Seq<char>>)
    ensures
        client.clocked(clock).state == (LiveView { clock, ..client.state }),
        client.clocked(clock).dirty <==> client.dirty || client.state.clock != clock,
        client.clocked(clock).clocked(clock) == client.clocked(clock),
{
}

// What typing leads to.

/// A switch to the session the client is already in closes the switcher and
/// changes nothing else; leaving waits for the server's answer.
pub proof fn switching_to_oneself_closes_the_switcher(client: LoopView, socket: Seq<u8>)
    ensures
        ({
            let after = client.outcome_taken(RouteOutcomeView::Switch(socket));
            &&& socket == client.path ==> after.state.overlay is None && (LiveView {
                overlay: client.state.overlay,
                ..after.state
            }) == client.state && !after.detaching == !client.detaching
            &&& socket != client.path ==> after == client
        }),
        client.outcome_taken(RouteOutcomeView::Detach).detaching,
        client.outcome_taken(RouteOutcomeView::Detach).state == client.state,
        client.outcome_taken(RouteOutcomeView::Continue) == client,
{
}

/// Typing draws the frame again and shows whether a prefix is pending. An overlay
/// that opened or closed starts its transition; one that stayed starts none.
pub proof fn typing_draws_again(client: LoopView, was_open: bool, now: Instant)
    ensures
        ({
            let after = client.routed_keys(was_open, now);
            &&& after.dirty
            &&& after.state == (LiveView { prefix_pending: client.pending, ..client.state })
            &&& was_open == (client.state.overlay is Some) ==> after.motion == client.motion
                && after.phase == client.phase
            &&& was_open != (client.state.overlay is Some) ==> after.phase is Some
                && after.phase->0.kind() == MotionKind::Overlay
        }),
        ({
            let (after, verify) = client.typed_through(was_open, now);
            &&& verify <==> client.state.overlay is Some && client.state.overlay->0.kind is Sessions
                && !client.catalog_refreshing
            &&& verify ==> after.catalog_refreshing
        }),
{
}

/// An escape that was held back leaves an open overlay once it is released, and
/// sends nothing.
pub proof fn a_released_escape_leaves_an_overlay(client: LoopView, edges: Edges, now: Instant)
    requires
        client.state.overlay is Some,
    ensures
        ({
            let (after, send) = client.released(Some(seq![0x1bu8]), edges, now);
            &&& after.state.overlay is None
            &&& send.len() == 0
            &&& after.dirty
            &&& after.detaching == client.detaching
        }),
        client.released(None, edges, now).0 == client,
        client.released(None, edges, now).1.len() == 0,
{
    leaving_closes_a_list(
        client.state,
        client.keymap,
        client.pending,
        client.state.overlay->0,
        edges,
        now,
    );
}

/// A paste reaches the server as it was pasted and a focus change as it happened,
/// whether or not an overlay is open. Losing focus forgets a pending prefix, and a
/// paste keeps it.
pub proof fn pastes_and_focus_are_passed_on(
    state: LiveView,
    keymap: Keymap,
    pending: bool,
    text: Seq<u8>,
    focused: bool,
    dragging: bool,
    edges: Edges,
    now: Instant,
)
    ensures
        ({
            let (after, held, routed) = done_by(
                state,
                keymap,
                pending,
                EventView::Paste(text),
                dragging,
                edges,
                now,
            );
            &&& routed.send == seq![ClientMessageView::Paste(text)]
            &&& routed.outcome is Continue
            &&& routed.chrome is None
            &&& held == pending
            &&& after == (LiveView { resize: None, ..state })
        }),
        ({
            let (after, held, routed) = done_by(
                state,
                keymap,
                pending,
                EventView::Focus(focused),
                dragging,
                edges,
                now,
            );
            &&& routed.send == seq![ClientMessageView::Focus { focused }]
            &&& routed.outcome is Continue
            &&& routed.chrome is None
            &&& held <==> pending && focused
            &&& after == (LiveView { resize: None, ..state })
        }),
{
}

/// While a divider is held no mouse report reaches an application.
pub proof fn a_held_divider_keeps_the_mouse(
    state: LiveView,
    keymap: Keymap,
    pending: bool,
    event: EventView,
    edges: Edges,
    now: Instant,
)
    requires
        event is Mouse,
    ensures
        done_by(state, keymap, pending, event, true, edges, now).2.send.len() == 0,
        done_by(state, keymap, pending, event, true, edges, now).2.chrome is Some,
        done_by(state, keymap, pending, event, true, edges, now).1 == pending,
{
}

/// What was read is acted on in order and to the end: any number of pastes are
/// sent in the order in which they were pasted.
pub proof fn events_are_done_in_order(
    state: LiveView,
    keymap: Keymap,
    pending: bool,
    texts: Seq<Seq<u8>>,
    from: nat,
    edges: Edges,
    now: Instant,
)
    requires
        from <= texts.len(),
        state.resize is None,
    ensures
        ({
            let events = Seq::new(texts.len(), |i: int| EventView::Paste(texts[i]));
            let (after, held, routed, to) = done_by_all(
                state,
                keymap,
                pending,
                events,
                from,
                false,
                edges,
                now,
            );
            &&& to == texts.len()
            &&& routed.send.len() == texts.len() - from
            &&& forall|i: int|
                0 <= i < texts.len() - from ==> (#[trigger] routed.send[i])
                    == ClientMessageView::Paste(texts[from + i])
            &&& after == state
            &&& held == pending
        }),
    decreases texts.len() - from,
{
    let events = Seq::new(texts.len(), |i: int| EventView::Paste(texts[i]));
    if from < texts.len() {
        assert(events[from as int] == EventView::Paste(texts[from as int]));
        assert((LiveView { resize: None, ..state }) == state);
        events_are_done_in_order(state, keymap, pending, texts, from + 1, edges, now);
        let rest = done_by_all(state, keymap, pending, events, from + 1, false, edges, now).2.send;
        let all = done_by_all(state, keymap, pending, events, from, false, edges, now).2.send;
        assert(all =~= seq![ClientMessageView::Paste(texts[from as int])] + rest);
        assert forall|i: int| 0 <= i < texts.len() - from implies (#[trigger] all[i])
            == ClientMessageView::Paste(texts[from + i]) by {
            if i > 0 {
                assert(all[i] == rest[i - 1]);
            }
        }
    }
}

// What a launch says.

/// A launch says what it waits for; once its time is up it says that nothing
/// started, for four seconds, and then nothing.
pub proof fn a_launch_is_told_in_words_and_time(
    state: LiveView,
    profile: Seq<char>,
    before: Set<crate::proto::PaneId>,
    until: Instant,
    now: Instant,
)
    requires
        now.nanos + 4_000_000_000 <= u64::MAX,
    ensures
        ({
            let waiting = NoticeView { profile, before, until, refused: false };
            let refused = NoticeView { refused: true, ..waiting };
            let of = |notice: NoticeView| LiveView { launch: Some(notice), ..state };
            &&& waiting.text() == "launching "@ + profile
            &&& refused.text() == profile + " did not start"@
            &&& now.nanos < until.nanos ==> of(waiting).launch_ticked(now) == (of(waiting), false)
                && of(refused).launch_ticked(now) == (of(refused), false)
            &&& now.nanos >= until.nanos ==> {
                &&& of(waiting).launch_ticked(now).1
                &&& of(waiting).launch_ticked(now).0.launch matches Some(said) && said.refused
                    && said.profile == profile && said.until.nanos == now.nanos + 4_000_000_000
                &&& of(refused).launch_ticked(now) == (LiveView { launch: None, ..state }, true)
            }
            &&& (LiveView { launch: None, ..state }).launch_ticked(now) == (
                LiveView { launch: None, ..state },
                false,
            )
        }),
{
}

/// A launch is answered by a pane of its profile that was not there before, and by
/// no other.
pub proof fn a_new_pane_of_its_profile_answers(notice: NoticeView, info: PaneInfo)
    ensures
        notice.answered_by(info) <==> info.profile@ == notice.profile && !notice.before.contains(
            info.pane,
        ),
{
}

/// A catalog's rows are its sessions in order, each under its own name and with
/// its own counts; the attached one is the one at the client's own socket.
pub proof fn a_catalog_is_listed_as_verified(entries: Seq<CatalogEntry>, current: Seq<u8>, i: int)
    requires
        0 <= i < entries.len(),
    ensures
        session_rows(entries, current).len() == entries.len(),
        ({
            let row = session_rows(entries, current)[i];
            let summary = entries[i].summary;
            &&& row.socket == entries[i].socket@
            &&& row.title == summary.name@
            &&& row.tabs == summary.tabs
            &&& row.panes == summary.panes
            &&& row.clients == summary.clients
            &&& row.attached <==> entries[i].socket@ == current
        }),
{
}

// Attaching.

/// An attach succeeds with a server of the client's own version, whose session,
/// tabs and size it then has; any other version is an error that names both.
pub proof fn an_attach_takes_its_own_version(
    theirs: u16,
    ours: u16,
    session: SessionId,
    tabs: Vec<TabSummary>,
    size: Size,
    outcome: Result<Attached, AttachError>,
)
    requires
        call_ensures(
            handshake,
            (
                Some(
                    ServerMessage::Hello { protocol_version: theirs, session, tabs, size },
                ),
                ours,
            ),
            outcome,
        ),
    ensures
        outcome is Ok <==> theirs == ours,
        outcome matches Ok(attached) ==> attached@.session == session && attached@.tabs == tabs@
            && attached@.size == size && attached@.status is None,
        outcome matches Err(error) ==> error.text()
            == "cloo protocol version mismatch: the server speaks "@ + decimal(theirs as nat)
            + ", this client "@ + decimal(ours as nat) + "; reattach with a matching build"@,
{
}

/// A reply that is no hello never attaches: a refusal is told in the server's own
/// words, and silence as a closed connection.
pub proof fn only_a_hello_attaches(
    reply: Option<ServerMessage>,
    ours: u16,
    outcome: Result<Attached, AttachError>,
)
    requires
        call_ensures(handshake, (reply, ours), outcome),
    ensures
        outcome is Ok ==> reply is Some && reply->0 is Hello,
        reply is None ==> outcome == Err::<Attached, AttachError>(AttachError::Closed),
        reply matches Some(ServerMessage::Refused { reason }) ==> outcome matches Err(error)
            && error.text() == "the cloo server refused the attach: "@ + reason@,
        reply is Some && !(reply->0 is Hello) && !(reply->0 is Refused) ==> outcome == Err::<
            Attached,
            AttachError,
        >(AttachError::UnexpectedReply),
{
}

/// An inspection takes the summary it asked for and nothing else.
pub proof fn only_a_summary_answers_an_inspection(
    reply: Option<ServerMessage>,
    outcome: Result<SessionSummary, InspectError>,
)
    requires
        call_ensures(inspect_handshake, (reply,), outcome),
    ensures
        outcome is Ok <==> reply is Some && reply->0 is SessionSummary,
        outcome matches Ok(summary) ==> reply == Some(ServerMessage::SessionSummary(summary)),
        reply is None ==> outcome == Err::<SessionSummary, InspectError>(InspectError::Closed),
        reply matches Some(ServerMessage::Refused { reason }) ==> outcome matches Err(error)
            && error.text() == "the cloo server refused inspection: "@ + reason@,
{
}

/// A detach is over at the server's acknowledgement or its silence, and at nothing
/// that was queued before.
pub proof fn a_detach_waits_for_its_answer(message: ServerMessage, settled: bool)
    requires
        call_ensures(detach_settled, (Some(&message),), settled),
    ensures
        settled <==> message is Detached,
{
}

/// An attachment keeps the newest tabs and the newest size it was told, and
/// nothing else that it is told changes it.
pub proof fn an_attachment_keeps_the_newest(
    attached: AttachedView,
    tabs: Vec<TabSummary>,
    status: WorkspaceStatus,
    message: ServerMessage,
)
    ensures
        ({
            let told = attached.told(ServerMessage::Tabs(tabs));
            told.tabs == tabs@ && told.session == attached.session && told.size == attached.size
                && told.status == attached.status
        }),
        ({
            let told = attached.told(ServerMessage::WorkspaceStatus(status));
            told.size == status.effective_size && told.status == Some(status) && told.tabs
                == attached.tabs && told.session == attached.session
        }),
        !(message is Tabs) && !(message is WorkspaceStatus) ==> attached.told(message) == attached,
{
}

/// Every failure to attach is told by what failed and where.
pub proof fn a_failed_attach_says_why(path: String, reason: String)
    ensures
        AttachError::NoDaemon(path).text() == "no cloo daemon is listening on "@ + path@
            + "; start one first"@,
        (AttachError::Connect { path, reason }).text() == "could not connect to "@ + path@ + ": "@
            + reason@,
        AttachError::Closed.text() == "the cloo server closed the connection during the attach"@,
        AttachError::UnexpectedReply.text()
            == "the cloo server replied to an attach with something else"@,
        AttachError::Stream(reason).text() == reason@,
        InspectError::NoDaemon(path).text() == "no cloo daemon is listening on "@ + path@,
        (InspectError::Connect { path, reason }).text() == "could not inspect "@ + path@ + ": "@
            + reason@,
        InspectError::UnexpectedReply.text()
            == "the candidate replied to inspection with something else"@,
        InspectError::Closed.text() == "the candidate closed during inspection"@,
        InspectError::Stream(reason).text() == reason@,
{
    assert((AttachError::Connect { path, reason }).text() =~= "could not connect to "@ + path@
        + ": "@ + reason@);
    assert((InspectError::Connect { path, reason }).text() =~= "could not inspect "@ + path@
        + ": "@ + reason@);
}

/// Every failure while attached is told by what failed, and one that began as
/// another is told as that one.
pub proof fn a_failed_run_says_why(reason: String, error: AttachError, caps: CapsError)
    ensures
        AttachRunError::RawMode(RawModeFailure::NotATerminal).text()
            == "cloo attach must be run from a terminal"@,
        AttachRunError::RawMode(RawModeFailure::Failed(reason)).text() == reason@,
        AttachRunError::Attach(error).text() == error.text(),
        AttachRunError::Capabilities(caps).text() == AttachError::Capabilities(caps).text(),
        AttachRunError::Render(reason).text() == "render failed: "@ + reason@,
        AttachRunError::Output(reason).text() == "could not write to the terminal: "@ + reason@,
        AttachRunError::Runtime(reason).text() == "could not start the runtime: "@ + reason@,
        AttachRunError::Signal(reason).text() == "could not watch for terminal resizes: "@
            + reason@,
{
}

// The terminal.

/// A terminal is as large as it reports, and conventional where it reports no
/// area at all. What is written to is asked before what is read from.
pub proof fn a_terminal_is_as_large_as_it_reports(
    cols: u16,
    rows: u16,
    size: Size,
    stdout: Option<Size>,
    stdin: Option<Size>,
    current: Size,
)
    requires
        call_ensures(size_from_winsize, (cols, rows), size),
        call_ensures(current_size_from, (stdout, stdin), current),
    ensures
        cols > 0 && rows > 0 ==> size.cols == cols && size.rows == rows,
        cols == 0 || rows == 0 ==> size.cols == 80 && size.rows == 24,
        stdout is Some ==> Some(current) == stdout,
        stdout is None && stdin is Some ==> Some(current) == stdin,
        stdout is None && stdin is None ==> current.cols == 80 && current.rows == 24,
{
}

// Time passing.

proof fn as_many_are_the_same(toasts: Seq<ToastView>, now: Instant)
    ensures
        unexpired(toasts, now).len() <= toasts.len(),
        unexpired(toasts, now).len() == toasts.len() ==> unexpired(toasts, now) == toasts,
    decreases toasts.len(),
{
    if toasts.len() > 0 {
        let front = toasts.drop_last();
        as_many_are_the_same(front, now);
        if unexpired(toasts, now).len() == toasts.len() {
            assert(unexpired(toasts, now) =~= front.push(toasts.last()));
            assert(front.push(toasts.last()) =~= toasts);
        }
    } else {
        assert(unexpired(toasts, now) =~= toasts);
    }
}

/// Whatever a tick changes is drawn, and what already had to be drawn still has to
/// be. A divider stops being shown when its time is up, and nothing of the session
/// is touched.
pub proof fn what_a_tick_changes_is_drawn(client: LoopView, now: Instant)
    ensures
        ({
            let after = client.ticked(now);
            &&& after.state != client.state ==> after.dirty
            &&& client.dirty ==> after.dirty
            &&& client.state.resize matches Some(shown) ==> after.state.resize == (
            if shown.until is Some && now.nanos >= shown.until->0.nanos {
                None
            } else {
                client.state.resize
            })
            &&& after.state.panes == client.state.panes && after.state.grids == client.state.grids
                && after.state.overlay == client.state.overlay && after.state.queue
                == client.state.queue
        }),
{
    let (launch, said) = client.state.launch_ticked(now);
    let toasts = launch.toasts.toasts;
    let kept = unexpired(toasts, now);
    as_many_are_the_same(toasts, now);
    let after = client.ticked(now);
    if !after.dirty {
        assert(kept == toasts);
        assert forall|i: int| 0 <= i < kept.len() implies (#[trigger] kept[i]).ticked(now)
            == kept[i] by {
            assert(kept[i].motion.ticked(now).1 is None);
        }
        assert(all_ticked(kept, now) =~= toasts);
        assert(after.state =~= client.state);
    }
}

/// Leaving ends what was read: nothing behind it is acted on.
pub proof fn leaving_ends_the_read(
    state: LiveView,
    keymap: Keymap,
    rest: Seq<ChordView>,
    edges: Edges,
    now: Instant,
)
    ensures
        ({
            let routes = seq![ChordView::Command(Action::DetachClient)] + rest;
            let (after, routed) = followed(state, keymap, routes, edges, now);
            &&& after == state
            &&& routed.send == seq![ClientMessageView::Command(Action::DetachClient)]
            &&& routed.outcome is Detach
        }),
{
    let routes = seq![ChordView::Command(Action::DetachClient)] + rest;
    assert(routes[0] == ChordView::Command(Action::DetachClient));
}

} // verus!
