//! Where what a user does goes: to the open overlay, to the client's own
//! surfaces, to the session as a command, or to the focused pane.

use vstd::prelude::*;

use crate::effects::extend_bytes;
use crate::input::{
    event_views, mouse_route, route_mouse, ChromeTarget, EventView, InputEvent, MouseRoute,
};
use crate::keymap::{bound, Key, Keymap};
use crate::keys::{
    chord_at, chord_routes, forgetting, forgotten, pointed_side, routed, routed_chords,
    unprefixed_keys_pass_verbatim, ChordRoute, ChordView, KeyRouter, RouteView,
};
use crate::launch::{launch_deadline, NoticeView};
use crate::live::{
    keyboard_resize_linger, Divider, Edges, LiveState, LiveView, ResizeSource, Side,
};
use crate::live_local::{known_panes, step_toward};
use crate::live_overlay::{OverlayKeys, OverlayKeysView};
use crate::overlay::{opened, SocketPath};
use crate::proto::{command_message, message_views, Action, ClientMessage, ClientMessageView};
use crate::time::Instant;

verus! {

/// Whether the client goes on, leaves, or moves to another session.
#[derive(Debug, PartialEq, Eq)]
pub enum RouteOutcome {
    Continue,
    Detach,
    Switch(SocketPath),
}

/// An outcome by its contents.
#[verifier::ext_equal]
pub enum RouteOutcomeView {
    Continue,
    Detach,
    Switch(Seq<u8>),
}

impl View for RouteOutcome {
    type V = RouteOutcomeView;

    open spec fn view(&self) -> RouteOutcomeView {
        match self {
            RouteOutcome::Continue => RouteOutcomeView::Continue,
            RouteOutcome::Detach => RouteOutcomeView::Detach,
            RouteOutcome::Switch(socket) => RouteOutcomeView::Switch(socket@),
        }
    }
}

/// What is sent to the server, in order, and whether the client goes on.
#[derive(Debug, PartialEq, Eq)]
pub struct Routed {
    pub send: Vec<ClientMessage>,
    pub outcome: RouteOutcome,
    /// The chrome a mouse report landed on, left for the gesture it is part of.
    pub chrome: Option<ChromeTarget>,
}

/// What is sent and done, by its contents.
#[verifier::ext_equal]
pub struct RoutedView {
    pub send: Seq<ClientMessageView>,
    pub outcome: RouteOutcomeView,
    pub chrome: Option<ChromeTarget>,
}

impl View for Routed {
    type V = RoutedView;

    open spec fn view(&self) -> RoutedView {
        RoutedView {
            send: message_views(self.send@),
            outcome: self.outcome@,
            chrome: self.chrome,
        }
    }
}

/// Sending `send` and going on.
pub open spec fn sending(send: Seq<ClientMessageView>) -> RoutedView {
    RoutedView { send, outcome: RouteOutcomeView::Continue, chrome: None }
}

/// Sending one command, and leaving where that is what it asks.
pub open spec fn commanding(action: Action) -> RoutedView {
    RoutedView {
        send: seq![command_message(action)],
        outcome: if action == Action::DetachClient {
            RouteOutcomeView::Detach
        } else {
            RouteOutcomeView::Continue
        },
        chrome: None,
    }
}

/// What a run of routed chords does: bytes go to the pane, commands to the
/// session, an unbound arrow to the divider on its side, and other unbound
/// chords to the client's own surfaces. Detaching ends the run.
pub open spec fn followed(
    state: LiveView,
    keymap: Keymap,
    routes: Seq<ChordView>,
    edges: Edges,
    now: Instant,
) -> (LiveView, RoutedView)
    decreases routes.len(),
{
    if routes.len() == 0 {
        (state, sending(seq![]))
    } else {
        let rest = routes.drop_first();
        match routes[0] {
            ChordView::Pane(bytes) => prepend(
                ClientMessageView::Input(bytes),
                followed(state, keymap, rest, edges, now),
            ),
            ChordView::Command(action) => if action == Action::DetachClient {
                (state, commanding(action))
            } else {
                prepend(command_message(action), followed(state, keymap, rest, edges, now))
            },
            ChordView::Unbound(chord) => followed(
                match state.opening(chord, keymap) {
                    Some(kind) => state.showing(Some(opened(kind))),
                    None => state,
                },
                keymap,
                rest,
                edges,
                now,
            ),
            ChordView::Resize(side) => {
                let (next, action) = state.nudged(side, edges.toward(side), now);
                let after = followed(next, keymap, rest, edges, now);
                match action {
                    Some(resize) => prepend(command_message(resize), after),
                    None => after,
                }
            },
            ChordView::Pending => followed(state, keymap, rest, edges, now),
        }
    }
}

/// The same, with one message sent before.
pub open spec fn prepend(message: ClientMessageView, after: (LiveView, RoutedView)) -> (
    LiveView,
    RoutedView,
) {
    (after.0, RoutedView { send: seq![message] + after.1.send, ..after.1 })
}

/// What typed bytes do while an overlay is open: everything that leaves the
/// client is typed, and no keystroke ever does.
pub open spec fn overlay_typed(state: LiveView, keys: Seq<u8>, now: Instant) -> (
    LiveView,
    RoutedView,
) {
    let (next, done) = state.overlay_keyed(keys);
    match done {
        OverlayKeysView::Launch(request) => (
            LiveView {
                launch: Some(
                    NoticeView {
                        profile: request.profile,
                        before: known_panes(next.panes),
                        until: now.plus(launch_deadline()),
                        refused: false,
                    },
                ),
                ..next
            },
            sending(seq![ClientMessageView::Launch(request.profile)]),
        ),
        OverlayKeysView::Command(action) => (next, commanding(action)),
        OverlayKeysView::SwitchSession(socket) => (
            next,
            RoutedView { outcome: RouteOutcomeView::Switch(socket), ..sending(seq![]) },
        ),
        _ => (next, sending(seq![])),
    }
}

/// What typed bytes do, and whether a prefix is pending afterwards. A moved
/// divider stops being shown, and an open overlay forgets a pending prefix.
pub open spec fn typed(
    state: LiveView,
    keymap: Keymap,
    pending: bool,
    keys: Seq<u8>,
    edges: Edges,
    now: Instant,
) -> (LiveView, bool, RoutedView) {
    let still = LiveView { resize: None, ..state };
    if still.overlay is Some {
        let (next, routed) = overlay_typed(still, keys, now);
        (next, false, routed)
    } else {
        let (routes, end) = routed_chords(keymap, pending, seq![], keys);
        let (next, routed) = followed(still, keymap, routes, edges, now);
        (next, end, routed)
    }
}

/// What one event does, while a divider is being dragged or not.
pub open spec fn done_by(
    state: LiveView,
    keymap: Keymap,
    pending: bool,
    event: EventView,
    dragging: bool,
    edges: Edges,
    now: Instant,
) -> (LiveView, bool, RoutedView) {
    let still = LiveView { resize: None, ..state };
    match event {
        EventView::Keys(keys) => typed(state, keymap, pending, keys, edges, now),
        EventView::Paste(text) => (still, pending, sending(seq![ClientMessageView::Paste(text)])),
        EventView::Focus(focused) => (
            still,
            pending && focused,
            sending(seq![ClientMessageView::Focus { focused }]),
        ),
        EventView::Mouse(report) => (
            still,
            pending,
            if dragging {
                RoutedView { chrome: Some(ChromeTarget::Gutter), ..sending(seq![]) }
            } else {
                match mouse_route(state.screen, state.focused_modes(), report) {
                    MouseRoute::Application(event) => sending(
                        seq![ClientMessageView::Mouse(event)],
                    ),
                    MouseRoute::Chrome(target) => RoutedView {
                        chrome: Some(target),
                        ..sending(seq![])
                    },
                }
            },
        ),
    }
}

fn one(message: ClientMessage) -> (messages: Vec<ClientMessage>)
    ensures
        message_views(messages@) == seq![message@],
{
    let mut messages: Vec<ClientMessage> = Vec::new();
    messages.push(message);
    assert(message_views(messages@) =~= seq![message@]);
    messages
}

fn nothing() -> (messages: Vec<ClientMessage>)
    ensures
        message_views(messages@) == Seq::<ClientMessageView>::empty(),
{
    let messages: Vec<ClientMessage> = Vec::new();
    assert(message_views(messages@) =~= Seq::<ClientMessageView>::empty());
    messages
}

fn go_on(send: Vec<ClientMessage>) -> (routed: Routed)
    ensures
        routed@ == sending(message_views(send@)),
{
    Routed { send, outcome: RouteOutcome::Continue, chrome: None }
}

/// Follows a run of routed chords.
pub fn follow_routes(
    state: &mut LiveState,
    keymap: &Keymap,
    routes: &Vec<ChordRoute>,
    edges: Edges,
    now: Instant,
) -> (routed: Routed)
    requires
        old(state).wf(),
        now.nanos + keyboard_resize_linger().nanos <= u64::MAX,
    ensures
        final(state).wf(),
        (final(state)@, routed@) == followed(
            old(state)@,
            *keymap,
            chord_routes(routes@),
            edges,
            now,
        ),
{
    let ghost all = chord_routes(routes@);
    let ghost whole = followed(state@, *keymap, all, edges, now);
    let mut send: Vec<ClientMessage> = Vec::new();
    assert(all.skip(0) =~= all);
    assert(message_views(send@) =~= Seq::<ClientMessageView>::empty());
    assert(message_views(send@) + whole.1.send =~= whole.1.send);
    let mut i: usize = 0;
    while i < routes.len()
        invariant
            i <= routes@.len(),
            state.wf(),
            now.nanos + keyboard_resize_linger().nanos <= u64::MAX,
            all == chord_routes(routes@),
            whole == followed(old(state)@, *keymap, all, edges, now),
            ({
                let left = followed(state@, *keymap, all.skip(i as int), edges, now);
                &&& whole.0 == left.0
                &&& whole.1 == (RoutedView {
                    send: message_views(send@) + left.1.send,
                    ..left.1
                })
            }),
        decreases routes@.len() - i,
    {
        let ghost rest = all.skip(i as int);
        let ghost left = followed(state@, *keymap, rest, edges, now);
        let ghost sent = message_views(send@);
        assert(rest[0] == routes@[i as int]@);
        assert(rest.drop_first() =~= all.skip(i + 1));
        match &routes[i] {
            ChordRoute::Pane(bytes) => {
                let mut copy: Vec<u8> = Vec::new();
                crate::effects::extend_bytes(&mut copy, bytes.as_slice());
                assert(copy@ =~= bytes@);
                let message = ClientMessage::Input(copy);
                send.push(message);
                assert(message_views(send@) =~= sent.push(message@));
                let ghost next = followed(state@, *keymap, all.skip(i + 1), edges, now);
                assert(sent + (seq![message@] + next.1.send) =~= message_views(send@)
                    + next.1.send);
            },
            ChordRoute::Pending => {},
            ChordRoute::Command(action) => {
                let leaves = action.is_action(&Action::DetachClient);
                let message = ClientMessage::Command(action.clone());
                send.push(message);
                assert(message_views(send@) =~= sent.push(message@));
                if leaves {
                    assert(sent + seq![message@] =~= message_views(send@));
                    return Routed { send, outcome: RouteOutcome::Detach, chrome: None };
                }
                let ghost next = followed(state@, *keymap, all.skip(i + 1), edges, now);
                assert(sent + (seq![message@] + next.1.send) =~= message_views(send@)
                    + next.1.send);
            },
            ChordRoute::Resize(side) => {
                match state.keyboard_resize(*side, edges.toward(*side), now) {
                    Some(action) => {
                        let message = ClientMessage::Command(action);
                        send.push(message);
                        assert(message_views(send@) =~= sent.push(message@));
                        let ghost next = followed(state@, *keymap, all.skip(i + 1), edges, now);
                        assert(sent + (seq![message@] + next.1.send) =~= message_views(send@)
                            + next.1.send);
                    },
                    None => {},
                }
            },
            ChordRoute::Unbound(chord) => {
                let _ = state.open_overlay(chord.as_slice(), keymap);
            },
        }
        i = i + 1;
    }
    assert(all.skip(i as int) =~= Seq::<ChordView>::empty());
    assert(message_views(send@) + Seq::<ClientMessageView>::empty() =~= message_views(send@));
    go_on(send)
}

/// Gives typed bytes to the open overlay.
fn type_at_overlay(state: &mut LiveState, keys: &[u8], now: Instant) -> (routed: Routed)
    requires
        old(state).wf(),
        now.nanos + launch_deadline().nanos <= u64::MAX,
    ensures
        final(state).wf(),
        (final(state)@, routed@) == overlay_typed(old(state)@, keys@, now),
{
    match state.apply_overlay_keys(keys) {
        OverlayKeys::Launch(request) => {
            let profile = request.profile().to_owned();
            state.sent_launch(&request, now);
            go_on(one(ClientMessage::Command(Action::LaunchProfile(profile))))
        },
        OverlayKeys::Command(action) => {
            let leaves = action.is_action(&Action::DetachClient);
            let send = one(ClientMessage::Command(action));
            Routed {
                send,
                outcome: if leaves {
                    RouteOutcome::Detach
                } else {
                    RouteOutcome::Continue
                },
                chrome: None,
            }
        },
        OverlayKeys::SwitchSession(socket) => Routed {
            send: nothing(),
            outcome: RouteOutcome::Switch(socket),
            chrome: None,
        },
        OverlayKeys::Ignored => go_on(nothing()),
        OverlayKeys::Consumed => go_on(nothing()),
    }
}

/// Resolves prefix chords and answers with the application bytes or actions
/// they come to. `edges` are the dividers around the focused pane, for a resize
/// chord.
pub fn route_keys(
    state: &mut LiveState,
    keys: &mut KeyRouter,
    bytes: &[u8],
    edges: Edges,
    now: Instant,
) -> (routed: Routed)
    requires
        old(state).wf(),
        now.nanos + launch_deadline().nanos <= u64::MAX,
    ensures
        final(state).wf(),
        final(keys).keymap == old(keys).keymap,
        (final(state)@, final(keys).pending, routed@) == typed(
            old(state)@,
            old(keys).keymap,
            old(keys).pending,
            bytes@,
            edges,
            now,
        ),
{
    let _ = state.clear_resize();
    if state.overlay.is_some() {
        keys.reset();
        return type_at_overlay(state, bytes, now);
    }
    let routes = keys.feed_chords(bytes);
    follow_routes(state, keys.keymap(), &routes, edges, now)
}

/// Sends one decoded event through the correct client or application path. A
/// mouse report on the chrome is left for its gesture.
pub fn route(
    state: &mut LiveState,
    keys: &mut KeyRouter,
    event: &InputEvent,
    dragging: bool,
    edges: Edges,
    now: Instant,
) -> (routed: Routed)
    requires
        old(state).wf(),
        now.nanos + launch_deadline().nanos <= u64::MAX,
    ensures
        final(state).wf(),
        final(keys).keymap == old(keys).keymap,
        (final(state)@, final(keys).pending, routed@) == done_by(
            old(state)@,
            old(keys).keymap,
            old(keys).pending,
            event@,
            dragging,
            edges,
            now,
        ),
{
    match event {
        InputEvent::Keys(bytes) => route_keys(state, keys, bytes.as_slice(), edges, now),
        InputEvent::Paste(text) => {
            let _ = state.clear_resize();
            let mut copy: Vec<u8> = Vec::new();
            extend_bytes(&mut copy, text.as_slice());
            assert(copy@ =~= text@);
            go_on(one(ClientMessage::Paste(copy)))
        },
        InputEvent::Focus(focused) => {
            let _ = state.clear_resize();
            if !*focused {
                keys.reset();
            }
            go_on(one(ClientMessage::Focus { focused: *focused }))
        },
        InputEvent::Mouse(report) => {
            let _ = state.clear_resize();
            if dragging {
                return Routed {
                    send: nothing(),
                    outcome: RouteOutcome::Continue,
                    chrome: Some(ChromeTarget::Gutter),
                };
            }
            let modes = state.focused_modes();
            match route_mouse(&state.screen, modes, report) {
                MouseRoute::Application(event) => go_on(one(ClientMessage::Mouse(event))),
                MouseRoute::Chrome(target) => Routed {
                    send: nothing(),
                    outcome: RouteOutcome::Continue,
                    chrome: Some(target),
                },
            }
        },
    }
}

/// What a read's events do from one of them on, and the event to go on with. A
/// report on the chrome is left for its gesture before the next event is looked
/// at, and leaving or switching ends the read.
pub open spec fn done_by_all(
    state: LiveView,
    keymap: Keymap,
    pending: bool,
    events: Seq<EventView>,
    from: nat,
    dragging: bool,
    edges: Edges,
    now: Instant,
) -> (LiveView, bool, RoutedView, nat)
    decreases events.len() - from,
{
    if from >= events.len() {
        (state, pending, sending(seq![]), events.len())
    } else {
        let (next, held, routed) = done_by(
            state,
            keymap,
            pending,
            events[from as int],
            dragging,
            edges,
            now,
        );
        if routed.chrome is Some {
            (next, held, routed, from + 1)
        } else if routed.outcome !is Continue {
            (next, held, routed, events.len())
        } else {
            let (last, end, after, to) = done_by_all(
                next,
                keymap,
                held,
                events,
                from + 1,
                dragging,
                edges,
                now,
            );
            (last, end, RoutedView { send: routed.send + after.send, ..after }, to)
        }
    }
}

/// Sends a read's events through their paths, from one of them on. The answer
/// says how far it came: to the end, or to behind a report on the chrome.
pub fn route_events(
    state: &mut LiveState,
    keys: &mut KeyRouter,
    events: &Vec<InputEvent>,
    from: usize,
    dragging: bool,
    edges: Edges,
    now: Instant,
) -> (routed: (Routed, usize))
    requires
        old(state).wf(),
        now.nanos + launch_deadline().nanos <= u64::MAX,
    ensures
        final(state).wf(),
        final(keys).keymap == old(keys).keymap,
        (final(state)@, final(keys).pending, routed.0@, routed.1 as nat) == done_by_all(
            old(state)@,
            old(keys).keymap,
            old(keys).pending,
            event_views(events@),
            from as nat,
            dragging,
            edges,
            now,
        ),
    decreases events.len() - from,
{
    if from >= events.len() {
        return (go_on(nothing()), events.len());
    }
    assert(event_views(events@)[from as int] == events@[from as int]@);
    let mut first = route(state, keys, &events[from], dragging, edges, now);
    if first.chrome.is_some() {
        return (first, from + 1);
    }
    match first.outcome {
        RouteOutcome::Continue => {},
        _ => {
            return (first, events.len());
        },
    }
    let ghost sent = message_views(first.send@);
    let (rest, to) = route_events(state, keys, events, from + 1, dragging, edges, now);
    let Routed { send: mut more, outcome, chrome } = rest;
    let ghost ahead = first.send@;
    let ghost behind = more@;
    first.send.append(&mut more);
    assert(message_views(first.send@) =~= message_views(ahead) + message_views(behind));
    (Routed { send: first.send, outcome, chrome }, to)
}

/// Commands as they are sent.
pub open spec fn command_messages(commands: Seq<Action>) -> Seq<ClientMessageView> {
    commands.map_values(|command: Action| command_message(command))
}

/// Whether one of the commands leaves the session.
pub open spec fn leaves_session(commands: Seq<Action>) -> bool {
    exists|i: int| 0 <= i < commands.len() && (#[trigger] commands[i]) == Action::DetachClient
}

/// Sends what a chrome gesture came to through the same command vocabulary as
/// the keyboard, and shows the divider it holds.
pub fn apply_chrome(
    state: &mut LiveState,
    commands: &Vec<Action>,
    divider: Option<(Divider, Option<u16>)>,
    now: Instant,
) -> (routed: Routed)
    requires
        old(state).wf(),
        now.nanos + keyboard_resize_linger().nanos <= u64::MAX,
    ensures
        final(state).wf(),
        final(state)@ == match divider {
            Some((edge, share)) => old(state)@.resizing(edge, share, ResizeSource::Mouse, now),
            None => if old(state)@.resize matches Some(resize) && resize.source
                == ResizeSource::Mouse {
                LiveView { resize: None, ..old(state)@ }
            } else {
                old(state)@
            },
        },
        routed@ == (RoutedView {
            send: command_messages(commands@),
            outcome: if leaves_session(commands@) {
                RouteOutcomeView::Detach
            } else {
                RouteOutcomeView::Continue
            },
            chrome: None,
        }),
{
    state.sync_mouse_resize(divider, now);
    let mut send: Vec<ClientMessage> = Vec::new();
    let mut leaves = false;
    assert(message_views(send@) =~= command_messages(commands@.take(0)));
    for i in 0..commands.len()
        invariant
            message_views(send@) == command_messages(commands@.take(i as int)),
            leaves == exists|k: int|
                0 <= k < i && (#[trigger] commands@[k]) == Action::DetachClient,
    {
        let ghost before = message_views(send@);
        if commands[i].is_action(&Action::DetachClient) {
            assert(commands@[i as int] == Action::DetachClient);
            leaves = true;
        }
        let message = ClientMessage::Command(commands[i].clone());
        send.push(message);
        assert(message_views(send@) =~= before.push(message@));
        assert(command_messages(commands@.take(i + 1)) =~= before.push(
            command_message(commands@[i as int]),
        ));
    }
    assert(commands@.take(commands@.len() as int) =~= commands@);
    Routed {
        send,
        outcome: if leaves {
            RouteOutcome::Detach
        } else {
            RouteOutcome::Continue
        },
        chrome: None,
    }
}

/// While an overlay is open no typed byte reaches a pane.
pub proof fn an_open_overlay_owns_the_keyboard(
    state: LiveView,
    keymap: Keymap,
    pending: bool,
    keys: Seq<u8>,
    edges: Edges,
    now: Instant,
    i: int,
)
    requires
        state.overlay is Some,
        0 <= i < typed(state, keymap, pending, keys, edges, now).2.send.len(),
    ensures
        typed(state, keymap, pending, keys, edges, now).2.send[i] !is Input,
{
}

/// An unbound arrow behind the prefix moves the divider on its side by one step
/// and shows it. At an outer edge it is consumed and does nothing.
pub proof fn an_unbound_arrow_moves_its_divider(
    state: LiveView,
    keymap: Keymap,
    key: Key,
    side: Side,
    keys: Seq<u8>,
    edges: Edges,
    now: Instant,
)
    requires
        state.overlay is None,
        state.screen.focused is Some,
        keys.len() > 0,
        chord_at(keys) == Some((key, keys.len())),
        bound(keymap.bindings@, key) is None,
        key != keymap.prefix,
        pointed_side(key.code) == Some(side),
    ensures
        ({
            let still = LiveView { resize: None, ..state };
            typed(state, keymap, true, keys, edges, now) == match edges.toward(side) {
                Some((edge, share)) => (
                    still.resizing(edge, share, ResizeSource::Keyboard, now),
                    false,
                    sending(
                        seq![
                            command_message(
                                Action::ResizePane {
                                    pane: edge.pane,
                                    dir: edge.dir,
                                    delta: step_toward(side),
                                },
                            ),
                        ],
                    ),
                ),
                None => (still, false, sending(seq![])),
            }
        }),
{
    let still = LiveView { resize: None, ..state };
    let (next, action) = still.nudged(side, edges.toward(side), now);
    let none = Seq::<u8>::empty();
    assert(keys.skip(keys.len() as int) =~= none);
    assert(routed_chords(keymap, false, none, none) == (Seq::<ChordView>::empty(), false));
    let routes = routed_chords(keymap, true, none, keys).0;
    assert(routes =~= seq![ChordView::Resize(side)]);
    assert(routes.drop_first() =~= Seq::<ChordView>::empty());
    assert(followed(next, keymap, routes.drop_first(), edges, now) == (next, sending(seq![])));
    if let Some(resize) = action {
        assert(seq![command_message(resize)] + Seq::<ClientMessageView>::empty() =~= seq![
            command_message(resize),
        ]);
    }
}

/// Typing without the prefix reaches the pane byte for byte, as one run, and
/// opens nothing.
pub proof fn typing_without_the_prefix_reaches_the_pane(
    state: LiveView,
    keymap: Keymap,
    keys: Seq<u8>,
    edges: Edges,
    now: Instant,
)
    requires
        state.overlay is None,
        keys.len() > 0,
        !routed_chords(keymap, false, seq![], keys).0.contains(ChordView::Pending),
    ensures
        typed(state, keymap, false, keys, edges, now) == (
            LiveView { resize: None, ..state },
            false,
            sending(seq![ClientMessageView::Input(keys)]),
        ),
{
    let (routes, end) = routed_chords(keymap, false, seq![], keys);
    forgetting(keymap, false, seq![], keys);
    unprefixed_keys_pass_verbatim(keymap, keys);
    let plain = routed(keymap, false, seq![], keys).0;
    if plain.contains(RouteView::Pending) {
        let i = choose|i: int| 0 <= i < plain.len() && plain[i] == RouteView::Pending;
        assert(plain[i] == forgotten(routes)[i]);
        assert(routes[i] == ChordView::Pending);
    }
    assert(forgotten(routes)[0] == RouteView::Pane(keys));
    assert(routes =~= seq![ChordView::Pane(keys)]);
    assert(routes.drop_first() =~= seq![]);
    let still = LiveView { resize: None, ..state };
    assert(followed(still, keymap, routes.drop_first(), edges, now) == (still, sending(seq![])));
    assert(seq![ClientMessageView::Input(keys)] + Seq::<ClientMessageView>::empty() =~= seq![
        ClientMessageView::Input(keys),
    ]);
}

} // verus!
