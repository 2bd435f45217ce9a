use cloo_client::input::{ChromeTarget, InputEvent, KeyRouter, MouseReport};
use cloo_client::keymap::{Key, KeyCode, Keymap};
use cloo_client::live::{keyboard_resize_linger, CatalogEntry, Divider, Edges, LiveState};
use cloo_client::overlay::{Profile, ProfileCommand, SocketPath};
use cloo_client::proto::{
    Action, ClientMessage, Direction, LayoutSnapshot, MouseButton, MouseEvent, MouseKind,
    MouseMods, MouseTracking, PaneId, PaneInfo, PaneModes, PaneRect, Point, ServerMessage,
    SessionId, SessionSummary, Size, TabId, TabSummary,
};
use cloo_client::routing::{apply_chrome, route, route_events, route_keys, RouteOutcome};
use cloo_client::settings::Swatches;
use cloo_client::theme::Theme;
use cloo_client::time::Instant;

fn start_of_time() -> Instant {
    Instant {
        nanos: 1_000_000_000,
    }
}

fn palettes() -> Swatches {
    Swatches {
        storm: Theme::storm(),
        night: Theme::storm(),
        gruvbox: Theme::storm(),
        nord: Theme::storm(),
    }
}

fn one_tab() -> Vec<TabSummary> {
    vec![TabSummary {
        tab: TabId::new(1),
        title: "shell".to_owned(),
        active: true,
    }]
}

fn info(pane: u64, cwd: &str) -> PaneInfo {
    PaneInfo {
        pane: PaneId::new(pane),
        profile: "generic".to_owned(),
        name: "shell".to_owned(),
        task: None,
        cwd: cwd.to_owned(),
    }
}

fn rect(pane: u64, x: u16, size: Size) -> PaneRect {
    PaneRect {
        pane: PaneId::new(pane),
        x,
        y: 1,
        size,
    }
}

fn layout(panes: Vec<PaneRect>, focused: u64) -> ServerMessage {
    ServerMessage::Layout(LayoutSnapshot {
        tab: TabId::new(1),
        panes,
        focused: Some(PaneId::new(focused)),
        zoomed: None,
    })
}

/// A projection with one pane, drawn on a terminal of forty columns.
fn projection() -> LiveState {
    let mut state = LiveState::new(
        Size::new(40, 12),
        SessionId::new(1),
        one_tab(),
        "C-b".to_owned(),
        Theme::storm(),
        palettes(),
    );
    state
        .apply_at(layout(vec![rect(1, 1, Size::new(38, 8))], 1), start_of_time())
        .expect("the layout applies");
    state
        .apply_at(
            ServerMessage::Panes(vec![info(1, "/home/dev")]),
            start_of_time(),
        )
        .expect("the panes apply");
    state
}

/// A keymap with the default prefix and two bound chords.
fn keymap() -> Keymap {
    let mut keymap = Keymap::new(Key::ctrl('b'), "C-b".to_owned());
    keymap.bind(
        Key::char('c'),
        "c".to_owned(),
        "new-tab".to_owned(),
        Action::NewTab,
    );
    keymap.bind(
        Key::char('d'),
        "d".to_owned(),
        "detach-client".to_owned(),
        Action::DetachClient,
    );
    keymap
}

fn socket(path: &str) -> SocketPath {
    SocketPath::new(path.as_bytes().to_vec())
}

fn press(col: u16, row: u16) -> InputEvent {
    InputEvent::Mouse(MouseReport {
        kind: MouseKind::Press(MouseButton::Left),
        mods: MouseMods::none(),
        col,
        row,
    })
}

#[test]
fn typing_without_the_prefix_is_sent_to_the_pane() {
    let mut state = projection();
    let mut keys = KeyRouter::new(keymap());
    let routed = route_keys(&mut state, &mut keys, b"ls -la\r", Edges::none(), start_of_time());
    assert_eq!(routed.send, vec![ClientMessage::Input(b"ls -la\r".to_vec())]);
    assert_eq!(routed.outcome, RouteOutcome::Continue);
    assert!(state.overlay.is_none());
}

#[test]
fn a_prefixed_chord_is_sent_as_its_command() {
    let mut state = projection();
    let mut keys = KeyRouter::new(keymap());
    let routed = route_keys(&mut state, &mut keys, b"a\x02cb", Edges::none(), start_of_time());
    assert_eq!(
        routed.send,
        vec![
            ClientMessage::Input(b"a".to_vec()),
            ClientMessage::Command(Action::NewTab),
            ClientMessage::Input(b"b".to_vec()),
        ]
    );
}

#[test]
fn detaching_ends_the_run_it_was_typed_in() {
    let mut state = projection();
    let mut keys = KeyRouter::new(keymap());
    let routed = route_keys(&mut state, &mut keys, b"\x02dls", Edges::none(), start_of_time());
    assert_eq!(
        routed.send,
        vec![ClientMessage::Command(Action::DetachClient)]
    );
    assert_eq!(routed.outcome, RouteOutcome::Detach);
}

#[test]
fn an_unbound_chord_opens_a_surface_that_then_owns_the_keyboard() {
    let mut state = projection();
    let mut keys = KeyRouter::new(keymap());
    let opened = route_keys(&mut state, &mut keys, b"\x02?", Edges::none(), start_of_time());
    assert!(opened.send.is_empty());
    assert!(state.overlay.is_some());
    let typed = route_keys(&mut state, &mut keys, b"rm -rf", Edges::none(), start_of_time());
    assert!(typed.send.is_empty(), "no keystroke leaves an open overlay");
}

#[test]
fn detaching_from_the_palette_is_still_detaching() {
    let mut state = projection();
    let mut keys = KeyRouter::new(keymap());
    route_keys(&mut state, &mut keys, b"\x02?", Edges::none(), start_of_time());
    let routed = route_keys(&mut state, &mut keys, b"detach\r", Edges::none(), start_of_time());
    assert_eq!(
        routed.send,
        vec![ClientMessage::Command(Action::DetachClient)]
    );
    assert_eq!(routed.outcome, RouteOutcome::Detach);
}

#[test]
fn a_confirmed_launch_is_sent_by_name_and_remembered() {
    let mut state = projection().profiles(vec![Profile {
        id: "codex".to_owned(),
        default_name: "codex".to_owned(),
        command: ProfileCommand::LoginShell,
        valid: true,
    }]);
    let mut keys = KeyRouter::new(keymap());
    route_keys(&mut state, &mut keys, b"\x02a", Edges::none(), start_of_time());
    let routed = route_keys(&mut state, &mut keys, b"\r", Edges::none(), start_of_time());
    assert_eq!(
        routed.send,
        vec![ClientMessage::Command(Action::LaunchProfile(
            "codex".to_owned()
        ))]
    );
    assert_eq!(
        state.launch.as_ref().map(|notice| notice.text()),
        Some("launching codex".to_owned())
    );
}

#[test]
fn a_confirmed_session_row_names_the_session_to_switch_to() {
    let mut state = projection();
    let mut keys = KeyRouter::new(keymap());
    state.refresh_sessions(
        vec![CatalogEntry {
            socket: socket("/run/cloo/review.sock"),
            summary: SessionSummary {
                name: "review".to_owned(),
                tabs: 1,
                panes: 1,
                clients: 0,
                uptime_secs: 3,
            },
        }],
        &socket("/run/cloo/main.sock"),
    );
    route_keys(&mut state, &mut keys, b"\x02s", Edges::none(), start_of_time());
    let routed = route_keys(&mut state, &mut keys, b"\r", Edges::none(), start_of_time());
    assert!(routed.send.is_empty());
    assert_eq!(
        routed.outcome,
        RouteOutcome::Switch(socket("/run/cloo/review.sock"))
    );
}

#[test]
fn losing_focus_forgets_a_pending_prefix() {
    let mut state = projection();
    let mut keys = KeyRouter::new(keymap());
    route_keys(&mut state, &mut keys, b"\x02", Edges::none(), start_of_time());
    assert!(keys.is_pending());
    let routed = route(
        &mut state,
        &mut keys,
        &InputEvent::Focus(false),
        false,
        Edges::none(),
        start_of_time(),
    );
    assert_eq!(routed.send, vec![ClientMessage::Focus { focused: false }]);
    assert!(!keys.is_pending());
}

#[test]
fn a_paste_is_sent_as_a_paste() {
    let mut state = projection();
    let mut keys = KeyRouter::new(keymap());
    let routed = route(
        &mut state,
        &mut keys,
        &InputEvent::Paste(b"echo hi".to_vec()),
        false,
        Edges::none(),
        start_of_time(),
    );
    assert_eq!(routed.send, vec![ClientMessage::Paste(b"echo hi".to_vec())]);
}

#[test]
fn the_mouse_reaches_a_pane_only_while_its_application_tracks_it() {
    let mut state = projection();
    let mut keys = KeyRouter::new(keymap());
    let ignored = route(&mut state, &mut keys, &press(4, 4), false, Edges::none(), start_of_time());
    assert!(ignored.send.is_empty());
    assert_eq!(
        ignored.chrome,
        Some(ChromeTarget::PaneBody {
            pane: PaneId::new(1),
            at: Point::new(3, 2),
        })
    );

    state
        .apply_at(
            ServerMessage::Modes {
                pane: PaneId::new(1),
                modes: PaneModes {
                    mouse: MouseTracking::Click,
                    ..PaneModes::default()
                },
            },
            start_of_time(),
        )
        .expect("the modes apply");
    let heard = route(&mut state, &mut keys, &press(4, 4), false, Edges::none(), start_of_time());
    assert_eq!(
        heard.send,
        vec![ClientMessage::Mouse(MouseEvent {
            pane: PaneId::new(1),
            at: Point::new(3, 2),
            kind: MouseKind::Press(MouseButton::Left),
            mods: MouseMods::none(),
        })]
    );

    let dragged = route(&mut state, &mut keys, &press(4, 4), true, Edges::none(), start_of_time());
    assert!(dragged.send.is_empty(), "a drag belongs to the divider");
    assert_eq!(dragged.chrome, Some(ChromeTarget::Gutter));
}

#[test]
fn a_read_stops_at_chrome_and_ends_at_a_detach() {
    let mut state = projection();
    let mut keys = KeyRouter::new(keymap());
    let events = vec![
        InputEvent::Keys(b"a".to_vec()),
        press(0, 0),
        InputEvent::Keys(b"\x02d".to_vec()),
        InputEvent::Keys(b"b".to_vec()),
    ];
    let (first, next) = route_events(
        &mut state,
        &mut keys,
        &events,
        0,
        false,
        Edges::none(),
        start_of_time(),
    );
    assert_eq!(first.send, vec![ClientMessage::Input(b"a".to_vec())]);
    assert_eq!(first.chrome, Some(ChromeTarget::TabRow { col: 0 }));
    assert_eq!(next, 2);

    let (last, end) = route_events(
        &mut state,
        &mut keys,
        &events,
        next,
        false,
        Edges::none(),
        start_of_time(),
    );
    assert_eq!(
        last.send,
        vec![ClientMessage::Command(Action::DetachClient)]
    );
    assert_eq!(last.outcome, RouteOutcome::Detach);
    assert_eq!(end, events.len(), "nothing behind a detach is looked at");
}

#[test]
fn a_gesture_sends_its_commands_and_shows_the_divider_it_holds() {
    let mut state = projection();
    let edge = Divider {
        pane: PaneId::new(1),
        dir: Direction::Horizontal,
    };
    let resize = || Action::ResizePane {
        pane: PaneId::new(1),
        dir: Direction::Horizontal,
        delta: 1,
    };
    let routed = apply_chrome(
        &mut state,
        &vec![resize()],
        Some((edge, Some(40))),
        start_of_time(),
    );
    assert_eq!(routed.send, vec![ClientMessage::Command(resize())]);
    assert_eq!(routed.outcome, RouteOutcome::Continue);
    assert_eq!(state.resize.map(|resize| resize.share), Some(40));

    let left = apply_chrome(
        &mut state,
        &vec![Action::DetachClient],
        None,
        start_of_time(),
    );
    assert_eq!(left.outcome, RouteOutcome::Detach);
    assert!(state.resize.is_none(), "letting go ends what the mouse began");
}

/// A divider on the right of the focused pane and none on the other sides.
fn right_edge() -> Edges {
    Edges {
        right: Some((
            Divider {
                pane: PaneId::new(1),
                dir: Direction::Horizontal,
            },
            Some(62),
        )),
        ..Edges::none()
    }
}

fn resized_by(delta: i16) -> ClientMessage {
    ClientMessage::Command(Action::ResizePane {
        pane: PaneId::new(1),
        dir: Direction::Horizontal,
        delta,
    })
}

#[test]
fn an_unbound_arrow_behind_the_prefix_moves_the_divider_on_its_side() {
    let now = start_of_time();
    let mut state = projection();
    let mut keys = KeyRouter::new(keymap());
    let routed = route_keys(&mut state, &mut keys, b"\x02\x1b[Cls", right_edge(), now);
    assert_eq!(
        routed.send,
        vec![resized_by(1), ClientMessage::Input(b"ls".to_vec())],
        "the rest of the run is the pane's"
    );
    assert_eq!(routed.outcome, RouteOutcome::Continue);
    let shown = state.resize.expect("the moved divider is shown");
    assert_eq!(shown.divider.pane, PaneId::new(1));
    assert_eq!(shown.share, 62);
    assert_eq!(shown.until, Some(now.plus(keyboard_resize_linger())));

    let left = Edges {
        left: right_edge().right,
        ..Edges::none()
    };
    let back = route_keys(&mut state, &mut keys, b"\x02\x1b[1;5D", left, now);
    assert_eq!(back.send, vec![resized_by(-1)], "a modifier makes no difference");
}

#[test]
fn an_arrow_toward_an_outer_edge_is_consumed() {
    let mut state = projection();
    let mut keys = KeyRouter::new(keymap());
    for arrow in [&b"\x02\x1b[A"[..], b"\x02\x1b[B", b"\x02\x1b[D"] {
        let routed = route_keys(&mut state, &mut keys, arrow, right_edge(), start_of_time());
        assert!(routed.send.is_empty());
        assert!(state.resize.is_none(), "an outer edge lights nothing");
        assert!(!keys.is_pending());
    }
}

#[test]
fn a_bound_arrow_is_its_command_and_an_unprefixed_one_is_the_panes() {
    let mut bound = keymap();
    bound.bind(
        Key::code(KeyCode::Right),
        "right".to_owned(),
        "focus-right".to_owned(),
        Action::FocusRight,
    );
    let mut state = projection();
    let mut keys = KeyRouter::new(bound);
    let routed = route_keys(
        &mut state,
        &mut keys,
        b"\x02\x1b[C\x1b[C",
        right_edge(),
        start_of_time(),
    );
    assert_eq!(
        routed.send,
        vec![
            ClientMessage::Command(Action::FocusRight),
            ClientMessage::Input(b"\x1b[C".to_vec()),
        ]
    );
    assert!(state.resize.is_none());
}
