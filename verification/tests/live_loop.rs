use cloo_client::effects::EffectPolicy;
use cloo_client::input::{InputDecoder, InputEvent, KeyRouter, OuterModes};
use cloo_client::keymap::{Key, Keymap};
use cloo_client::live::{session_size, CatalogEntry, Divider, Edges, LiveState, Side};
use cloo_client::live_loop::{session_refresh_interval, LiveLoop, ServerStep};
use cloo_client::motion::{frame_budget, motion_duration, MotionKind};
use cloo_client::overlay::SocketPath;
use cloo_client::proto::{
    Action, Cell, ClientMessage, Direction, LayoutSnapshot, OuterTerminalEffect, PaneId, PaneInfo, PaneRect,
    RowUpdate, ServerMessage, SessionId, SessionSummary, Size, TabId, TabSummary, TermCaps,
};
use cloo_client::renderer::RenderError;
use cloo_client::routing::{route_keys, RouteOutcome};
use cloo_client::settings::{Swatches, VisualConfig};
use cloo_client::status_bar::RepositoryStatus;
use cloo_client::theme::Theme;
use cloo_client::time::{Duration, Instant};

fn start_of_time() -> Instant {
    Instant {
        nanos: 1_000_000_000,
    }
}

fn palettes() -> Swatches {
    Swatches {
        storm: Theme::storm(),
        night: Theme::storm(),
        gruvbox: Theme::storm(),
        nord: Theme::storm(),
    }
}

fn one_tab() -> Vec<TabSummary> {
    vec![TabSummary {
        tab: TabId::new(1),
        title: "shell".to_owned(),
        active: true,
    }]
}

fn info(pane: u64, cwd: &str) -> PaneInfo {
    PaneInfo {
        pane: PaneId::new(pane),
        profile: "generic".to_owned(),
        name: "shell".to_owned(),
        task: None,
        cwd: cwd.to_owned(),
    }
}

fn rect(pane: u64, x: u16, size: Size) -> PaneRect {
    PaneRect {
        pane: PaneId::new(pane),
        x,
        y: 1,
        size,
    }
}

fn layout(panes: Vec<PaneRect>, focused: u64) -> ServerMessage {
    ServerMessage::Layout(LayoutSnapshot {
        tab: TabId::new(1),
        panes,
        focused: Some(PaneId::new(focused)),
        zoomed: None,
    })
}

/// A projection with one pane, drawn on a terminal of forty columns.
fn projection() -> LiveState {
    let mut state = LiveState::new(
        Size::new(40, 12),
        SessionId::new(1),
        one_tab(),
        "C-b".to_owned(),
        Theme::storm(),
        palettes(),
    );
    state
        .apply_at(layout(vec![rect(1, 1, Size::new(38, 8))], 1), start_of_time())
        .expect("the layout applies");
    state
        .apply_at(
            ServerMessage::Panes(vec![info(1, "/home/dev")]),
            start_of_time(),
        )
        .expect("the panes apply");
    state
}

/// A keymap with the default prefix and two bound chords.
fn keymap() -> Keymap {
    let mut keymap = Keymap::new(Key::ctrl('b'), "C-b".to_owned());
    keymap.bind(
        Key::char('c'),
        "c".to_owned(),
        "new-tab".to_owned(),
        Action::NewTab,
    );
    keymap.bind(
        Key::char('d'),
        "d".to_owned(),
        "detach-client".to_owned(),
        Action::DetachClient,
    );
    keymap
}

fn socket(path: &str) -> SocketPath {
    SocketPath::new(path.as_bytes().to_vec())
}

fn live_loop(policy: EffectPolicy) -> LiveLoop {
    LiveLoop::new(
        projection(),
        KeyRouter::new(keymap()),
        InputDecoder::new(OuterModes {
            bracketed_paste: true,
            sgr_mouse: true,
            focus_events: true,
            extended_keys: true,
        }),
        socket("/run/cloo/main.sock"),
        TermCaps::default(),
        policy,
        Duration::from_secs(5),
    )
}

fn entry(path: &str) -> CatalogEntry {
    CatalogEntry {
        socket: socket(path),
        summary: SessionSummary {
            name: "review".to_owned(),
            tabs: 1,
            panes: 1,
            clients: 0,
            uptime_secs: 3,
        },
    }
}

/// Types at a loop, as its caller does with one read of keys.
fn type_at(client: &mut LiveLoop, keys: &[u8], now: Instant) -> Option<SocketPath> {
    let overlay_was_open = client.begin_input();
    let routed = route_keys(&mut client.state, &mut client.keys, keys, Edges::none(), now);
    let target = client.take_outcome(routed.outcome);
    client.finish_input(overlay_was_open, now);
    target
}

#[test]
fn the_end_of_a_session_ends_the_loop() {
    let now = start_of_time();
    let mut client = live_loop(EffectPolicy::default());
    assert_eq!(
        client.server(None, &one_tab(), now),
        Ok(ServerStep::Exit {
            status: 0,
            draw: false
        })
    );
    assert_eq!(
        client.server(Some(ServerMessage::Detached), &one_tab(), now),
        Ok(ServerStep::Exit {
            status: 0,
            draw: false
        })
    );
    assert_eq!(
        client.server(Some(ServerMessage::Exit(3)), &one_tab(), now),
        Ok(ServerStep::Exit {
            status: 3,
            draw: true
        }),
        "a frame that is due is drawn before the terminal is left"
    );
}

#[test]
fn an_effect_is_written_only_where_the_policy_permits_it() {
    let now = start_of_time();
    let title = || {
        Some(ServerMessage::Effect {
            pane: PaneId::new(1),
            effect: OuterTerminalEffect::SetTitle("agent".to_owned()),
        })
    };
    assert_eq!(
        live_loop(EffectPolicy::default()).server(title(), &one_tab(), now),
        Ok(ServerStep::Continue {
            ask: None,
            measure: None
        })
    );
    assert_eq!(
        live_loop(EffectPolicy::allow_title()).server(title(), &one_tab(), now),
        Ok(ServerStep::Write(b"\x1b]2;agent\x1b\\".to_vec()))
    );
}

#[test]
fn a_row_that_does_not_fit_ends_the_loop_with_its_reason() {
    let now = start_of_time();
    let mut client = live_loop(EffectPolicy::default());
    let damage = |row, cells| {
        Some(ServerMessage::Damage {
            pane: PaneId::new(1),
            rows: vec![RowUpdate {
                row,
                cells: vec![Cell::default(); cells],
            }],
        })
    };
    assert_eq!(
        client.server(damage(0, 5), &one_tab(), now),
        Err(RenderError::WidthMismatch { cells: 5, cols: 38 })
    );
    assert_eq!(
        client.server(damage(8, 38), &one_tab(), now),
        Err(RenderError::RowOutOfBounds { row: 8, rows: 8 })
    );
}

#[test]
fn a_reload_is_asked_for_once_and_replaces_the_motion() {
    let now = start_of_time();
    let mut client = live_loop(EffectPolicy::default());
    let told = || Some(ServerMessage::ConfigReloaded { revision: 4 });
    assert_eq!(
        client.server(told(), &one_tab(), now),
        Ok(ServerStep::Reload(4))
    );
    let reduced = VisualConfig {
        reduce_motion: true,
        ..VisualConfig::defaults()
    };
    client.frame(None, Edges::none(), now);
    client.reloaded(4, Some((reduced, Theme::storm())));
    assert!(client.dirty);
    assert!(client.motion.settings.reduce_motion);
    assert_eq!(
        client.server(told(), &one_tab(), now),
        Ok(ServerStep::Continue {
            ask: None,
            measure: None
        }),
        "a revision is observed once"
    );
}

#[test]
fn a_new_focused_directory_is_asked_about_once() {
    let now = start_of_time();
    let mut client = live_loop(EffectPolicy::default());
    let told = || Some(ServerMessage::Panes(vec![info(1, "/repo")]));
    assert_eq!(
        client.server(told(), &one_tab(), now),
        Ok(ServerStep::Continue {
            ask: Some("/repo".to_owned()),
            measure: None
        })
    );
    assert_eq!(
        client.server(told(), &one_tab(), now),
        Ok(ServerStep::Continue {
            ask: None,
            measure: None
        })
    );
    assert_eq!(
        client.frame(None, Edges::none(), now).ask,
        None,
        "an answer under way is not asked for again"
    );

    client.repository(
        "/repo".to_owned(),
        Some(RepositoryStatus {
            branch: Some("main".to_owned()),
            changes: 1,
        }),
        now,
    );
    assert!(client.dirty);
    assert_eq!(client.frame(None, Edges::none(), now.plus(Duration::from_secs(4))).ask, None);
    assert_eq!(
        client.frame(None, Edges::none(), now.plus(Duration::from_secs(5))).ask,
        Some("/repo".to_owned()),
        "an answer stays current for its interval"
    );
}

#[test]
fn a_split_starts_a_transition_that_input_ends() {
    let now = start_of_time();
    let mut client = live_loop(EffectPolicy::default());
    client
        .server(
            Some(layout(
                vec![rect(1, 1, Size::new(18, 8)), rect(2, 21, Size::new(18, 8))],
                1,
            )),
            &one_tab(),
            now,
        )
        .expect("the layout applies");
    assert_eq!(client.motion.kind(), Some(MotionKind::Split));
    assert!(client.phase.is_some_and(|phase| !phase.is_settled()));
    assert!(!client.begin_input());
    assert_eq!(client.motion.kind(), None);
    assert!(client.phase.is_some_and(|phase| phase.is_settled()));
}

#[test]
fn pane_output_starts_no_transition() {
    let now = start_of_time();
    let mut client = live_loop(EffectPolicy::default());
    client
        .server(
            Some(ServerMessage::Damage {
                pane: PaneId::new(1),
                rows: vec![RowUpdate {
                    row: 0,
                    cells: vec![Cell::default(); 38],
                }],
            }),
            &one_tab(),
            now,
        )
        .expect("the damage applies");
    assert_eq!(client.motion.kind(), None);
    assert!(client.dirty);
}

#[test]
fn a_frame_is_drawn_when_something_changed_and_only_then() {
    let now = start_of_time();
    let mut client = live_loop(EffectPolicy::default());
    assert!(client.frame(Some("14:38".to_owned()), Edges::none(), now).draw);
    assert!(!client.frame(Some("14:38".to_owned()), Edges::none(), now).draw);
    assert!(
        client.frame(Some("14:39".to_owned()), Edges::none(), now).draw,
        "the clock moved on"
    );
}

#[test]
fn a_lone_escape_is_released_by_the_next_frame() {
    let now = start_of_time();
    let mut client = live_loop(EffectPolicy::default());
    assert!(client.decoder.feed(b"\x1b").is_empty());
    let step = client.frame(None, Edges::none(), now);
    assert_eq!(step.send, vec![ClientMessage::Input(vec![0x1b])]);
    assert!(step.draw);
    assert!(client.frame(None, Edges::none(), now).send.is_empty());
}

#[test]
fn opening_and_closing_an_overlay_are_transitions() {
    let now = start_of_time();
    let mut client = live_loop(EffectPolicy::default());
    type_at(&mut client, b"\x02?", now);
    assert!(client.state.overlay.is_some());
    assert_eq!(client.motion.kind(), Some(MotionKind::Overlay));
    let done = now.plus(motion_duration()).plus(frame_budget());
    client.frame(None, Edges::none(), done);
    assert_eq!(client.motion.kind(), None);
    type_at(&mut client, b"\x1b", done);
    assert!(client.state.overlay.is_none());
    assert_eq!(client.motion.kind(), Some(MotionKind::Overlay));
}

#[test]
fn a_pending_prefix_reaches_the_status_row() {
    let now = start_of_time();
    let mut client = live_loop(EffectPolicy::default());
    type_at(&mut client, b"\x02", now);
    assert!(client.state.prefix_pending);
    type_at(&mut client, b"c", now);
    assert!(!client.state.prefix_pending);
}

#[test]
fn an_open_switcher_verifies_its_catalog_on_its_own_interval() {
    let now = start_of_time();
    let mut client = live_loop(EffectPolicy::default());
    let overlay_was_open = client.begin_input();
    route_keys(
        &mut client.state,
        &mut client.keys,
        b"\x02s",
        Edges::none(),
        now,
    );
    assert!(client.finish_input(overlay_was_open, now));
    assert!(
        !client.frame(None, Edges::none(), now).refresh_catalog,
        "one verification at a time"
    );
    client.catalog(
        Some(vec![
            entry("/run/cloo/main.sock"),
            entry("/run/cloo/review.sock"),
        ]),
        now,
    );
    assert_eq!(client.state.sessions.len(), 2);
    assert!(!client.frame(None, Edges::none(), now).refresh_catalog);
    assert!(
        client
            .frame(None, Edges::none(), now.plus(session_refresh_interval()))
            .refresh_catalog
    );
    client.catalog(None, now);
    assert_eq!(
        client.state.sessions.len(),
        2,
        "a failed verification drops nothing"
    );
}

#[test]
fn switching_names_another_session_and_a_failed_one_loses_its_row() {
    let now = start_of_time();
    let mut client = live_loop(EffectPolicy::default());
    client.catalog(
        Some(vec![
            entry("/run/cloo/main.sock"),
            entry("/run/cloo/review.sock"),
        ]),
        now,
    );
    type_at(&mut client, b"\x02s", now);
    assert_eq!(
        type_at(&mut client, b"\r", now),
        None,
        "switching to this session itself is staying"
    );
    assert!(client.state.overlay.is_none());

    type_at(&mut client, b"\x02s", now);
    type_at(&mut client, b"j", now);
    let target = type_at(&mut client, b"\r", now).expect("another session was chosen");
    assert_eq!(target, socket("/run/cloo/review.sock"));
    client.switch_failed(&target);
    assert_eq!(client.state.sessions.len(), 1);
    assert_eq!(client.catalog_refreshed, None);
}

#[test]
fn a_detach_waits_for_its_answer() {
    let mut client = live_loop(EffectPolicy::default());
    assert_eq!(client.take_outcome(RouteOutcome::Continue), None);
    assert!(!client.detaching);
    assert_eq!(client.take_outcome(RouteOutcome::Detach), None);
    assert!(client.detaching);
}

#[test]
fn a_resize_tells_the_server_what_is_left_for_the_session() {
    let mut client = live_loop(EffectPolicy::default());
    assert_eq!(
        client.resized(Size::new(100, 30)),
        ClientMessage::Resize(Size::new(100, 28))
    );
    assert_eq!(client.state.outer_size, Size::new(100, 30));
    assert_eq!(session_size(Size::new(10, 1)), Size::new(10, 0));
}

#[test]
fn a_closed_standard_input_is_not_the_end() {
    let mut client = live_loop(EffectPolicy::default());
    client.input_closed();
    assert!(!client.input_open);
    assert!(!client.detaching);
}

#[test]
fn a_new_layout_has_the_moved_divider_measured_again() {
    let now = start_of_time();
    let mut client = live_loop(EffectPolicy::default());
    let edge = Divider {
        pane: PaneId::new(1),
        dir: Direction::Horizontal,
    };
    let told = || Some(layout(vec![rect(1, 1, Size::new(38, 8))], 1));
    let untouched = client.server(told(), &one_tab(), now);
    assert!(matches!(
        untouched,
        Ok(ServerStep::Continue { measure: None, .. })
    ));

    let _ = client
        .state
        .keyboard_resize(Side::Right, Some((edge, Some(50))), now);
    let other = client.server(Some(ServerMessage::Panes(Vec::new())), &one_tab(), now);
    assert!(
        matches!(other, Ok(ServerStep::Continue { measure: None, .. })),
        "only a layout moves a divider"
    );
    let relaid = client.server(told(), &one_tab(), now);
    match relaid {
        Ok(ServerStep::Continue { measure, .. }) => assert_eq!(measure, Some(edge)),
        other => panic!("the layout applies: {other:?}"),
    }
    client.state.refresh_resize_ratio(Some(62), now);
    assert_eq!(client.state.resize.map(|resize| resize.share), Some(62));
}

#[test]
fn a_held_escape_finishes_a_chord_and_moves_no_divider() {
    let now = start_of_time();
    let mut client = live_loop(EffectPolicy::default());
    let edges = Edges {
        left: Some((
            Divider {
                pane: PaneId::new(1),
                dir: Direction::Horizontal,
            },
            None,
        )),
        ..Edges::none()
    };
    type_at(&mut client, b"\x02", now);
    assert!(client.decoder.feed(b"\x1b").is_empty());
    let step = client.frame(None, edges, now);
    assert!(step.send.is_empty(), "an unbound chord is consumed");
    assert!(client.state.resize.is_none());
    assert!(!client.keys.is_pending());
}

#[test]
fn a_tick_leaves_the_decoder_reading_as_before() {
    let now = start_of_time();
    let mut client = live_loop(EffectPolicy::default());
    assert!(client.decoder.feed(b"\x1b[").is_empty());
    let step = client.frame(None, Edges::none(), now);
    assert_eq!(step.send, vec![ClientMessage::Input(b"\x1b[".to_vec())]);
    assert_eq!(
        client.decoder.feed(b"A"),
        vec![InputEvent::Keys(b"A".to_vec())],
        "what was released is not read again"
    );
}

#[test]
fn no_step_widens_what_a_child_may_write() {
    let now = start_of_time();
    let mut client = live_loop(EffectPolicy::default());
    let replacement = Some((VisualConfig::defaults(), Theme::storm()));
    let _ = client.server(
        Some(ServerMessage::ConfigReloaded { revision: 4 }),
        &one_tab(),
        now,
    );
    client.reloaded(4, replacement);
    client.resized(Size::new(60, 20));
    client.frame(None, Edges::none(), now);
    assert_eq!(client.policy, EffectPolicy::default());
    assert_eq!(
        client.server(
            Some(ServerMessage::Effect {
                pane: PaneId::new(1),
                effect: OuterTerminalEffect::SetTitle("agent".to_owned()),
            }),
            &one_tab(),
            now,
        ),
        Ok(ServerStep::Continue {
            ask: None,
            measure: None
        })
    );
}
