use cloo_client::attach::{
    attach_request, detach_settled, handshake, inspect_handshake, inspect_request, AttachError,
    AttachRunError, InspectError, RawModeFailure, FIXED_CHROME_ROWS,
};
use cloo_client::capabilities::CapsError;
use cloo_client::chrome::{
    toast_lifetime, Attention, RepositoryStatus, StatusMode, TOAST_CAPACITY, TOAST_MARGIN,
};
use cloo_client::input::{ChromeTarget, MouseTarget};
use cloo_client::keymap::{Key, KeyCode, KeyMods, Keymap};
use cloo_client::live::{keyboard_resize_linger, CatalogEntry, Divider, LiveState, Side};
use cloo_client::live_overlay::OverlayKeys;
use cloo_client::motion::{MotionSettings, MOTION_STEPS};
use cloo_client::overlay::{
    launch_deadline, notice_linger, Overlay, OverlayKind, Profile, ProfileCommand, SocketPath,
};
use cloo_client::proto::{
    Action, AttentionState, Cell, CellAttrs, ClientMessage, Color, CopyModeState, CopySelection,
    CursorShape, Direction, LayoutSnapshot, PaneAttention, PaneId, PaneInfo, PaneRect, Point,
    RowUpdate, ScrollPoint, ServerMessage, SessionId, SessionSummary, Size, TabId, TabSummary,
    TermCaps, WorkspaceStatus,
};
use cloo_client::renderer::RenderError;
use cloo_client::routing::apply_chrome;
use cloo_client::settings::{Swatches, ThemeChoice, ThemeName, VisualConfig};
use cloo_client::theme::Theme;
use cloo_client::time::{Duration, Instant};

const VERSION: u16 = 9;

fn start_of_time() -> Instant {
    Instant {
        nanos: 1_000_000_000,
    }
}

fn socket(path: &str) -> SocketPath {
    SocketPath::new(path.as_bytes().to_vec())
}

/// The edge between the two panes of the resize fixture.
fn shared_edge() -> Divider {
    Divider {
        pane: PaneId::new(1),
        dir: Direction::Horizontal,
    }
}

/// The chord a user would write as `text`.
fn chord(text: &str) -> Key {
    let mut mods = KeyMods::none();
    let mut rest = text;
    while rest.chars().count() > 2 {
        if let Some(behind) = rest.strip_prefix("C-") {
            mods.ctrl = true;
            rest = behind;
        } else if let Some(behind) = rest.strip_prefix("M-") {
            mods.alt = true;
            rest = behind;
        } else if let Some(behind) = rest.strip_prefix("S-") {
            mods.shift = true;
            rest = behind;
        } else {
            break;
        }
    }
    let code = match rest {
        "space" => KeyCode::Char(' '),
        "enter" => KeyCode::Enter,
        "tab" => KeyCode::Tab,
        "backspace" => KeyCode::Backspace,
        "escape" => KeyCode::Escape,
        "up" => KeyCode::Up,
        "down" => KeyCode::Down,
        "left" => KeyCode::Left,
        "right" => KeyCode::Right,
        "home" => KeyCode::Home,
        "end" => KeyCode::End,
        "insert" => KeyCode::Insert,
        "delete" => KeyCode::Delete,
        "pageup" => KeyCode::PageUp,
        "pagedown" => KeyCode::PageDown,
        "f12" => KeyCode::Function(12),
        _ => KeyCode::Char(rest.chars().next().expect("a chord names a key")),
    };
    Key::new(code, mods)
}

/// The keymap a user who configured nothing has.
fn default_keymap() -> Keymap {
    let mut keymap = Keymap::new(chord("C-b"), "C-b".to_owned());
    let bindings = [
        ("%", "split-vertical", Action::SplitVertical),
        ("\"", "split-horizontal", Action::SplitHorizontal),
        ("x", "close-pane", Action::ClosePane),
        ("h", "focus-left", Action::FocusLeft),
        ("j", "focus-down", Action::FocusDown),
        ("k", "focus-up", Action::FocusUp),
        ("l", "focus-right", Action::FocusRight),
        ("left", "focus-left", Action::FocusLeft),
        ("down", "focus-down", Action::FocusDown),
        ("up", "focus-up", Action::FocusUp),
        ("right", "focus-right", Action::FocusRight),
        ("z", "toggle-zoom", Action::ToggleZoom),
        ("c", "new-tab", Action::NewTab),
        ("&", "close-tab", Action::CloseTab),
        ("n", "next-tab", Action::NextTab),
        ("p", "prev-tab", Action::PrevTab),
        ("[", "enter-copy-mode", Action::EnterCopyMode),
        ("d", "detach-client", Action::DetachClient),
    ];
    for (spelling, name, action) in bindings {
        keymap.bind(chord(spelling), spelling.to_owned(), name.to_owned(), action);
    }
    keymap
}

/// The profiles a user who configured nothing has.
fn built_in_profiles() -> Vec<Profile> {
    let program = |id: &str| Profile {
        id: id.to_owned(),
        default_name: id.to_owned(),
        command: ProfileCommand::Program {
            program: id.to_owned(),
            args: Vec::new(),
        },
        valid: true,
    };
    vec![
        Profile {
            id: "generic".to_owned(),
            default_name: "shell".to_owned(),
            command: ProfileCommand::LoginShell,
            valid: true,
        },
        program("codex"),
        program("cursor"),
    ]
}

/// A palette a terminal with sixteen colours can show.
fn sixteen_colours() -> Theme {
    Theme {
        frame: Color::Indexed(0),
        surface: Color::Indexed(0),
        raised_surface: Color::Indexed(8),
        border: Color::Indexed(8),
        accent: Color::Indexed(13),
        primary: Color::Indexed(15),
        muted: Color::Indexed(7),
        success: Color::Indexed(10),
        warning: Color::Indexed(11),
        error: Color::Indexed(9),
        info: Color::Indexed(14),
        default_text: Color::Indexed(15),
    }
}

/// A palette unlike any other, told by one channel of its accent and states.
fn tinted(tint: u8) -> Theme {
    Theme {
        accent: Color::Rgb(tint, 1, 1),
        success: Color::Rgb(tint, 2, 2),
        warning: Color::Rgb(tint, 3, 3),
        error: Color::Rgb(tint, 4, 4),
        info: Color::Rgb(tint, 5, 5),
        ..Theme::storm()
    }
}

/// The named palettes of a terminal with true colour.
fn truecolor_swatches() -> Swatches {
    Swatches {
        storm: Theme::storm(),
        night: tinted(40),
        gruvbox: tinted(80),
        nord: tinted(120),
    }
}

/// The named palettes of a terminal with sixteen colours, which all agree.
fn shared_swatches() -> Swatches {
    Swatches {
        storm: sixteen_colours(),
        night: sixteen_colours(),
        gruvbox: sixteen_colours(),
        nord: sixteen_colours(),
    }
}

/// The named palettes a terminal can show.
fn swatches_for(caps: TermCaps) -> Swatches {
    if caps.truecolor {
        truecolor_swatches()
    } else {
        shared_swatches()
    }
}

/// The palette a choice resolves to in a terminal.
fn theme_for(choice: ThemeChoice, caps: TermCaps) -> Theme {
    match choice {
        ThemeChoice::Terminal => Theme {
            frame: Color::Default,
            surface: Color::Default,
            default_text: Color::Default,
            ..sixteen_colours()
        },
        ThemeChoice::Named(name) => swatches_for(caps).of(name),
    }
}

/// A projection of a client that resolved no preference yet.
fn live_state(
    outer: Size,
    session: SessionId,
    tabs: Vec<TabSummary>,
    prefix: String,
) -> LiveState {
    LiveState::new(
        outer,
        session,
        tabs,
        prefix,
        sixteen_colours(),
        shared_swatches(),
    )
}

trait Fixture {
    /// Applies a message at a fixed instant.
    fn apply(&mut self, message: ServerMessage) -> Result<bool, RenderError>;

    /// Resolves preferences as a client with these capabilities does.
    fn prefer(self, caps: TermCaps, visual: VisualConfig) -> LiveState;
}

impl Fixture for LiveState {
    fn apply(&mut self, message: ServerMessage) -> Result<bool, RenderError> {
        self.apply_at(message, start_of_time())
    }

    fn prefer(self, caps: TermCaps, visual: VisualConfig) -> LiveState {
        self.preferences(
            caps,
            visual,
            theme_for(visual.theme, caps),
            swatches_for(caps),
        )
    }
}

fn hello() -> ServerMessage {
    ServerMessage::Hello {
        protocol_version: VERSION,
        session: SessionId::new(7),
        tabs: vec![TabSummary {
            tab: TabId::new(1),
            title: "shell".into(),
            active: true,
        }],
        size: Size::new(80, 24),
    }
}

#[test]
fn an_unresolvable_term_is_an_attach_failure_with_the_capability_reason() {
    let err = AttachError::from(CapsError::TermDumb);
    assert!(matches!(err, AttachError::Capabilities(_)), "got {}", err.message());
    assert!(err.message().contains("set TERM"), "got: {}", err.message());
}

#[test]
fn a_live_state_replaces_workspace_status_on_its_own_projection_clock() {
    let mut state = live_state(
        Size::new(80, 24),
        SessionId::new(7),
        hello_tabs(),
        "C-b".to_owned(),
    );
    let initial = WorkspaceStatus {
        name: "agents".into(),
        clients: 1,
        effective_size: Size::new(80, 22),
    };
    assert!(
        state
            .apply(ServerMessage::WorkspaceStatus(initial.clone()))
            .expect("status applies")
    );
    assert_eq!(state.status.as_ref(), Some(&initial));
    assert!(
        !state
            .apply(ServerMessage::WorkspaceStatus(initial))
            .expect("a repeated status is harmless"),
        "an identical projection must not dirty the frame"
    );

    let replacement = WorkspaceStatus {
        name: "agents".into(),
        clients: 2,
        effective_size: Size::new(72, 18),
    };
    assert!(
        state
            .apply(ServerMessage::WorkspaceStatus(replacement.clone()))
            .expect("replacement status applies")
    );
    assert_eq!(state.status.as_ref(), Some(&replacement));
}

#[test]
fn a_message_about_nothing_drawn_dirties_no_frame() {
    let mut state = resize_state();
    let shown = state.frame(&[]).spans;
    for message in [
        ServerMessage::Damage {
            pane: PaneId::new(9),
            rows: vec![RowUpdate {
                row: 0,
                cells: vec![Cell::default(); 3],
            }],
        },
        ServerMessage::Bell(PaneId::new(1)),
        ServerMessage::Refused {
            reason: "full".to_owned(),
        },
        ServerMessage::ConfigReloaded { revision: 4 },
        ServerMessage::Detached,
        ServerMessage::Exit(0),
    ] {
        assert_eq!(state.apply(message), Ok(false));
        assert_eq!(state.frame(&[]).spans, shown);
    }
}

#[test]
fn client_local_status_discards_a_repository_answer_after_focus_changes() {
    let first = PaneId::new(1);
    let second = PaneId::new(2);
    let mut state = live_state(
        Size::new(40, 8),
        SessionId::new(1),
        hello_tabs(),
        "C-b".to_owned(),
    );
    state
        .apply(ServerMessage::Panes(vec![
            PaneInfo {
                pane: first,
                profile: "generic".to_owned(),
                name: "one".to_owned(),
                task: None,
                cwd: "/repo/one".to_owned(),
            },
            PaneInfo {
                pane: second,
                profile: "generic".to_owned(),
                name: "two".to_owned(),
                task: None,
                cwd: "/repo/two".to_owned(),
            },
        ]))
        .expect("pane metadata applies");
    let layout = |focused| LayoutSnapshot {
        tab: TabId::new(1),
        panes: vec![
            PaneRect {
                pane: first,
                x: 1,
                y: 1,
                size: Size::new(18, 4),
            },
            PaneRect {
                pane: second,
                x: 21,
                y: 1,
                size: Size::new(18, 4),
            },
        ],
        focused: Some(focused),
        zoomed: None,
    };

    state
        .apply(ServerMessage::Layout(layout(first)))
        .expect("first focus applies");
    assert_eq!(
        state.refresh_repository_target(),
        Some("/repo/one".to_owned())
    );
    state
        .apply(ServerMessage::Layout(layout(second)))
        .expect("second focus applies");
    assert_eq!(
        state.refresh_repository_target(),
        Some("/repo/two".to_owned())
    );

    let stale = RepositoryStatus {
        branch: Some("stale".to_owned()),
        changes: 9,
    };
    assert!(!state.apply_repository("/repo/one", Some(stale)));
    assert_eq!(
        state.local_status.repository,
        None,
        "the old pane's answer is omitted instead of shown for the new focus"
    );
}

#[test]
fn live_status_bar_draws_projected_and_client_local_values_without_placeholders() {
    let mut state = hinted_state(96, 2, "C-b");
    state
        .apply(ServerMessage::WorkspaceStatus(WorkspaceStatus {
            name: "agents".to_owned(),
            clients: 2,
            effective_size: Size::new(96, 6),
        }))
        .expect("workspace status applies");
    state.local_status.set_clock(Some("14:38".to_owned()));
    state.local_status.set_repository(Some(RepositoryStatus {
        branch: Some("feature/status".to_owned()),
        changes: 2,
    }));

    let row = status_text(&state);
    for field in [
        "s agents",
        ">1 shell",
        "0!",
        "git feature/status +2",
        "2 clients",
        "C-b",
        "14:38",
    ] {
        assert!(row.contains(field), "missing {field:?} in {row:?}");
    }
    assert!(
        !row.contains("session:"),
        "numeric placeholders are gone: {row:?}"
    );
}

#[test]
fn a_live_state_places_the_server_grid_below_attached_chrome() {
    let pane = PaneId::new(1);
    let mut state = live_state(
        Size::new(8, 5),
        SessionId::new(1),
        hello_tabs(),
        "C-b".to_owned(),
    );
    state
        .apply(ServerMessage::Layout(LayoutSnapshot {
            tab: TabId::new(1),
            panes: vec![PaneRect {
                pane,
                x: 1,
                y: 1,
                size: Size::new(6, 1),
            }],
            focused: Some(pane),
            zoomed: None,
        }))
        .expect("the layout applies");
    state
        .apply(ServerMessage::Panes(vec![PaneInfo {
            pane,
            profile: "generic".into(),
            name: "build".into(),
            task: Some("test it".into()),
            cwd: "/".into(),
        }]))
        .expect("the pane metadata applies");
    state
        .apply(ServerMessage::Attention(vec![PaneAttention {
            pane,
            state: AttentionState::NeedsInput,
            acknowledged: false,
        }]))
        .expect("the attention applies");
    state
        .apply(ServerMessage::Damage {
            pane,
            rows: vec![RowUpdate {
                row: 0,
                cells: vec![
                    Cell {
                        ch: 'a',
                        ..Cell::default()
                    };
                    6
                ],
            }],
        })
        .expect("the grid damage applies");

    let spans = state.spans(&[]);
    assert_eq!(spans[0].at, Point::new(0, 0), "the tab row is fixed");
    assert_eq!(
        spans[1].at,
        Point::new(0, 1),
        "the header is above the grid"
    );
    assert_eq!(
        spans[3].at,
        Point::new(1, 2),
        "the grid starts below chrome"
    );
    assert_eq!(spans[3].cells[0].ch, 'a');
    assert_eq!(spans[5].at, Point::new(0, 3), "the bottom edge is visible");
    assert_eq!(
        spans.last().map(|span| span.at),
        Some(Point::new(0, 4)),
        "the status row owns the last outer-terminal row"
    );
    assert_eq!(state.screen.hit(1, 2).pane(), Some(pane));
    assert_eq!(
        state.screen.hit(0, 2),
        MouseTarget::Chrome(ChromeTarget::Gutter)
    );
}

/// A live state showing `panes` panes on a `width`-wide terminal.
fn hinted_state(width: u16, panes: usize, prefix: &str) -> LiveState {
    let mut state = live_state(
        Size::new(width, 6),
        SessionId::new(1),
        hello_tabs(),
        prefix.to_owned(),
    );
    let cols = width / u16::try_from(panes).expect("a small pane count");
    let rects = (0..panes)
        .map(|index| {
            let index = u16::try_from(index).expect("a small pane count");
            PaneRect {
                pane: PaneId::new(u64::from(index) + 1),
                x: index * cols,
                y: 0,
                size: Size::new(cols, 2),
            }
        })
        .collect::<Vec<_>>();
    let focused = rects.first().map(|rect| rect.pane);
    state
        .apply(ServerMessage::Layout(LayoutSnapshot {
            tab: TabId::new(1),
            panes: rects,
            focused,
            zoomed: None,
        }))
        .expect("the layout applies");
    state
}

/// The text of the frame's status row.
fn status_text(state: &LiveState) -> String {
    state
        .spans(&[])
        .last()
        .expect("a status row")
        .cells
        .iter()
        .map(|cell| cell.ch)
        .collect()
}

/// The text of the frame's tab row.
fn tab_row_text(state: &LiveState) -> String {
    state
        .spans(&[])
        .first()
        .expect("a tab row")
        .cells
        .iter()
        .map(|cell| cell.ch)
        .collect()
}

#[test]
fn the_attached_tab_row_draws_the_daemon_projection_and_invents_nothing() {
    let mut state = hinted_state(60, 2, "C-b");

    let row = tab_row_text(&state);
    assert!(
        row.starts_with(">1 shell"),
        "no badge before a projection arrives: {row:?}"
    );
    assert!(
        row.contains("2 panes"),
        "the pane count is the layout this client drew: {row:?}"
    );
    assert!(
        !row.contains("client"),
        "an unprojected client count is omitted, never invented: {row:?}"
    );

    state
        .apply(ServerMessage::WorkspaceStatus(WorkspaceStatus {
            name: "agents".into(),
            clients: 3,
            effective_size: Size::new(60, 6),
        }))
        .expect("the projection applies");

    let row = tab_row_text(&state);
    assert!(
        row.starts_with(" agents >1 shell"),
        "the badge names the session the daemon projected: {row:?}"
    );
    assert!(
        row.contains("2 panes  3 clients"),
        "the client count is the daemon's, not a pane-cell guess: {row:?}"
    );
}

#[test]
fn a_one_pane_attached_frame_offers_the_configured_prefix_and_its_clues() {
    let state = hinted_state(60, 1, "M-a");
    let row = status_text(&state);
    assert!(
        row.contains("M-a split % stack \" help ?"),
        "the first frame must explain how to act: {row:?}"
    );
    assert!(
        !row.contains("C-b"),
        "the row must name the configured chord, not the default: {row:?}"
    );
}

#[test]
fn a_second_pane_returns_the_status_row_to_its_ordinary_summary() {
    let row = status_text(&hinted_state(60, 2, "C-b"));
    assert!(
        row.contains("C-b") && !row.contains("split %"),
        "past the first pane the clues yield their width back: {row:?}"
    );
}

#[test]
fn a_pending_prefix_is_drawn_distinctly_in_the_status_row() {
    let mut state = hinted_state(60, 2, "C-b");
    let settled = status_text(&state);
    state.prefix_pending = true;
    let pending = status_text(&state);
    assert!(!settled.contains("[C-b]"), "settled row: {settled:?}");
    assert!(
        pending.contains("[C-b] split % stack \" help ?"),
        "a held prefix says what the next key can be: {pending:?}"
    );
}

fn resize_state() -> LiveState {
    let mut state = live_state(
        Size::new(40, 10),
        SessionId::new(1),
        hello_tabs(),
        "C-b".to_owned(),
    );
    state
        .apply(ServerMessage::Layout(LayoutSnapshot {
            tab: TabId::new(1),
            panes: vec![
                PaneRect {
                    pane: PaneId::new(1),
                    x: 1,
                    y: 1,
                    size: Size::new(18, 6),
                },
                PaneRect {
                    pane: PaneId::new(2),
                    x: 21,
                    y: 1,
                    size: Size::new(18, 6),
                },
            ],
            focused: Some(PaneId::new(1)),
            zoomed: None,
        }))
        .expect("the split applies");
    state
}

#[test]
fn keyboard_resize_uses_the_focused_divider_and_an_edge_is_a_noop() {
    let now = start_of_time();
    let mut state = resize_state();
    assert_eq!(state.keyboard_resize(Side::Left, None, now), None);
    assert!(state.resize.is_none(), "an outer edge lights nothing");
    assert_eq!(
        state.keyboard_resize(Side::Right, Some((shared_edge(), Some(50))), now),
        Some(Action::ResizePane {
            pane: PaneId::new(1),
            dir: Direction::Horizontal,
            delta: 1,
        })
    );
    assert_eq!(state.resize.map(|resize| resize.share), Some(50));
}

#[test]
fn keyboard_and_mouse_resize_affordances_show_the_result_and_clear_at_their_boundary() {
    let now = start_of_time();
    let mut state = resize_state();
    let _ = state.keyboard_resize(Side::Right, Some((shared_edge(), Some(50))), now);
    state
        .apply_at(
            ServerMessage::Layout(LayoutSnapshot {
                tab: TabId::new(1),
                panes: vec![
                    PaneRect {
                        pane: PaneId::new(1),
                        x: 1,
                        y: 1,
                        size: Size::new(23, 6),
                    },
                    PaneRect {
                        pane: PaneId::new(2),
                        x: 26,
                        y: 1,
                        size: Size::new(13, 6),
                    },
                ],
                focused: Some(PaneId::new(1)),
                zoomed: None,
            }),
            now,
        )
        .expect("the resized layout applies");
    state.refresh_resize_ratio(Some(62), now);
    let points: Vec<Point> = (2..10)
        .flat_map(|row| [Point::new(24, row), Point::new(25, row)])
        .collect();
    let drawn: Vec<String> = state
        .frame(&points)
        .spans
        .iter()
        .map(|span| span.cells.iter().map(|cell| cell.ch).collect())
        .collect();
    assert!(drawn.iter().any(|row| row == "resize · ratio 0.62"));
    let spans = state.spans(&points);
    let lit = spans
        .iter()
        .filter(|span| {
            span.cells
                .as_slice()
                .first()
                .is_some_and(|cell| cell.ch == '│' && cell.attrs.contains(CellAttrs::bold()))
        })
        .collect::<Vec<_>>();
    assert!(!lit.is_empty(), "the changed divider must be lit");
    assert!(
        lit.iter()
            .all(|span| span.at.col == 24 || span.at.col == 25),
        "only the changed divider is lit: {lit:?}"
    );
    assert!(!state.tick_resize(Instant {
        nanos: now.plus(keyboard_resize_linger()).nanos - Duration::from_millis(1).nanos
    }));
    assert!(state.tick_resize(now.plus(keyboard_resize_linger())));
    assert!(state.resize.is_none());

    state.sync_mouse_resize(Some((shared_edge(), None)), now);
    assert!(state.resize.is_some());
    state.sync_mouse_resize(None, now);
    assert!(state.resize.is_none(), "mouse release ends the affordance");
}

#[test]
fn a_live_copy_state_layers_highlights_and_its_status_over_the_composed_frame() {
    let pane = PaneId::new(1);
    let mut state = live_state(
        Size::new(9, 5),
        SessionId::new(1),
        hello_tabs(),
        "C-b".to_owned(),
    );
    state
        .apply(ServerMessage::Layout(LayoutSnapshot {
            tab: TabId::new(1),
            panes: vec![PaneRect {
                pane,
                x: 1,
                y: 1,
                size: Size::new(7, 1),
            }],
            focused: Some(pane),
            zoomed: None,
        }))
        .expect("the layout applies");
    state
        .apply(ServerMessage::Damage {
            pane,
            rows: vec![RowUpdate {
                row: 0,
                cells: "copy th"
                    .chars()
                    .map(|ch| Cell {
                        ch,
                        ..Cell::default()
                    })
                    .collect(),
            }],
        })
        .expect("the grid damage applies");
    state
        .apply(ServerMessage::CopyMode(Some(CopyModeState {
            pane,
            viewport_top: 12,
            cursor: ScrollPoint::new(12, 5),
            selection: Some(CopySelection {
                anchor: ScrollPoint::new(12, 0),
                head: ScrollPoint::new(12, 3),
            }),
            query: None,
            matches: Vec::new(),
        })))
        .expect("copy state applies");

    let spans = state.spans(&[]);
    assert!(spans.iter().any(|span| {
        span.at == Point::new(1, 2)
            && span.cells.iter().map(|cell| cell.ch).collect::<String>() == "copy"
    }));
    assert_eq!(
        spans
            .last()
            .expect("copy mode replaces the status row")
            .cells
            .iter()
            .take(4)
            .map(|cell| cell.ch)
            .collect::<String>(),
        "COPY"
    );
}

#[test]
fn an_open_overlay_dims_the_composed_frame_and_keeps_its_keys_client_side() {
    let pane = PaneId::new(1);
    let mut state = live_state(
        Size::new(20, 6),
        SessionId::new(1),
        hello_tabs(),
        "C-b".to_owned(),
    );
    state
        .apply(ServerMessage::Layout(LayoutSnapshot {
            tab: TabId::new(1),
            panes: vec![PaneRect {
                pane,
                x: 0,
                y: 0,
                size: Size::new(20, 3),
            }],
            focused: Some(pane),
            zoomed: None,
        }))
        .expect("the layout applies");
    state
        .apply(ServerMessage::Damage {
            pane,
            rows: vec![RowUpdate {
                row: 0,
                cells: vec![
                    Cell {
                        ch: 'x',
                        ..Cell::default()
                    };
                    20
                ],
            }],
        })
        .expect("the grid damage applies");
    assert!(state.open_overlay(b"s", &default_keymap()));
    assert!(
        state.apply_overlay_keys(b"j").consumed(),
        "an overlay owns navigation"
    );

    let frame = state.frame(&[]);
    assert!(
        frame.spans.iter().any(|span| {
            span.cells
                .iter()
                .map(|cell| cell.ch)
                .collect::<String>()
                .starts_with("  sessions")
        }),
        "the switcher opens without inventing a current-session row"
    );
    assert!(
        frame.chrome.iter().rev().take(3).all(|chrome| *chrome),
        "the overlay is client chrome, never a pane span"
    );
    assert!(
        frame.spans.iter().any(|span| {
            span.at == Point::new(0, 2)
                && span
                    .cells
                    .first()
                    .is_some_and(|cell| cell.attrs.contains(CellAttrs::dim()))
        }),
        "the pane body remains visible beneath a dimmed backdrop"
    );
}

/// A one-pane live state with server-supplied identity for that pane, which
/// is what the details surface is allowed to draw from.
fn overlay_state(rows: u16, prefix: &str) -> LiveState {
    let pane = PaneId::new(1);
    let mut state = live_state(
        Size::new(40, rows),
        SessionId::new(1),
        hello_tabs(),
        prefix.to_owned(),
    );
    state
        .apply(ServerMessage::Layout(LayoutSnapshot {
            tab: TabId::new(1),
            panes: vec![PaneRect {
                pane,
                x: 1,
                y: 1,
                size: Size::new(38, rows.saturating_sub(4)),
            }],
            focused: Some(pane),
            zoomed: None,
        }))
        .expect("the layout applies");
    state
        .apply(ServerMessage::Panes(vec![PaneInfo {
            pane,
            profile: "generic".to_owned(),
            name: "shell".to_owned(),
            task: None,
            cwd: "/home/dev".to_owned(),
        }]))
        .expect("the identity applies");
    state
}

/// The milestone's routing change: `?` is the command palette and `i` is
/// still pane details, rather than both landing on details.
#[test]
fn the_prefix_key_opens_the_command_palette_and_details_keeps_its_own_key() {
    let keymap = default_keymap();
    let mut state = overlay_state(8, "C-b");

    assert!(state.open_overlay(b"?", &keymap));
    assert!(
        matches!(
            state.overlay.as_ref().map(Overlay::kind),
            Some(OverlayKind::Palette(_))
        ),
        "the palette key must no longer land on pane details"
    );
    assert!(
        state.apply_overlay_keys(b"\x1b").consumed(),
        "escape dismisses"
    );
    assert!(state.overlay.is_none());

    assert!(state.open_overlay(b"i", &keymap));
    assert!(matches!(
        state.overlay.as_ref().map(Overlay::kind),
        Some(OverlayKind::Details(_))
    ));
}

/// The palette is read from the client's live keymap, so the frame a user
/// actually sees names the chord they actually configured.
#[test]
fn the_open_command_palette_draws_the_configured_prefix_and_its_controls() {
    let mut keymap = default_keymap();
    keymap.set_prefix(chord("M-a"), "M-a".to_owned());
    let mut state = overlay_state(24, "M-a");
    assert!(state.open_overlay(b"?", &keymap));

    let drawn: Vec<String> = state
        .frame(&[])
        .spans
        .iter()
        .map(|span| span.cells.iter().map(|cell| cell.ch).collect())
        .collect();
    for expected in ["commands - prefix M-a", "split right", "detach", "add pane"] {
        assert!(
            drawn.iter().any(|row| row.contains(expected)),
            "the palette frame must show {expected:?}: {drawn:?}"
        );
    }
}

/// An open palette owns the keyboard *including ordinary text*: a query is
/// the one thing a user types into an overlay, and the byte that would have
/// reached a shell must become a filter instead.
#[test]
fn an_open_command_palette_consumes_typed_query_bytes_locally() {
    let keymap = default_keymap();
    let mut state = overlay_state(12, "C-b");
    assert!(state.open_overlay(b"?", &keymap));
    for key in [b"s".as_slice(), b"plit", b"\x1b[B", b"\x7f"] {
        assert!(
            state.apply_overlay_keys(key).consumed(),
            "the palette owns {key:?}"
        );
    }
    let Some(OverlayKind::Palette(palette)) = state.overlay.as_ref().map(Overlay::kind) else {
        panic!("a typed query leaves the palette open");
    };
    assert_eq!(palette.query(), "spli");

    // Enter runs the selected command, which leaves as a typed action —
    // and the row the arrow moved to is still the row the backspace left
    // the cursor on, because the selection follows the command.
    assert_eq!(
        state.apply_overlay_keys(b"\r"),
        OverlayKeys::Command(Action::SplitHorizontal)
    );
    assert!(state.overlay.is_none());
}

/// A palette row naming a client surface opens it in place rather than
/// crossing the wire, so both routes to the launcher end up in one surface.
#[test]
fn confirming_a_client_row_swaps_the_command_palette_for_that_surface() {
    let keymap = default_keymap();
    let mut state = overlay_state(16, "C-b").profiles(built_in_profiles());
    assert!(state.open_overlay(b"?", &keymap));
    assert!(state.apply_overlay_keys(b"add pane").consumed());
    assert_eq!(state.apply_overlay_keys(b"\r"), OverlayKeys::Consumed);
    assert!(
        matches!(
            state.overlay.as_ref().map(Overlay::kind),
            Some(OverlayKind::Launcher(_))
        ),
        "a client surface never reaches the wire"
    );
}

fn catalog_entry(
    path: &str,
    name: &str,
    tabs: u16,
    panes: u16,
    clients: u16,
) -> CatalogEntry {
    CatalogEntry {
        socket: socket(path),
        summary: SessionSummary {
            name: name.to_owned(),
            tabs,
            panes,
            clients,
            uptime_secs: 10,
        },
    }
}

#[test]
fn session_switcher_uses_verified_catalog_and_returns_the_selected_socket() {
    let current = socket("/run/cloo/main.sock");
    let mut state = overlay_state(10, "C-b");
    assert!(state.refresh_sessions(
        vec![
            catalog_entry("/run/cloo/main.sock", "main", 2, 3, 1),
            catalog_entry("/run/cloo/review.sock", "review", 1, 1, 0),
        ],
        &current,
    ));
    assert!(state.open_overlay(b"s", &default_keymap()));

    let drawn = frame_text(&state);
    for truthful in ["main attached", "2 tabs", "3 panes", "review"] {
        assert!(
            drawn.iter().any(|row| row.contains(truthful)),
            "the verified catalog must draw {truthful:?}: {drawn:?}"
        );
    }
    assert!(state.apply_overlay_keys(b"j").consumed());
    assert_eq!(
        state.apply_overlay_keys(b"\r"),
        OverlayKeys::SwitchSession(socket("/run/cloo/review.sock"))
    );
    assert!(
        state.overlay.is_some(),
        "the current attachment keeps the switcher until the target accepts"
    );
}

#[test]
fn session_switcher_refresh_drops_a_disappeared_daemon_and_keeps_a_live_selection() {
    let current = socket("/run/cloo/main.sock");
    let main = || catalog_entry("/run/cloo/main.sock", "main", 1, 1, 1);
    let review = catalog_entry("/run/cloo/review.sock", "review", 1, 1, 0);
    let mut state = overlay_state(10, "C-b");
    state.refresh_sessions(vec![main(), review], &current);
    assert!(state.open_overlay(b"s", &default_keymap()));
    assert!(state.apply_overlay_keys(b"j").consumed());

    assert!(state.refresh_sessions(vec![main()], &current));
    let Some(OverlayKind::Sessions(entries)) = state.overlay.as_ref().map(Overlay::kind) else {
        panic!("the switcher stays open while its catalog refreshes");
    };
    assert_eq!(entries.len(), 1);
    assert_eq!(entries[0].socket(), &current);
    assert_eq!(state.overlay.as_ref().map(Overlay::selection), Some(0));
}

/// The launcher is the client's own surface over the client's own profile
/// list, and confirming a row is the one overlay outcome that leaves it.
#[test]
fn the_add_pane_key_opens_a_launcher_over_the_configured_profiles() {
    let keymap = default_keymap();
    let mut state = overlay_state(12, "C-b").profiles(built_in_profiles());

    assert!(state.open_overlay(b"a", &keymap));
    let Some(OverlayKind::Launcher(entries)) = state.overlay.as_ref().map(Overlay::kind) else {
        panic!("the add-pane key opens the profile launcher");
    };
    assert_eq!(
        entries
            .iter()
            .map(|entry| entry.profile())
            .collect::<Vec<_>>(),
        ["generic", "codex", "cursor"],
        "the launcher lists exactly the profiles this client resolved"
    );

    let OverlayKeys::Launch(request) = state.apply_overlay_keys(b"\r") else {
        panic!("confirming a launcher row is a launch the caller must send");
    };
    assert_eq!(request.profile(), "generic");
    assert!(
        state.overlay.is_none(),
        "the launcher closes on the confirmation that produced the launch"
    );
}

/// A client with nothing configured still opens a launcher, and it confirms
/// to nothing — the surface must never invent a profile to offer.
#[test]
fn a_launcher_with_no_configured_profile_launches_nothing() {
    let mut state = overlay_state(12, "C-b");
    assert!(state.open_overlay(b"a", &default_keymap()));
    assert_eq!(
        state.apply_overlay_keys(b"\r"),
        OverlayKeys::Consumed,
        "an empty launcher consumes the confirmation without naming a profile"
    );
}

/// Escape is the other half: the overlay closes, nothing is sent, and no
/// notice claims a launch that never happened.
#[test]
fn dismissing_the_launcher_leaves_the_workspace_untouched() {
    let mut state = overlay_state(12, "C-b").profiles(built_in_profiles());
    assert!(state.open_overlay(b"a", &default_keymap()));
    assert_eq!(state.apply_overlay_keys(b"\x1b"), OverlayKeys::Consumed);
    assert!(state.overlay.is_none());
    assert!(
        state.launch.is_none(),
        "a dismissal must not leave a launch notice behind"
    );
}

// -- the attention queue -------------------------------------------------

/// Two panes with server identity, so the queue has real rows to list and a
/// real `PaneId` to name in the action a row produces.
fn attention_queue_state() -> LiveState {
    let mut state = live_state(
        Size::new(40, 14),
        SessionId::new(1),
        hello_tabs(),
        "C-b".to_owned(),
    );
    let panes = [PaneId::new(1), PaneId::new(2), PaneId::new(3)];
    state
        .apply(ServerMessage::Layout(LayoutSnapshot {
            tab: TabId::new(1),
            panes: panes
                .iter()
                .enumerate()
                .map(|(index, pane)| PaneRect {
                    pane: *pane,
                    x: 1,
                    y: u16::try_from(index).unwrap_or(0) * 4 + 1,
                    size: Size::new(38, 2),
                })
                .collect(),
            focused: Some(panes[0]),
            zoomed: None,
        }))
        .expect("the layout applies");
    state
        .apply(ServerMessage::Panes(
            [
                (panes[0], "shell"),
                (panes[1], "cursor"),
                (panes[2], "build"),
            ]
            .into_iter()
            .map(|(pane, name)| PaneInfo {
                pane,
                profile: "generic".to_owned(),
                name: name.to_owned(),
                task: None,
                cwd: "/home/dev".to_owned(),
            })
            .collect(),
        ))
        .expect("the pane identity applies");
    state
        .apply(attention_projection(&[
            // Progress is not something a person is asked to act on, so this
            // pane must never reach the queue.
            (panes[0], AttentionState::Working, false),
            (panes[1], AttentionState::NeedsInput, false),
            (panes[2], AttentionState::Failed, false),
        ]))
        .expect("the attention applies");
    state
}

/// One `ServerMessage::Attention`, which is the only thing that ever changes
/// what the queue holds.
fn attention_projection(states: &[(PaneId, AttentionState, bool)]) -> ServerMessage {
    ServerMessage::Attention(
        states
            .iter()
            .map(|(pane, state, acknowledged)| PaneAttention {
                pane: *pane,
                state: *state,
                acknowledged: *acknowledged,
            })
            .collect(),
    )
}

/// The rows an open queue is listing, as `(pane, title, state)`.
fn attention_queue_rows(state: &LiveState) -> Vec<(PaneId, String, Attention)> {
    let Some(OverlayKind::Attention(entries)) = state.overlay.as_ref().map(Overlay::kind)
    else {
        panic!("the attention queue is open");
    };
    entries
        .iter()
        .map(|entry| (entry.pane, entry.title.clone(), entry.attention))
        .collect()
}

/// The surface is built from the server's own projection: one row per pane
/// with a live actionable state, newest first, and nothing else at all.
#[test]
fn the_attention_key_opens_an_attention_queue_of_the_live_projection() {
    let mut state = attention_queue_state();
    assert!(state.open_overlay(b"!", &default_keymap()));
    assert_eq!(
        attention_queue_rows(&state),
        vec![
            (PaneId::new(3), "build".to_owned(), Attention::Failed),
            (PaneId::new(2), "cursor".to_owned(), Attention::NeedsInput),
        ],
        "a working pane is progress, not a queue row"
    );
}

/// The overlay owns every key it understands, and the two it acts on leave
/// as *typed session actions naming a pane* — never as bytes for a child.
#[test]
fn an_open_attention_queue_produces_only_typed_pane_actions() {
    let mut state = attention_queue_state();
    assert!(state.open_overlay(b"!", &default_keymap()));

    assert_eq!(state.apply_overlay_keys(b"j"), OverlayKeys::Consumed);
    assert_eq!(
        state.apply_overlay_keys(b" "),
        OverlayKeys::Command(Action::AcknowledgeAttention(PaneId::new(2))),
        "acknowledging names the pane the cursor is on"
    );
    assert!(
        state.overlay.is_some(),
        "the queue stays up: the row leaves when the server says it has"
    );
    assert_eq!(state.apply_overlay_keys(b"k"), OverlayKeys::Consumed);
    assert_eq!(
        state.apply_overlay_keys(b"\r"),
        OverlayKeys::Command(Action::FocusPane(PaneId::new(3)))
    );
    assert!(
        state.overlay.is_none(),
        "focusing the pane a row names is what the queue is for, so it closes"
    );
}

/// The single-owner rule made visible: acknowledgment is session state, so
/// the row survives the keypress and leaves on the projection that says the
/// server applied it.
#[test]
fn an_acknowledged_attention_queue_row_leaves_on_the_server_projection() {
    let mut state = attention_queue_state();
    assert!(state.open_overlay(b"!", &default_keymap()));
    assert_eq!(
        state.apply_overlay_keys(b"a"),
        OverlayKeys::Command(Action::AcknowledgeAttention(PaneId::new(3)))
    );
    assert_eq!(
        attention_queue_rows(&state).len(),
        2,
        "a client that hid the row itself would be a second source of truth"
    );

    state
        .apply(attention_projection(&[
            (PaneId::new(1), AttentionState::Working, false),
            (PaneId::new(2), AttentionState::NeedsInput, false),
            (PaneId::new(3), AttentionState::Failed, true),
        ]))
        .expect("the acknowledgment comes back as a projection");
    assert_eq!(
        attention_queue_rows(&state),
        vec![(PaneId::new(2), "cursor".to_owned(), Attention::NeedsInput)],
        "the open queue follows the projection while it is open"
    );
    assert_eq!(
        state.apply_overlay_keys(b"\r"),
        OverlayKeys::Command(Action::FocusPane(PaneId::new(2))),
        "the cursor lands on the row that is left, not on a stale position"
    );
}

/// The rest of the overlay contract, on the live surface: it is drawn as
/// client chrome over a dimmed frame, and Escape always closes it.
#[test]
fn an_open_attention_queue_is_dimmed_chrome_and_escapes_cleanly() {
    let mut state = attention_queue_state();
    assert!(state.open_overlay(b"!", &default_keymap()));
    let frame = state.frame(&[]);
    assert!(
        frame.spans.iter().any(|span| {
            span.cells
                .iter()
                .map(|cell| cell.ch)
                .collect::<String>()
                .starts_with("  attention 1/2")
        }),
        "the queue draws through the shared overlay treatment"
    );
    assert!(
        frame.chrome.iter().rev().take(4).all(|chrome| *chrome),
        "an overlay is client chrome, never a pane span"
    );
    assert_eq!(state.apply_overlay_keys(b"\x1b"), OverlayKeys::Consumed);
    assert!(state.overlay.is_none());
}

/// A workspace with nothing waiting still answers the key: an empty queue is
/// a legible answer, and a key that appeared to do nothing is the worse one.
#[test]
fn an_empty_attention_queue_opens_and_acts_on_nothing() {
    let mut state = overlay_state(12, "C-b");
    assert!(state.open_overlay(b"!", &default_keymap()));
    assert!(attention_queue_rows(&state).is_empty());
    for key in [b"j".as_slice(), b"k", b"a", b"\r"] {
        assert_eq!(
            state.apply_overlay_keys(key),
            OverlayKeys::Consumed,
            "{key:?} must name no pane at all"
        );
    }
    assert!(state.overlay.is_some());
}

// -- the live toast stack ------------------------------------------------

/// A terminal that negotiated 24-bit colour.
fn truecolor_caps() -> TermCaps {
    TermCaps {
        truecolor: true,
        ..TermCaps::default()
    }
}

/// A nested workspace: two stacked panes beside a tall one, which is the
/// geometry card 03 draws and the one a floating notice has to survive.
///
/// `cols`/`rows` are the outer terminal, so a narrow frame is the same
/// fixture with a different size.
fn nested_toast_state(outer: Size, caps: TermCaps) -> LiveState {
    let panes = [PaneId::new(1), PaneId::new(2), PaneId::new(3)];
    let split = outer.cols / 2;
    let body = outer.rows.saturating_sub(FIXED_CHROME_ROWS);
    let mut state = live_state(outer, SessionId::new(1), hello_tabs(), "C-b".to_owned())
        .prefer(caps, VisualConfig::defaults());
    state
        .apply(ServerMessage::Layout(LayoutSnapshot {
            tab: TabId::new(1),
            panes: vec![
                PaneRect {
                    pane: panes[0],
                    x: 0,
                    y: 0,
                    size: Size::new(split, body),
                },
                PaneRect {
                    pane: panes[1],
                    x: split,
                    y: 0,
                    size: Size::new(outer.cols - split, body / 2),
                },
                PaneRect {
                    pane: panes[2],
                    x: split,
                    y: body / 2,
                    size: Size::new(outer.cols - split, body - body / 2),
                },
            ],
            focused: Some(panes[0]),
            zoomed: None,
        }))
        .expect("the nested layout applies");
    state
        .apply(ServerMessage::Panes(
            [
                (panes[0], "shell"),
                (panes[1], "cursor"),
                (panes[2], "build"),
            ]
            .into_iter()
            .map(|(pane, name)| PaneInfo {
                pane,
                profile: "generic".to_owned(),
                name: name.to_owned(),
                task: None,
                cwd: "/home/dev".to_owned(),
            })
            .collect(),
        ))
        .expect("the pane identity applies");
    state
}

/// The toasts showing, oldest first, as `(pane index, title, state, repeats)`.
fn toast_stack(state: &LiveState) -> Vec<(u16, String, Attention, u32)> {
    state
        .toasts
        .toasts()
        .iter()
        .map(|toast| {
            (
                toast.index,
                toast.title.clone(),
                toast.attention,
                toast.repeats,
            )
        })
        .collect()
}

/// The text of every span in a composed frame.
fn frame_text(state: &LiveState) -> Vec<String> {
    state
        .frame(&[])
        .spans
        .iter()
        .map(|span| span.cells.iter().map(|cell| cell.ch).collect())
        .collect()
}

/// A new actionable state is the event; the wire's repeated *state* is not.
#[test]
fn a_new_actionable_attention_event_raises_one_toast_and_repeats_coalesce() {
    let now = start_of_time();
    let mut state = nested_toast_state(Size::new(60, 14), truecolor_caps());
    state
        .apply_at(
            attention_projection(&[
                // Progress is not something a person is asked to act on.
                (PaneId::new(1), AttentionState::Working, false),
                (PaneId::new(2), AttentionState::NeedsInput, false),
            ]),
            now,
        )
        .expect("the attention applies");
    assert_eq!(
        toast_stack(&state),
        vec![(2, "cursor".to_owned(), Attention::NeedsInput, 1)],
        "one actionable event, one notice"
    );

    // A daemon may resend an unchanged projection at any time; that is not a
    // second event and must not touch the count.
    state
        .apply_at(
            attention_projection(&[
                (PaneId::new(1), AttentionState::Working, false),
                (PaneId::new(2), AttentionState::NeedsInput, false),
            ]),
            now,
        )
        .expect("the resend applies");
    assert_eq!(toast_stack(&state)[0].3, 1, "a resend is not a repeat");

    // The pane genuinely raising it again is, and it coalesces.
    state
        .apply_at(
            attention_projection(&[(PaneId::new(2), AttentionState::Quiet, false)]),
            now,
        )
        .expect("the lull applies");
    state
        .apply_at(
            attention_projection(&[(PaneId::new(2), AttentionState::NeedsInput, false)]),
            now,
        )
        .expect("the second event applies");
    assert_eq!(
        toast_stack(&state),
        vec![(2, "cursor".to_owned(), Attention::NeedsInput, 2)],
        "a repeat is one notice with a count, never two"
    );

    // A changed state refreshes the same notice rather than stacking one.
    state
        .apply_at(
            attention_projection(&[(PaneId::new(2), AttentionState::Failed, false)]),
            now,
        )
        .expect("the changed state applies");
    assert_eq!(
        toast_stack(&state),
        vec![(2, "cursor".to_owned(), Attention::Failed, 3)]
    );
}

/// The other half of the diff: an acknowledgment takes the notice away at
/// once, while a pane merely settling down leaves it to its own deadline.
#[test]
fn an_acknowledged_pane_takes_its_toast_away_and_a_settled_one_does_not() {
    let now = start_of_time();
    let mut state = nested_toast_state(Size::new(60, 14), truecolor_caps());
    state
        .apply_at(
            attention_projection(&[
                (PaneId::new(2), AttentionState::NeedsInput, false),
                (PaneId::new(3), AttentionState::Failed, false),
            ]),
            now,
        )
        .expect("the attention applies");
    assert_eq!(state.toasts.len(), 2);

    state
        .apply_at(
            attention_projection(&[
                // Acknowledged in another client, or through the queue.
                (PaneId::new(2), AttentionState::NeedsInput, true),
                (PaneId::new(3), AttentionState::Quiet, false),
            ]),
            now,
        )
        .expect("the projection applies");
    assert_eq!(
        toast_stack(&state),
        vec![(3, "build".to_owned(), Attention::Failed, 1)],
        "an acknowledged event is gone; a finished one is still worth reading"
    );

    // The pane closing is the other thing that retires a notice, because a
    // position that no longer exists names nothing.
    state
        .apply(ServerMessage::Panes(vec![PaneInfo {
            pane: PaneId::new(1),
            profile: "generic".to_owned(),
            name: "shell".to_owned(),
            task: None,
            cwd: "/home/dev".to_owned(),
        }]))
        .expect("the closes apply");
    assert!(state.toasts.is_empty());
}

/// Bounded in both axes: capacity caps the stack, and every notice leaves on
/// its own deadline rather than sitting over the workspace.
#[test]
fn a_toast_stack_is_bounded_and_clears_itself_on_the_render_clock() {
    let now = start_of_time();
    let mut state = nested_toast_state(Size::new(60, 14), truecolor_caps());
    state
        .apply(ServerMessage::Panes(
            (1..=4)
                .map(|n| PaneInfo {
                    pane: PaneId::new(n),
                    profile: "generic".to_owned(),
                    name: format!("pane{n}"),
                    task: None,
                    cwd: "/home/dev".to_owned(),
                })
                .collect(),
        ))
        .expect("a fourth pane applies");
    state
        .apply_at(
            attention_projection(
                &(1..=4)
                    .map(|n| (PaneId::new(n), AttentionState::NeedsInput, false))
                    .collect::<Vec<_>>(),
            ),
            now,
        )
        .expect("four actionable events apply");
    assert_eq!(state.toasts.len(), TOAST_CAPACITY, "a burst never grows");
    assert_eq!(
        toast_stack(&state)
            .iter()
            .map(|toast| toast.0)
            .collect::<Vec<_>>(),
        vec![2, 3, 4],
        "the oldest is the one evicted"
    );
    let raised = frame_text(&state);
    assert!(
        raised.iter().any(|row| row == "pane4 ! needs input"),
        "a raised notice reaches the frame as its own floating span: {raised:?}"
    );

    assert!(
        !state.tick_toasts(now),
        "a notice inside its lifetime asks for no repaint"
    );
    assert!(
        state.tick_toasts(now.plus(toast_lifetime())),
        "the deadline passing changes the frame"
    );
    assert!(state.toasts.is_empty());
    assert!(state.toast_spans().is_empty());
    assert!(
        !frame_text(&state)
            .iter()
            .any(|row| row == "pane4 ! needs input"),
        "an expired notice leaves the frame with it"
    );
}

/// The rule the frame cap exists for, applied to notices: a pane's output
/// raises nothing and animates nothing.
#[test]
fn a_toast_never_rides_a_panes_output_clock() {
    let now = start_of_time();
    let mut state = nested_toast_state(Size::new(60, 14), truecolor_caps());
    state
        .apply_at(
            attention_projection(&[(PaneId::new(2), AttentionState::NeedsInput, false)]),
            now,
        )
        .expect("the attention applies");
    let raised = toast_stack(&state);

    for _ in 0..500 {
        state
            .apply_at(
                ServerMessage::Damage {
                    pane: PaneId::new(1),
                    rows: vec![RowUpdate {
                        row: 0,
                        cells: vec![Cell::default(); 30],
                    }],
                },
                now,
            )
            .expect("the damage applies");
    }
    assert_eq!(
        toast_stack(&state),
        raised,
        "pane output is not an attention event"
    );

    // And the entrance advances at most once per frame budget however often
    // the client is asked to draw.
    let mut frames = 0;
    for n in 0..1000 {
        if state.tick_toasts(now.plus(Duration::from_micros(n * 200))) {
            frames += 1;
        }
    }
    assert!(
        frames <= usize::from(MOTION_STEPS),
        "{frames} frames for one entrance"
    );
}

/// Card 03's floating stack: upper-right, inside the two always-on chrome
/// rows, and never on the line the focused harness is being typed into.
#[test]
fn a_nested_live_frame_stacks_toasts_in_the_upper_right_safe_area() {
    let now = start_of_time();
    let outer = Size::new(60, 14);
    let mut state = nested_toast_state(outer, truecolor_caps());
    state
        .apply(ServerMessage::CursorMoved {
            pane: PaneId::new(1),
            pos: Point::new(0, 0),
            shape: CursorShape::Block,
            visible: true,
        })
        .expect("the cursor applies");
    let cursor = state.cursor().expect("the focused pane has a cursor");
    state
        .apply_at(
            attention_projection(&[
                (PaneId::new(2), AttentionState::NeedsInput, false),
                (PaneId::new(3), AttentionState::Failed, false),
            ]),
            now,
        )
        .expect("the attention applies");

    let spans = state.toast_spans();
    assert_eq!(spans.len(), 2, "both notices are placed");
    for span in &spans {
        let len = u16::try_from(span.cells.len()).expect("a short notice");
        assert!(span.at.row > 0, "the tab row is never covered");
        assert!(
            span.at.row < outer.rows - 1,
            "neither is the status row: {span:?}"
        );
        assert_ne!(
            span.at.row, cursor.pos.row,
            "a notice never covers the focused input row"
        );
        assert_eq!(
            span.at.col + len + TOAST_MARGIN,
            outer.cols,
            "the stack floats against the right edge"
        );
    }

    let frame = state.frame(&[]);
    let toasts = frame.chrome.len() - spans.len();
    assert!(
        frame.chrome[toasts..].iter().all(|chrome| *chrome),
        "a notice floating over a pane is still client chrome, never pane content"
    );
}

/// The 16-colour fallback says the same thing, and neither palette gives the
/// stack a keyboard: a notice owns no keys, so input still reaches the pane.
#[test]
fn stacked_toasts_degrade_to_sixteen_colours_and_leak_no_input_to_a_pane() {
    let now = start_of_time();
    let raise = || {
        attention_projection(&[
            (PaneId::new(2), AttentionState::NeedsInput, false),
            (PaneId::new(3), AttentionState::Failed, false),
        ])
    };
    let mut truecolor = nested_toast_state(Size::new(60, 14), truecolor_caps());
    truecolor
        .apply_at(raise(), now)
        .expect("the attention applies");
    let mut ansi = nested_toast_state(Size::new(60, 14), TermCaps::default());
    ansi.apply_at(raise(), now).expect("the attention applies");

    assert_eq!(
        ansi.toast_spans()
            .iter()
            .map(|span| span.cells.iter().map(|cell| cell.ch).collect::<String>())
            .collect::<Vec<_>>(),
        truecolor
            .toast_spans()
            .iter()
            .map(|span| span.cells.iter().map(|cell| cell.ch).collect::<String>())
            .collect::<Vec<_>>(),
        "glyph and label never depend on the palette"
    );
    assert!(
        ansi.toast_spans()[0]
            .cells
            .iter()
            .any(|cell| matches!(cell.fg, Color::Indexed(_))),
        "a 16-colour terminal gets indexed colour, not invented truecolour"
    );

    for keys in [b"j".as_slice(), b"\r", b"\x1b", b"a"] {
        assert_eq!(
            ansi.apply_overlay_keys(keys),
            OverlayKeys::Ignored,
            "{keys:?} belongs to the pane: a toast has no keyboard"
        );
    }
    assert!(ansi.overlay.is_none());
}

/// The client tracks its own request rather than reading a grid: the pane it
/// asked for arriving clears the notice, and silence past the deadline turns
/// it into a refusal the status row says out loud.
#[test]
fn a_launch_the_workspace_never_makes_becomes_a_visible_refusal() {
    let mut state = overlay_state(12, "C-b").profiles(built_in_profiles());
    assert!(state.open_overlay(b"a", &default_keymap()));
    let OverlayKeys::Launch(request) = state.apply_overlay_keys(b"\r") else {
        panic!("the first row confirms to a launch");
    };
    let sent = start_of_time();
    state.sent_launch(&request, sent);

    assert!(
        !state.tick_launch(sent),
        "a launch still inside its deadline is not a refusal"
    );
    assert!(
        state.tick_launch(sent.plus(launch_deadline())),
        "the deadline passing changes what the notice says"
    );
    let notice = state.launch.as_ref().expect("the refusal is still showing");
    assert!(notice.refused());
    assert_eq!(notice.text(), "generic did not start");
    let drawn: Vec<String> = state
        .frame(&[])
        .spans
        .iter()
        .map(|span| span.cells.iter().map(|cell| cell.ch).collect())
        .collect();
    assert!(
        drawn
            .iter()
            .any(|row| row.contains("generic did not start")),
        "the refusal must reach the frame: {drawn:?}"
    );

    // And it does not stay forever: the linger is what keeps a notice from
    // covering a harness the user is typing into.
    assert!(
        state.tick_launch(
            sent.plus(launch_deadline()).plus(notice_linger())
        )
    );
    assert!(state.launch.is_none());
}

/// The other outcome: a *new* pane carrying the profile is the launch
/// answering for itself, while a pane that was already there is not.
#[test]
fn only_a_pane_the_client_had_not_seen_settles_its_own_launch() {
    let mut state = overlay_state(12, "C-b").profiles(built_in_profiles());
    assert!(state.open_overlay(b"a", &default_keymap()));
    let OverlayKeys::Launch(request) = state.apply_overlay_keys(b"\r") else {
        panic!("the first row confirms to a launch");
    };
    // `overlay_state` already cached pane 1 as a `generic` pane, so a
    // resend of that same list must not be read as the launch arriving.
    state.sent_launch(&request, start_of_time());
    state
        .apply(ServerMessage::Panes(vec![launched(PaneId::new(1))]))
        .expect("the identity applies");
    assert!(
        state.launch.is_some(),
        "a pane the client already knew about cannot answer for a new launch"
    );

    state
        .apply(ServerMessage::Panes(vec![
            launched(PaneId::new(1)),
            launched(PaneId::new(2)),
        ]))
        .expect("the identity applies");
    assert!(
        state.launch.is_none(),
        "the pane the launch asked for arriving retires the notice"
    );
}

#[test]
fn a_fresh_client_keeps_every_resolved_visual_preference() {
    let visual = VisualConfig {
        theme: ThemeChoice::Named(ThemeName::Nord),
        dim_unfocused: false,
        status: StatusMode::Powerline,
        motion: false,
        reduce_motion: false,
    };
    let caps = TermCaps {
        truecolor: true,
        ..TermCaps::default()
    };
    let state = live_state(
        Size::new(40, 8),
        SessionId::new(1),
        hello_tabs(),
        "C-b".to_owned(),
    )
    .prefer(caps, visual);

    assert_eq!(state.visual, visual);
    assert_eq!(state.theme, theme_for(visual.theme, caps));
    assert!(!state.chrome_options().dim_unfocused);
    assert_eq!(state.visual.status, StatusMode::Powerline);
    assert_eq!(state.motion_settings(), MotionSettings::reduced());
}

#[test]
fn rejected_and_duplicate_reload_revisions_preserve_the_previous_preferences() {
    let caps = TermCaps {
        truecolor: true,
        ..TermCaps::default()
    };
    let initial = VisualConfig {
        theme: ThemeChoice::Named(ThemeName::Night),
        ..VisualConfig::defaults()
    };
    let mut state = live_state(
        Size::new(40, 8),
        SessionId::new(1),
        hello_tabs(),
        "C-b".to_owned(),
    )
    .prefer(caps, initial);

    assert!(!state.reload_visual(1, None));
    assert_eq!(state.visual, initial);
    assert_eq!(state.theme, theme_for(initial.theme, caps));
    assert!(
        !state.reload_visual(
            1,
            Some((VisualConfig::defaults(), theme_for(VisualConfig::defaults().theme, caps)))
        ),
        "fixing a file after a rejected revision needs a newer daemon revision"
    );
    assert_eq!(state.visual, initial);
}

#[test]
fn a_new_valid_revision_replaces_visual_preferences_as_one_value() {
    let caps = TermCaps {
        truecolor: true,
        ..TermCaps::default()
    };
    let mut state = live_state(
        Size::new(40, 8),
        SessionId::new(1),
        hello_tabs(),
        "C-b".to_owned(),
    )
    .prefer(caps, VisualConfig::defaults());
    let replacement = VisualConfig {
        theme: ThemeChoice::Terminal,
        dim_unfocused: false,
        status: StatusMode::Powerline,
        motion: true,
        reduce_motion: true,
    };

    assert!(state.reload_visual(
        7,
        Some((replacement, theme_for(replacement.theme, caps)))
    ));
    assert_eq!(state.visual, replacement);
    assert_eq!(state.theme, theme_for(ThemeChoice::Terminal, caps));
    assert!(!state.chrome_options().dim_unfocused);
    assert_eq!(state.motion_settings(), MotionSettings::reduced());
    assert_eq!(state.config_revision, 7);
}

#[test]
fn two_clients_can_resolve_different_themes_for_one_session() {
    let caps = TermCaps {
        truecolor: true,
        ..TermCaps::default()
    };
    let session = SessionId::new(7);
    let storm = live_state(Size::new(40, 8), session, hello_tabs(), "C-b".to_owned())
        .prefer(caps, VisualConfig::defaults());
    let nord_visual = VisualConfig {
        theme: ThemeChoice::Named(ThemeName::Nord),
        ..VisualConfig::defaults()
    };
    let nord = live_state(Size::new(40, 8), session, hello_tabs(), "C-b".to_owned())
        .prefer(caps, nord_visual);

    assert_eq!(storm.tabs, nord.tabs);
    assert_ne!(storm.theme, nord.theme);
    assert_eq!(storm.visual.theme.as_str(), "storm");
    assert_eq!(nord.visual.theme.as_str(), "nord");
}

/// One `generic` pane as the server would report it.
fn launched(pane: PaneId) -> PaneInfo {
    PaneInfo {
        pane,
        profile: "generic".to_owned(),
        name: "shell".to_owned(),
        task: None,
        cwd: "/home/dev".to_owned(),
    }
}

fn hello_tabs() -> Vec<TabSummary> {
    vec![TabSummary {
        tab: TabId::new(1),
        title: "shell".into(),
        active: true,
    }]
}

#[test]
fn a_hello_completes_the_attach() {
    let request = attach_request(VERSION, Size::new(100, 30), TermCaps::default(), None);
    assert!(
        matches!(request, ClientMessage::Attach { .. }),
        "the first frame must be an attach, got {request:?}"
    );
    let attached = handshake(Some(hello()), VERSION).expect("a matching hello attaches");

    assert_eq!(attached.session(), SessionId::new(7));
    assert_eq!(attached.size(), Size::new(80, 24));
    assert_eq!(attached.tabs().len(), 1);
}

#[test]
fn session_catalog_inspection_sends_only_the_versioned_read_only_request() {
    assert_eq!(
        inspect_request(VERSION),
        ClientMessage::InspectSession {
            protocol_version: VERSION,
        },
        "inspection must carry no size, capabilities, or attachment"
    );
    let summary = inspect_handshake(Some(ServerMessage::SessionSummary(SessionSummary {
        name: "agents".to_owned(),
        tabs: 2,
        panes: 4,
        clients: 1,
        uptime_secs: 9,
    })))
    .expect("a summary completes inspection");
    assert_eq!(summary.name, "agents");
    assert_eq!((summary.tabs, summary.panes, summary.clients), (2, 4, 1));
}

#[test]
fn session_catalog_inspection_rejects_attach_and_grid_replies() {
    for reply in [
        hello(),
        ServerMessage::Damage {
            pane: PaneId::new(1),
            rows: Vec::new(),
        },
    ] {
        let err = inspect_handshake(Some(reply))
            .expect_err("inspection must never become an attach or grid reader");
        assert!(
            matches!(err, InspectError::UnexpectedReply),
            "got {}",
            err.message()
        );
    }
}

#[test]
fn an_inspection_says_why_it_ended() {
    let refused = inspect_handshake(Some(ServerMessage::Refused {
        reason: "version mismatch".into(),
    }))
    .expect_err("a refusal is no summary");
    assert!(refused.message().contains("version mismatch"));
    assert_eq!(inspect_handshake(None), Err(InspectError::Closed));
}

#[test]
fn a_tab_update_replaces_the_cached_bar_and_commands_reach_the_server() {
    let mut attached = handshake(Some(hello()), VERSION).expect("the attach succeeds");
    attached.recv(&ServerMessage::Tabs(vec![
        TabSummary {
            tab: TabId::new(1),
            title: "shell".into(),
            active: false,
        },
        TabSummary {
            tab: TabId::new(2),
            title: "build".into(),
            active: true,
        },
    ]));
    assert_eq!(attached.tabs().len(), 2);
    assert_eq!(attached.tabs()[1].title, "build");
    assert!(attached.tabs()[1].active);

    let mut state = overlay_state(12, "C-b");
    let routed = apply_chrome(&mut state, &vec![Action::NextTab], None, start_of_time());
    assert_eq!(routed.send, vec![ClientMessage::Command(Action::NextTab)]);
}

#[test]
fn the_reported_capabilities_reach_the_server_unchanged() {
    // Every field distinct from `TermCaps::default()`, so a handshake that
    // dropped or defaulted one is caught rather than passing by coincidence.
    let sent = TermCaps {
        truecolor: true,
        bracketed_paste: true,
        sgr_mouse: true,
        focus_events: true,
        extended_keys: true,
        clipboard_osc52: true,
        hyperlinks: true,
        graphics: true,
    };
    assert_ne!(sent, TermCaps::default());

    let ClientMessage::Attach {
        term_caps: received,
        ..
    } = attach_request(VERSION, Size::new(80, 24), sent, None)
    else {
        panic!("expected an attach");
    };
    assert_eq!(
        received, sent,
        "TermCaps must round-trip over the handshake"
    );
}

#[test]
fn a_refusal_surfaces_the_servers_own_reason() {
    let err = handshake(
        Some(ServerMessage::Refused {
            reason: "cloo protocol version mismatch: reattach with a matching build".into(),
        }),
        VERSION,
    )
    .expect_err("a refusal must not attach");

    let AttachError::Refused(reason) = &err else {
        panic!("expected Refused, got {}", err.message());
    };
    assert!(reason.contains("version mismatch"), "got: {reason}");
    assert!(
        err.message().contains("version mismatch"),
        "the reason must survive into the message the user sees"
    );
}

#[test]
fn a_hello_from_a_future_server_is_caught_client_side() {
    let err = handshake(
        Some(ServerMessage::Hello {
            protocol_version: VERSION.wrapping_add(1),
            session: SessionId::new(1),
            tabs: Vec::new(),
            size: Size::new(80, 24),
        }),
        VERSION,
    )
    .expect_err("a rebuilt server must be caught");

    assert!(
        matches!(err, AttachError::Version { .. }),
        "got {}",
        err.message()
    );
    assert!(err.message().contains("reattach"), "got: {}", err.message());
}

#[test]
fn a_reply_that_is_not_a_hello_is_refused() {
    let err = handshake(Some(ServerMessage::Bell(PaneId::new(1))), VERSION)
        .expect_err("a bell is not a handshake");
    assert!(
        matches!(err, AttachError::UnexpectedReply),
        "got {}",
        err.message()
    );
}

#[test]
fn a_server_that_says_nothing_is_reported_as_a_close() {
    let err = handshake(None, VERSION).expect_err("silence is not a handshake");
    assert!(matches!(err, AttachError::Closed), "got {}", err.message());
}

#[test]
fn detach_asks_and_waits_for_the_acknowledgement() {
    // Damage still in flight when the user hit the detach key.
    assert!(!detach_settled(Some(&ServerMessage::Bell(PaneId::new(1)))));
    assert!(detach_settled(Some(&ServerMessage::Detached)));
    assert!(detach_settled(None), "there is no server left to wait for");
}

#[test]
fn a_failed_connection_says_whether_anyone_listens() {
    let nobody = AttachError::connecting("/run/cloo/main.sock", true, "refused");
    assert_eq!(
        nobody.message(),
        "no cloo daemon is listening on /run/cloo/main.sock; start one first"
    );
    let denied = AttachError::connecting("/run/cloo/main.sock", false, "permission denied");
    assert_eq!(
        denied.message(),
        "could not connect to /run/cloo/main.sock: permission denied"
    );
    assert!(matches!(
        InspectError::connecting("/run/cloo/main.sock", true, "refused"),
        InspectError::NoDaemon(_)
    ));
}

#[test]
fn a_run_error_reads_as_what_caused_it() {
    assert_eq!(
        AttachRunError::from(AttachError::Closed).message(),
        AttachError::Closed.message()
    );
    assert_eq!(
        AttachRunError::RawMode(RawModeFailure::NotATerminal).message(),
        "cloo attach must be run from a terminal"
    );
    assert_eq!(
        AttachRunError::Output("broken pipe".to_owned()).message(),
        "could not write to the terminal: broken pipe"
    );
}

/// The cells of the status row, as text.
fn status_row(state: &LiveState) -> String {
    let last = state.outer_size.rows - 1;
    state
        .frame(&[])
        .spans
        .iter()
        .find(|span| span.at == Point::new(0, last))
        .map(|span| span.cells.iter().map(|cell| cell.ch).collect())
        .expect("the status row is always drawn")
}

#[test]
fn the_status_row_is_drawn_in_the_preferred_composition() {
    let powerline = VisualConfig {
        status: StatusMode::Powerline,
        ..VisualConfig::defaults()
    };
    let mut state = live_state(
        Size::new(100, 10),
        SessionId::new(1),
        hello_tabs(),
        "C-b".to_owned(),
    )
    .prefer(truecolor_caps(), powerline);
    state
        .apply(ServerMessage::Layout(LayoutSnapshot {
            tab: TabId::new(1),
            panes: vec![PaneRect {
                pane: PaneId::new(1),
                x: 1,
                y: 1,
                size: Size::new(98, 6),
            }],
            focused: Some(PaneId::new(1)),
            zoomed: None,
        }))
        .expect("the layout applies");
    state
        .apply(ServerMessage::WorkspaceStatus(WorkspaceStatus {
            name: "agents".into(),
            clients: 2,
            effective_size: Size::new(60, 6),
        }))
        .expect("the status applies");
    let row = status_row(&state);
    assert!(row.starts_with(" NORMAL "), "{row:?}");
    assert!(row.contains('\u{e0b0}'), "powerline opts into its separator: {row:?}");
    assert!(row.contains("2 clients"), "{row:?}");
    assert!(row.contains("min 60x6"), "{row:?}");

    let theme = state.theme;
    assert!(state.reload_visual(3, Some((VisualConfig::defaults(), theme))));
    let row = status_row(&state);
    assert!(!row.contains("NORMAL"), "{row:?}");
    assert!(!row.contains("min 60x6"), "{row:?}");
}
