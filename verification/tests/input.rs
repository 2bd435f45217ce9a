use cloo_client::input::{
    decode_key, mouse_owner, overlay_action, palette_actions, queue_action, route_mouse,
    ChromeTarget, InputDecoder, InputEvent, KeyRoute, KeyRouter, MouseOwner, MouseReport,
    MouseRoute, MouseTarget, OuterModes, OverlayAction, PaletteAction, PaneArea, QueueAction,
    ScreenLayout, FOCUS_OFF, FOCUS_ON, KEYS_OFF, KEYS_ON, MOUSE_OFF, MOUSE_ON, PASTE_OFF, PASTE_ON,
};
use cloo_client::keymap::{Key, KeyCode, KeyMods, Keymap};
use cloo_client::proto::{
    Action, MouseButton, MouseEvent, MouseKind, MouseMods, MouseTracking, PaneId, PaneModes, Point,
    Size, TermCaps,
};

fn holds(haystack: &[u8], needle: &[u8]) -> bool {
    haystack.windows(needle.len()).any(|bytes| bytes == needle)
}

fn all_modes() -> OuterModes {
    OuterModes {
        bracketed_paste: true,
        sgr_mouse: true,
        focus_events: true,
        extended_keys: true,
    }
}

fn decoder() -> InputDecoder {
    InputDecoder::new(all_modes())
}

fn tracking(level: MouseTracking) -> PaneModes {
    PaneModes {
        mouse: level,
        ..PaneModes::default()
    }
}

fn report(kind: MouseKind) -> MouseReport {
    MouseReport {
        kind,
        mods: MouseMods::none(),
        col: 4,
        row: 2,
    }
}

// -- negotiating with the outer terminal --------------------------------

#[test]
fn only_negotiated_modes_are_requested() {
    let caps = TermCaps {
        bracketed_paste: true,
        focus_events: true,
        ..TermCaps::default()
    };
    let modes = OuterModes::negotiated(caps);
    assert!(modes.bracketed_paste && modes.focus_events);
    assert!(
        !modes.sgr_mouse && !modes.extended_keys,
        "a mode the terminal did not report is never asked for: its enable \
         sequence would be printed on the user's screen"
    );
}

/// A named fixture: set the mode, then its request and its reset.
type ModeCase = (
    &'static str,
    fn(&mut OuterModes),
    &'static [u8],
    &'static [u8],
);

/// One fixture per negotiated mode: enabling it emits its own sequence and
/// no other, and disabling it emits exactly the matching reset.
#[test]
fn every_negotiated_mode_has_a_request_and_a_matching_reset() {
    let cases: [ModeCase; 4] = [
        (
            "bracketed paste",
            |m| m.bracketed_paste = true,
            &PASTE_ON,
            &PASTE_OFF,
        ),
        ("SGR mouse", |m| m.sgr_mouse = true, &MOUSE_ON, &MOUSE_OFF),
        (
            "focus events",
            |m| m.focus_events = true,
            &FOCUS_ON,
            &FOCUS_OFF,
        ),
        (
            "extended keys",
            |m| m.extended_keys = true,
            &KEYS_ON,
            &KEYS_OFF,
        ),
    ];

    for (name, set, on, off) in cases {
        let mut modes = OuterModes::none();
        set(&mut modes);
        assert_eq!(modes.enable(), on, "{name} enable");
        assert_eq!(modes.disable(), off, "{name} disable");
    }
}

#[test]
fn asking_for_nothing_writes_nothing() {
    assert!(OuterModes::none().enable().is_empty());
    assert!(OuterModes::none().disable().is_empty());
}

#[test]
fn every_mode_turned_on_is_turned_off_again() {
    let enable = all_modes().enable();
    let disable = all_modes().disable();
    let pairs: [(&[u8], &[u8]); 4] = [
        (&PASTE_ON, &PASTE_OFF),
        (&MOUSE_ON, &MOUSE_OFF),
        (&FOCUS_ON, &FOCUS_OFF),
        (&KEYS_ON, &KEYS_OFF),
    ];
    for (set, reset) in pairs {
        assert!(holds(&enable, set));
        assert!(
            holds(&disable, reset),
            "a mode left on outlives cloo and breaks the user's shell"
        );
    }
}

// -- decoding -----------------------------------------------------------

#[test]
fn ordinary_typing_is_one_run_of_keys() {
    assert_eq!(
        decoder().feed(b"ls -la\r"),
        vec![InputEvent::Keys(b"ls -la\r".to_vec())]
    );
}

#[test]
fn a_paste_arrives_as_text_without_its_brackets() {
    assert_eq!(
        decoder().feed(b"\x1b[200~echo hi\x1b[201~"),
        vec![InputEvent::Paste(b"echo hi".to_vec())],
        "the brackets are the server's to re-apply, if the child wants them"
    );
}

#[test]
fn typing_around_a_paste_stays_in_order() {
    assert_eq!(
        decoder().feed(b"a\x1b[200~pasted\x1b[201~b"),
        vec![
            InputEvent::Keys(b"a".to_vec()),
            InputEvent::Paste(b"pasted".to_vec()),
            InputEvent::Keys(b"b".to_vec()),
        ]
    );
}

#[test]
fn a_paste_split_across_reads_is_still_one_paste() {
    let mut decoder = decoder();
    assert!(decoder.feed(b"\x1b[200~one").is_empty());
    assert!(decoder.feed(b" two").is_empty());
    // The terminator itself split down the middle.
    assert!(decoder.feed(b"\x1b[20").is_empty());
    assert_eq!(
        decoder.feed(b"1~"),
        vec![InputEvent::Paste(b"one two".to_vec())]
    );
}

#[test]
fn a_half_arrived_paste_is_never_flushed_as_keystrokes() {
    let mut decoder = decoder();
    let _ = decoder.feed(b"\x1b[200~rm -rf /");
    assert_eq!(
        decoder.flush(),
        None,
        "flushing half a paste is exactly what bracketed paste prevents"
    );
}

#[test]
fn focus_reports_are_decoded_in_both_directions() {
    assert_eq!(
        decoder().feed(b"\x1b[I\x1b[O"),
        vec![InputEvent::Focus(true), InputEvent::Focus(false)]
    );
}

#[test]
fn a_lone_escape_is_released_by_a_flush() {
    let mut decoder = decoder();
    assert!(
        decoder.feed(b"\x1b").is_empty(),
        "it could still become a sequence"
    );
    assert!(decoder.is_holding());
    assert_eq!(decoder.flush(), Some(InputEvent::Keys(vec![0x1b])));
    assert!(!decoder.is_holding());
}

#[test]
fn a_sequence_for_a_mode_that_was_never_requested_is_left_alone() {
    let mut decoder = InputDecoder::new(OuterModes::none());
    assert_eq!(
        decoder.feed(b"\x1b[I"),
        vec![InputEvent::Keys(b"\x1b[I".to_vec())],
        "stealing this would corrupt input that belongs to the pane"
    );
}

#[test]
fn an_unrecognised_escape_sequence_passes_through_as_keys() {
    assert_eq!(
        decoder().feed(b"\x1b[A"),
        vec![InputEvent::Keys(b"\x1b[A".to_vec())],
        "an arrow key is the pane's business, not the decoder's"
    );
}

/// One fixture per mouse event kind, each as its terminal sends it.
#[test]
fn every_mouse_report_kind_is_decoded() {
    let cases: [(&[u8], MouseKind); 6] = [
        (b"\x1b[<0;5;3M", MouseKind::Press(MouseButton::Left)),
        (b"\x1b[<1;5;3m", MouseKind::Release(MouseButton::Middle)),
        (b"\x1b[<64;5;3M", MouseKind::ScrollUp),
        (b"\x1b[<65;5;3M", MouseKind::ScrollDown),
        (
            b"\x1b[<34;5;3M",
            MouseKind::Motion(Some(MouseButton::Right)),
        ),
        (b"\x1b[<35;5;3M", MouseKind::Motion(None)),
    ];

    for (bytes, kind) in cases {
        assert_eq!(
            decoder().feed(bytes),
            vec![InputEvent::Mouse(report(kind))],
            "{kind:?}"
        );
    }
}

#[test]
fn mouse_modifiers_are_recovered_from_the_button_code() {
    let events = decoder().feed(b"\x1b[<28;5;3M");
    let [InputEvent::Mouse(decoded)] = events.as_slice() else {
        panic!("expected one mouse event, got {events:?}");
    };
    assert_eq!(
        decoded.mods,
        MouseMods {
            shift: true,
            alt: true,
            ctrl: true,
        }
    );
    assert_eq!(decoded.kind, MouseKind::Press(MouseButton::Left));
}

#[test]
fn mouse_coordinates_come_back_zero_based() {
    let events = decoder().feed(b"\x1b[<0;1;1M");
    let [InputEvent::Mouse(decoded)] = events.as_slice() else {
        panic!("expected one mouse event, got {events:?}");
    };
    assert_eq!((decoded.col, decoded.row), (0, 0), "SGR is one-based");
}

#[test]
fn a_mouse_report_split_across_reads_is_held_then_decoded() {
    let mut decoder = decoder();
    assert!(decoder.feed(b"\x1b[<0;5;").is_empty());
    assert_eq!(
        decoder.feed(b"3M"),
        vec![InputEvent::Mouse(report(MouseKind::Press(
            MouseButton::Left
        )))]
    );
}

#[test]
fn a_malformed_mouse_report_is_passed_through_rather_than_guessed_at() {
    assert_eq!(
        decoder().feed(b"\x1b[<;;M"),
        vec![InputEvent::Keys(b"\x1b[<;;M".to_vec())]
    );
}

// -- routing ------------------------------------------------------------

#[test]
fn an_application_tracking_the_mouse_owns_a_click_over_its_pane() {
    assert_eq!(
        mouse_owner(
            tracking(MouseTracking::Click),
            &report(MouseKind::Press(MouseButton::Left)),
            true,
        ),
        MouseOwner::Application
    );
}

#[test]
fn an_application_not_tracking_the_mouse_never_owns_one() {
    assert_eq!(
        mouse_owner(
            tracking(MouseTracking::Off),
            &report(MouseKind::Press(MouseButton::Left)),
            true,
        ),
        MouseOwner::Chrome,
        "this is what makes click-to-focus work in an ordinary shell"
    );
}

#[test]
fn a_click_outside_every_pane_is_chrome_whatever_the_application_wants() {
    assert_eq!(
        mouse_owner(
            tracking(MouseTracking::Motion),
            &report(MouseKind::Press(MouseButton::Left)),
            false,
        ),
        MouseOwner::Chrome
    );
}

#[test]
fn shift_is_the_override_that_reaches_chrome_inside_a_full_screen_app() {
    let mut shifted = report(MouseKind::Press(MouseButton::Left));
    shifted.mods.shift = true;
    assert_eq!(
        mouse_owner(tracking(MouseTracking::Motion), &shifted, true),
        MouseOwner::Chrome
    );
    shifted.mods.shift = false;
    assert_eq!(
        mouse_owner(tracking(MouseTracking::Motion), &shifted, true),
        MouseOwner::Application,
        "and without it the application still gets everything"
    );
}

// -- hit testing --------------------------------------------------------

/// Two panes side by side under a tab row, over a status bar:
///
/// ```text
///  row 0        tab row
///  row 1        header(1)              header(2)
///  rows 2..=8   pane 1 grid, cols 0..=9   |   pane 2 grid, cols 11..=19
///  row 9        status bar
///  col 10       gutter
/// ```
fn screen() -> ScreenLayout {
    ScreenLayout::new(Size::new(20, 10))
        .tab_row(0)
        .status_row(9)
        .focus(Some(PaneId::new(1)))
        .pane(PaneArea::new(PaneId::new(1), 0, 2, Size::new(10, 7)))
        .pane(PaneArea::new(PaneId::new(2), 11, 2, Size::new(9, 7)))
}

fn at(col: u16, row: u16) -> MouseReport {
    MouseReport {
        kind: MouseKind::Press(MouseButton::Left),
        mods: MouseMods::none(),
        col,
        row,
    }
}

#[test]
fn every_region_of_a_drawn_screen_hit_tests_to_itself() {
    let screen = screen();
    let cases: [(&str, u16, u16, MouseTarget); 7] = [
        (
            "the tab row",
            3,
            0,
            MouseTarget::Chrome(ChromeTarget::TabRow { col: 3 }),
        ),
        (
            "a pane header",
            4,
            1,
            MouseTarget::Chrome(ChromeTarget::Header {
                pane: PaneId::new(1),
                col: 4,
            }),
        ),
        (
            "the left pane's grid",
            2,
            3,
            MouseTarget::Pane {
                pane: PaneId::new(1),
                at: Point::new(2, 1),
            },
        ),
        (
            "the right pane's grid",
            12,
            4,
            MouseTarget::Pane {
                pane: PaneId::new(2),
                at: Point::new(1, 2),
            },
        ),
        (
            "the gutter between them",
            10,
            4,
            MouseTarget::Chrome(ChromeTarget::Gutter),
        ),
        (
            "the status bar",
            7,
            9,
            MouseTarget::Chrome(ChromeTarget::StatusBar { col: 7 }),
        ),
        (
            "past the right edge",
            20,
            4,
            MouseTarget::Chrome(ChromeTarget::Outside),
        ),
    ];

    for (name, col, row, expected) in cases {
        assert_eq!(screen.hit(col, row), expected, "{name}");
    }
}

#[test]
fn a_pane_local_cell_is_zero_based_within_its_own_grid() {
    // The top-left cell of the right pane, which sits at terminal (11, 2).
    assert_eq!(
        screen().hit(11, 2),
        MouseTarget::Pane {
            pane: PaneId::new(2),
            at: Point::new(0, 0),
        },
        "the server encodes what the application sees, and it has never \
         heard of the pane's place on a screen"
    );
}

#[test]
fn a_chrome_row_is_claimed_before_any_pane_is_consulted() {
    // A layout that wrongly describes a pane as reaching over the status
    // row. The row still answers as the status bar.
    let screen = ScreenLayout::new(Size::new(20, 10))
        .status_row(9)
        .focus(Some(PaneId::new(1)))
        .pane(PaneArea::new(PaneId::new(1), 0, 0, Size::new(20, 10)));
    assert_eq!(
        screen.hit(4, 9),
        MouseTarget::Chrome(ChromeTarget::StatusBar { col: 4 }),
        "a mis-described pane must not be able to swallow a chrome row"
    );
}

#[test]
fn a_header_never_swallows_a_cell_some_pane_actually_occupies() {
    // Pane 2's grid starts on the same row pane 1's header would claim.
    let screen = ScreenLayout::new(Size::new(20, 10))
        .pane(PaneArea::new(PaneId::new(1), 0, 5, Size::new(20, 4)))
        .pane(PaneArea::new(PaneId::new(2), 0, 0, Size::new(20, 5)));
    assert_eq!(
        screen.hit(3, 4),
        MouseTarget::Pane {
            pane: PaneId::new(2),
            at: Point::new(3, 4),
        }
    );
}

#[test]
fn a_pane_at_the_top_of_the_screen_has_no_header_row_above_it() {
    let screen = ScreenLayout::new(Size::new(20, 10)).pane(PaneArea::new(
        PaneId::new(1),
        0,
        0,
        Size::new(20, 10),
    ));
    assert_eq!(screen.hit(3, 0).pane(), Some(PaneId::new(1)));
}

#[test]
fn the_local_screen_is_one_pane_and_no_chrome() {
    let screen = ScreenLayout::single(Size::new(80, 24), PaneId::new(1));
    assert_eq!(
        screen.hit(0, 0),
        MouseTarget::Pane {
            pane: PaneId::new(1),
            at: Point::new(0, 0),
        }
    );
    assert_eq!(
        screen.hit(79, 23),
        MouseTarget::Pane {
            pane: PaneId::new(1),
            at: Point::new(79, 23),
        }
    );
    assert_eq!(
        screen.hit(80, 23),
        MouseTarget::Chrome(ChromeTarget::Outside)
    );
}

// -- routing over a screen ----------------------------------------------

#[test]
fn an_application_event_is_routed_as_the_wire_event_the_server_takes() {
    let route = route_mouse(&screen(), tracking(MouseTracking::Click), &at(2, 3));
    assert_eq!(
        route,
        MouseRoute::Application(MouseEvent {
            pane: PaneId::new(1),
            at: Point::new(2, 1),
            kind: MouseKind::Press(MouseButton::Left),
            mods: MouseMods::none(),
        }),
        "an application tracking the mouse is not stolen from"
    );
    assert!(route.wire_event().is_some());
}

/// Every chrome region routes to chrome and produces no wire event, which
/// is the property that keeps escape bytes out of a child's input.
#[test]
fn no_chrome_region_ever_produces_a_wire_event() {
    let screen = screen();
    // The most permissive application state there is: full motion tracking
    // in the focused pane. Even so, none of these are its business.
    let modes = tracking(MouseTracking::Motion);
    let cases: [(&str, u16, u16, ChromeTarget); 5] = [
        ("the tab row", 3, 0, ChromeTarget::TabRow { col: 3 }),
        (
            "a pane header",
            4,
            1,
            ChromeTarget::Header {
                pane: PaneId::new(1),
                col: 4,
            },
        ),
        ("the gutter", 10, 4, ChromeTarget::Gutter),
        ("the status bar", 7, 9, ChromeTarget::StatusBar { col: 7 }),
        ("off screen", 40, 40, ChromeTarget::Outside),
    ];

    for (name, col, row, target) in cases {
        let route = route_mouse(&screen, modes, &at(col, row));
        assert_eq!(route, MouseRoute::Chrome(target), "{name}");
        assert_eq!(
            route.wire_event(),
            None,
            "{name} must have nothing a caller could send"
        );
    }
}

#[test]
fn a_click_in_an_unfocused_pane_is_chrome_because_its_modes_are_unknown() {
    // The modes belong to the focused pane; pane 2's are not reported at
    // all, and guessing at them is what would steal or invent an event.
    let route = route_mouse(&screen(), tracking(MouseTracking::Motion), &at(12, 4));
    assert_eq!(
        route,
        MouseRoute::Chrome(ChromeTarget::PaneBody {
            pane: PaneId::new(2),
            at: Point::new(1, 2),
        }),
        "and naming the pane is what click-to-focus is made of"
    );
}

#[test]
fn a_click_in_a_shell_that_tracks_nothing_is_chrome_that_still_names_the_pane() {
    assert_eq!(
        route_mouse(&screen(), tracking(MouseTracking::Off), &at(2, 3)),
        MouseRoute::Chrome(ChromeTarget::PaneBody {
            pane: PaneId::new(1),
            at: Point::new(2, 1),
        })
    );
}

#[test]
fn shift_takes_an_event_back_from_a_full_screen_application() {
    let mut shifted = at(2, 3);
    shifted.mods.shift = true;
    assert_eq!(
        route_mouse(&screen(), tracking(MouseTracking::Motion), &shifted),
        MouseRoute::Chrome(ChromeTarget::PaneBody {
            pane: PaneId::new(1),
            at: Point::new(2, 1),
        })
    );
}

/// Motion under click-only tracking is still the application's to refuse,
/// not the client's to reroute: the tracking *level* is a server-side
/// encoding question, and rerouting it here would turn a drag over a pane
/// into a chrome action the user did not ask for.
#[test]
fn a_tracking_level_below_the_event_is_left_for_the_server_to_drop() {
    let motion = MouseReport {
        kind: MouseKind::Motion(None),
        mods: MouseMods::none(),
        col: 2,
        row: 3,
    };
    assert!(matches!(
        route_mouse(&screen(), tracking(MouseTracking::Click), &motion),
        MouseRoute::Application(_)
    ));
}

// -- decoding chords ----------------------------------------------------

/// The bytes each default-bound chord arrives as, which is also the table
/// the pass-through property below is proved over.
const DEFAULT_CHORDS: [(&[u8], &str); 18] = [
    (b"%", "%"),
    (b"\"", "\""),
    (b"x", "x"),
    (b"h", "h"),
    (b"j", "j"),
    (b"k", "k"),
    (b"l", "l"),
    (b"\x1b[D", "left"),
    (b"\x1b[B", "down"),
    (b"\x1b[A", "up"),
    (b"\x1b[C", "right"),
    (b"z", "z"),
    (b"c", "c"),
    (b"&", "&"),
    (b"n", "n"),
    (b"p", "p"),
    (b"[", "["),
    (b"d", "d"),
];

/// The chord a user would write as `text`.
fn chord(text: &str) -> Key {
    let mut mods = KeyMods::none();
    let mut rest = text;
    while rest.chars().count() > 2 {
        if let Some(behind) = rest.strip_prefix("C-") {
            mods.ctrl = true;
            rest = behind;
        } else if let Some(behind) = rest.strip_prefix("M-") {
            mods.alt = true;
            rest = behind;
        } else if let Some(behind) = rest.strip_prefix("S-") {
            mods.shift = true;
            rest = behind;
        } else {
            break;
        }
    }
    let code = match rest {
        "space" => KeyCode::Char(' '),
        "enter" => KeyCode::Enter,
        "tab" => KeyCode::Tab,
        "backspace" => KeyCode::Backspace,
        "escape" => KeyCode::Escape,
        "up" => KeyCode::Up,
        "down" => KeyCode::Down,
        "left" => KeyCode::Left,
        "right" => KeyCode::Right,
        "home" => KeyCode::Home,
        "end" => KeyCode::End,
        "insert" => KeyCode::Insert,
        "delete" => KeyCode::Delete,
        "pageup" => KeyCode::PageUp,
        "pagedown" => KeyCode::PageDown,
        "f12" => KeyCode::Function(12),
        _ => KeyCode::Char(rest.chars().next().expect("a chord names a key")),
    };
    Key::new(code, mods)
}

/// The keymap a user who configured nothing has.
fn default_keymap() -> Keymap {
    let mut keymap = Keymap::new(chord("C-b"), "C-b".to_owned());
    let bindings = [
        ("%", "split-vertical", Action::SplitVertical),
        ("\"", "split-horizontal", Action::SplitHorizontal),
        ("x", "close-pane", Action::ClosePane),
        ("h", "focus-left", Action::FocusLeft),
        ("j", "focus-down", Action::FocusDown),
        ("k", "focus-up", Action::FocusUp),
        ("l", "focus-right", Action::FocusRight),
        ("left", "focus-left", Action::FocusLeft),
        ("down", "focus-down", Action::FocusDown),
        ("up", "focus-up", Action::FocusUp),
        ("right", "focus-right", Action::FocusRight),
        ("z", "toggle-zoom", Action::ToggleZoom),
        ("c", "new-tab", Action::NewTab),
        ("&", "close-tab", Action::CloseTab),
        ("n", "next-tab", Action::NextTab),
        ("p", "prev-tab", Action::PrevTab),
        ("[", "enter-copy-mode", Action::EnterCopyMode),
        ("d", "detach-client", Action::DetachClient),
    ];
    for (spelling, name, action) in bindings {
        keymap.bind(chord(spelling), spelling.to_owned(), name.to_owned(), action);
    }
    keymap
}

fn router() -> KeyRouter {
    KeyRouter::new(default_keymap())
}

/// One fixture per encoding a terminal actually uses, checked against the
/// spelling a user would write: a chord a user can write must be a chord a
/// terminal can send.
#[test]
fn every_chord_a_terminal_sends_decodes_to_its_spelling() {
    let cases: [(&[u8], &str); 20] = [
        (b"a", "a"),
        (b"G", "G"),
        (b" ", "space"),
        (b"\x02", "C-b"),
        (b"\x00", "C-space"),
        (b"\x1f", "C-_"),
        (b"\x0a", "C-j"),
        (b"\x08", "C-h"),
        (b"\r", "enter"),
        (b"\t", "tab"),
        (b"\x7f", "backspace"),
        (b"\x1b", "escape"),
        (b"\x1bx", "M-x"),
        (b"\x1b\x02", "C-M-b"),
        (b"\x1b[Z", "S-tab"),
        (b"\x1bOA", "up"),
        (b"\x1b[1;5A", "C-up"),
        (b"\x1b[3~", "delete"),
        (b"\x1b[6~", "pagedown"),
        (b"\x1b[24~", "f12"),
    ];
    for (bytes, spelling) in cases {
        assert_eq!(
            decode_key(bytes),
            Some((chord(spelling), bytes.len())),
            "{bytes:?} is {spelling}"
        );
    }
}

#[test]
fn a_multi_byte_character_is_one_chord() {
    assert_eq!(decode_key("é".as_bytes()), Some((Key::char('é'), 2)));
}

#[test]
fn a_sequence_cloo_does_not_model_is_not_a_chord() {
    // Answering with a guess here is what would steal a reply or a key an
    // application is using.
    assert_eq!(decode_key(b"\x1b[?1;2c"), None);
    assert_eq!(decode_key(b"\x1b["), None, "and neither is half of one");
    assert_eq!(decode_key(b""), None);
}

// -- the prefix state machine -------------------------------------------

/// The acceptance property: outside a pending prefix nothing is consumed,
/// not even a chord the keymap binds. An application using `c`, `x`, or an
/// arrow key must never notice cloo is there.
#[test]
fn a_bound_chord_without_the_prefix_is_still_the_panes() {
    for (bytes, spelling) in DEFAULT_CHORDS {
        let mut router = router();
        assert!(
            router.keymap().action(chord(spelling)).is_some(),
            "{spelling} is bound, so this fixture is not vacuous"
        );
        assert_eq!(
            router.feed(bytes),
            vec![KeyRoute::Pane(bytes.to_vec())],
            "{spelling} without the prefix is the pane's"
        );
        assert!(!router.is_pending());
    }
}

#[test]
fn ordinary_typing_is_passed_through_byte_for_byte() {
    assert_eq!(
        router().feed(b"ls -la\r"),
        vec![KeyRoute::Pane(b"ls -la\r".to_vec())],
        "one run, and the same bytes the terminal sent"
    );
}

#[test]
fn the_prefix_is_held_and_the_next_chord_resolves() {
    let mut router = router();
    assert_eq!(router.feed(b"\x02"), vec![KeyRoute::Pending]);
    assert!(router.is_pending(), "nothing reached the child");
    assert_eq!(
        router.feed(b"c"),
        vec![KeyRoute::Command(Action::NewTab)],
        "and the chord after it is cloo's"
    );
    assert!(!router.is_pending());
}

#[test]
fn a_prefix_and_its_chord_in_one_read_are_still_one_command() {
    assert_eq!(
        router().feed(b"\x02%"),
        vec![KeyRoute::Pending, KeyRoute::Command(Action::SplitVertical)]
    );
}

#[test]
fn an_escape_sequence_after_the_prefix_resolves_as_a_chord() {
    assert_eq!(
        router().feed(b"\x02\x1b[D"),
        vec![KeyRoute::Pending, KeyRoute::Command(Action::FocusLeft)]
    );
}

#[test]
fn typing_around_a_command_keeps_its_order_and_its_bytes() {
    assert_eq!(
        router().feed(b"ab\x02cdef"),
        vec![
            KeyRoute::Pane(b"ab".to_vec()),
            KeyRoute::Pending,
            KeyRoute::Command(Action::NewTab),
            KeyRoute::Pane(b"def".to_vec()),
        ],
        "only the one chord after the prefix is taken"
    );
}

#[test]
fn an_unbound_chord_after_the_prefix_is_consumed_rather_than_typed() {
    // Delivering it instead is how a mistyped command ends up in a shell.
    let mut router = router();
    assert_eq!(
        router.feed(b"\x02Q"),
        vec![KeyRoute::Pending, KeyRoute::Unbound]
    );
    assert!(!router.is_pending());
}

#[test]
fn an_undecodable_sequence_after_the_prefix_is_consumed_whole() {
    assert_eq!(
        router().feed(b"\x02\x1b[?1;2c"),
        vec![KeyRoute::Pending, KeyRoute::Unbound],
        "a fragment of what the user meant for cloo is not the child's"
    );
}

#[test]
fn a_sequence_cloo_cannot_name_is_the_panes_along_with_the_rest_of_the_run() {
    let bytes: &[u8] = b"\x1b[?1;2crest";
    assert_eq!(router().feed(bytes), vec![KeyRoute::Pane(bytes.to_vec())]);
}

#[test]
fn pressing_the_prefix_twice_sends_it_to_the_child() {
    // tmux's `send-prefix`, and the only way to type a `C-b` into a program
    // that wants one.
    assert_eq!(
        router().feed(b"\x02\x02"),
        vec![KeyRoute::Pending, KeyRoute::Pane(b"\x02".to_vec())]
    );
}

#[test]
fn a_rebound_prefix_gives_the_old_one_back_to_the_pane() {
    let mut keymap = default_keymap();
    keymap.set_prefix(chord("C-a"), "C-a".to_owned());
    let mut router = KeyRouter::new(keymap);
    assert_eq!(
        router.feed(b"\x02c"),
        vec![KeyRoute::Pane(b"\x02c".to_vec())],
        "C-b is an application's key again"
    );
    assert_eq!(
        router.feed(b"\x01c"),
        vec![KeyRoute::Pending, KeyRoute::Command(Action::NewTab)]
    );
}

#[test]
fn a_configured_binding_resolves_through_the_router() {
    let mut keymap = default_keymap();
    keymap.bind(
        chord("|"),
        "|".to_owned(),
        "split-vertical".to_owned(),
        Action::SplitVertical,
    );
    keymap.unbind(chord("x"));
    let mut router = KeyRouter::new(keymap);
    assert_eq!(
        router.feed(b"\x02|"),
        vec![KeyRoute::Pending, KeyRoute::Command(Action::SplitVertical)]
    );
    assert_eq!(
        router.feed(b"\x02x"),
        vec![KeyRoute::Pending, KeyRoute::Unbound],
        "an unbound default is unbound, not a fallback to what it was"
    );
}

#[test]
fn a_reset_forgets_a_pending_prefix() {
    let mut router = router();
    let _ = router.feed(b"\x02");
    router.reset();
    assert_eq!(
        router.feed(b"c"),
        vec![KeyRoute::Pane(b"c".to_vec())],
        "the context that made it cloo's is gone"
    );
}

// -- queue actions ------------------------------------------------------

#[test]
fn queue_keys_map_to_navigation_and_actions() {
    let cases: [(&[u8], QueueAction); 10] = [
        (b"j", QueueAction::Next),
        (b"\x1b[B", QueueAction::Next),
        (b"k", QueueAction::Prev),
        (b"\x1b[A", QueueAction::Prev),
        (b"\r", QueueAction::Focus),
        (b"\n", QueueAction::Focus),
        (b"a", QueueAction::Acknowledge),
        (b" ", QueueAction::Acknowledge),
        (b"\x1b", QueueAction::Dismiss),
        (b"q", QueueAction::Dismiss),
    ];
    for (keys, action) in cases {
        assert_eq!(queue_action(keys), Some(action), "{keys:?}");
    }
}

#[test]
fn an_unbound_key_is_not_a_queue_action() {
    assert_eq!(queue_action(b"x"), None);
    assert_eq!(queue_action(b""), None);
}

// -- overlay actions ----------------------------------------------------

#[test]
fn overlay_keys_map_to_navigation_and_actions() {
    let cases: [(&[u8], OverlayAction); 12] = [
        (b"j", OverlayAction::Next),
        (b"\x1b[B", OverlayAction::Next),
        (b"k", OverlayAction::Prev),
        (b"\x1b[A", OverlayAction::Prev),
        (b"g", OverlayAction::First),
        (b"\x1b[H", OverlayAction::First),
        (b"G", OverlayAction::Last),
        (b"\x1b[F", OverlayAction::Last),
        (b"\r", OverlayAction::Confirm),
        (b"\n", OverlayAction::Confirm),
        (b"\x1b", OverlayAction::Dismiss),
        (b"q", OverlayAction::Dismiss),
    ];
    for (keys, action) in cases {
        assert_eq!(overlay_action(keys), Some(action), "{keys:?}");
    }
}

#[test]
fn an_unbound_key_is_not_an_overlay_action() {
    assert_eq!(overlay_action(b"x"), None);
    assert_eq!(overlay_action(b""), None);
}

// -- palette keys --------------------------------------------------------

#[test]
fn palette_keys_edit_move_and_decide() {
    assert_eq!(
        palette_actions(b"a \x7f\x15"),
        vec![
            PaletteAction::Insert('a'),
            PaletteAction::Insert(' '),
            PaletteAction::Backspace,
            PaletteAction::Clear,
        ]
    );
    assert_eq!(
        palette_actions(b"\x1b[A\x1b[B\r"),
        vec![
            PaletteAction::Prev,
            PaletteAction::Next,
            PaletteAction::Confirm,
        ]
    );
    assert_eq!(palette_actions(b"\x1b"), vec![PaletteAction::Dismiss]);
    assert!(palette_actions(b"").is_empty());
}

// -- splitting the stream -------------------------------------------------

#[test]
fn the_events_do_not_depend_on_where_the_reads_were_cut() {
    let stream: &[u8] = b"ab\x1b[200~paste\x1b[201~\x1b[<0;5;3M\x1b[Ic";
    let whole: Vec<InputEvent> = decoder().feed(stream);
    for cut in 0..=stream.len() {
        let mut split = decoder();
        let mut events = split.feed(&stream[..cut]);
        events.extend(split.feed(&stream[cut..]));
        let mut joined: Vec<InputEvent> = Vec::new();
        for event in events {
            match (joined.last_mut(), event) {
                (Some(InputEvent::Keys(run)), InputEvent::Keys(more)) => run.extend(more),
                (_, event) => joined.push(event),
            }
        }
        assert_eq!(joined, whole, "cut at {cut}");
    }
}

#[test]
fn a_decoder_asked_for_nothing_claims_nothing() {
    let mut decoder = InputDecoder::new(OuterModes::none());
    let stream: &[u8] = b"\x1b[200~x\x1b[201~\x1b[<0;1;1M\x1b[O";
    assert_eq!(
        decoder.feed(stream),
        vec![InputEvent::Keys(stream.to_vec())]
    );
}

#[test]
fn bytes_that_are_no_text_are_no_chord() {
    assert_eq!(decode_key(&[0xff]), None);
    assert_eq!(decode_key(&[0xc3, 0x28]), None);
    assert_eq!(
        decode_key("\u{1f980}".as_bytes()),
        Some((Key::char('\u{1f980}'), 4))
    );
}
