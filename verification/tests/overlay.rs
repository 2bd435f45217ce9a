use std::collections::BTreeSet;

use cloo_client::chrome::{
    bottom_frame_cells, top_frame_cells, Attention, ChromeOptions, PaneChrome, StatusMode,
};
use cloo_client::input::{overlay_action, palette_actions, OverlayAction, PaletteAction, QueueAction};
use cloo_client::keymap::{Key, KeyCode, KeyMods, Keymap};
use cloo_client::launch::command_summary;
use cloo_client::overlay::{
    backdrop_cells, hint_cells, launch_deadline, launch_notice_cells, notice_linger, overlay_cells,
    overlay_spans, query_cells, title_cells, window, AttentionEntry, ClientSurface, ConfigPreview,
    LaunchNotice, Overlay, OverlayKind, OverlayOutcome, PaneDetails, Profile, ProfileCommand,
    SessionEntry, SocketPath, CONFIG_KEY, SESSIONS_KEY,
};
use cloo_client::proto::{
    Action, Cell, CellAttrs, Color, PaneId, PaneInfo, Point, SessionSummary, Size,
};
use cloo_client::rows::row_cells;
use cloo_client::settings::{
    Swatches, ThemeChoice, ThemeName, VisualConfig, SWATCH_TOKENS, THEME_NAMES,
};
use cloo_client::theme::Theme;
use cloo_client::time::Instant;

fn start_of_time() -> Instant {
    Instant {
        nanos: 1_000_000_000,
    }
}

fn socket(path: &str) -> SocketPath {
    SocketPath::new(path.as_bytes().to_vec())
}

/// The chord a user would write as `text`.
fn chord(text: &str) -> Key {
    let mut mods = KeyMods::none();
    let mut rest = text;
    while rest.chars().count() > 2 {
        if let Some(behind) = rest.strip_prefix("C-") {
            mods.ctrl = true;
            rest = behind;
        } else if let Some(behind) = rest.strip_prefix("M-") {
            mods.alt = true;
            rest = behind;
        } else if let Some(behind) = rest.strip_prefix("S-") {
            mods.shift = true;
            rest = behind;
        } else {
            break;
        }
    }
    let code = match rest {
        "space" => KeyCode::Char(' '),
        "enter" => KeyCode::Enter,
        "tab" => KeyCode::Tab,
        "backspace" => KeyCode::Backspace,
        "escape" => KeyCode::Escape,
        "up" => KeyCode::Up,
        "down" => KeyCode::Down,
        "left" => KeyCode::Left,
        "right" => KeyCode::Right,
        "home" => KeyCode::Home,
        "end" => KeyCode::End,
        "insert" => KeyCode::Insert,
        "delete" => KeyCode::Delete,
        "pageup" => KeyCode::PageUp,
        "pagedown" => KeyCode::PageDown,
        "f12" => KeyCode::Function(12),
        _ => KeyCode::Char(rest.chars().next().expect("a chord names a key")),
    };
    Key::new(code, mods)
}

/// The keymap a user who configured nothing has.
fn default_keymap() -> Keymap {
    let mut keymap = Keymap::new(chord("C-b"), "C-b".to_owned());
    let bindings = [
        ("%", "split-vertical", Action::SplitVertical),
        ("\"", "split-horizontal", Action::SplitHorizontal),
        ("x", "close-pane", Action::ClosePane),
        ("h", "focus-left", Action::FocusLeft),
        ("j", "focus-down", Action::FocusDown),
        ("k", "focus-up", Action::FocusUp),
        ("l", "focus-right", Action::FocusRight),
        ("left", "focus-left", Action::FocusLeft),
        ("down", "focus-down", Action::FocusDown),
        ("up", "focus-up", Action::FocusUp),
        ("right", "focus-right", Action::FocusRight),
        ("z", "toggle-zoom", Action::ToggleZoom),
        ("c", "new-tab", Action::NewTab),
        ("&", "close-tab", Action::CloseTab),
        ("n", "next-tab", Action::NextTab),
        ("p", "prev-tab", Action::PrevTab),
        ("[", "enter-copy-mode", Action::EnterCopyMode),
        ("d", "detach-client", Action::DetachClient),
    ];
    for (spelling, name, action) in bindings {
        keymap.bind(chord(spelling), spelling.to_owned(), name.to_owned(), action);
    }
    keymap
}

fn bind(keymap: &mut Keymap, spelling: &str, name: &str, action: Action) {
    keymap.bind(chord(spelling), spelling.to_owned(), name.to_owned(), action);
}

fn generic_profile() -> Profile {
    Profile {
        id: "generic".to_owned(),
        default_name: "shell".to_owned(),
        command: ProfileCommand::LoginShell,
        valid: true,
    }
}

fn program_profile(id: &str) -> Profile {
    Profile {
        id: id.to_owned(),
        default_name: id.to_owned(),
        command: ProfileCommand::Program {
            program: id.to_owned(),
            args: Vec::new(),
        },
        valid: true,
    }
}

/// The profiles a user who configured nothing has.
fn built_in_profiles() -> Vec<Profile> {
    vec![
        generic_profile(),
        program_profile("codex"),
        program_profile("cursor"),
    ]
}

/// A palette a terminal with sixteen colours can show.
fn sixteen_colours() -> Theme {
    Theme {
        frame: Color::Indexed(0),
        surface: Color::Indexed(0),
        raised_surface: Color::Indexed(8),
        border: Color::Indexed(8),
        accent: Color::Indexed(13),
        primary: Color::Indexed(15),
        muted: Color::Indexed(7),
        success: Color::Indexed(10),
        warning: Color::Indexed(11),
        error: Color::Indexed(9),
        info: Color::Indexed(14),
        default_text: Color::Indexed(15),
    }
}

/// A palette unlike any other, told by one channel of its accent and states.
fn tinted(tint: u8) -> Theme {
    Theme {
        accent: Color::Rgb(tint, 1, 1),
        success: Color::Rgb(tint, 2, 2),
        warning: Color::Rgb(tint, 3, 3),
        error: Color::Rgb(tint, 4, 4),
        info: Color::Rgb(tint, 5, 5),
        ..Theme::storm()
    }
}

/// The named palettes of a terminal with true colour.
fn truecolor() -> Swatches {
    Swatches {
        storm: Theme::storm(),
        night: tinted(40),
        gruvbox: tinted(80),
        nord: tinted(120),
    }
}

/// The named palettes of a terminal with sixteen colours, which all agree.
fn shared_swatches() -> Swatches {
    Swatches {
        storm: sixteen_colours(),
        night: sixteen_colours(),
        gruvbox: sixteen_colours(),
        nord: sixteen_colours(),
    }
}

fn palette() -> Overlay {
    Overlay::palette(&default_keymap())
}

/// The palette's live query, which only a palette has.
fn query(overlay: &Overlay) -> &str {
    let OverlayKind::Palette(palette) = overlay.kind() else {
        panic!("expected the command palette");
    };
    palette.query()
}

/// Every row the current query matches, in display order.
fn palette_rows(overlay: &Overlay) -> Vec<(String, String, String)> {
    let OverlayKind::Palette(palette) = overlay.kind() else {
        panic!("expected the command palette");
    };
    palette
        .results()
        .into_iter()
        .map(|command| {
            (
                command.key().to_owned(),
                command.label().to_owned(),
                command.note().to_owned(),
            )
        })
        .collect()
}

/// The labels the current query matches, in display order.
fn palette_labels(overlay: &Overlay) -> Vec<String> {
    palette_rows(overlay)
        .into_iter()
        .map(|(_, label, _)| label)
        .collect()
}

/// The chord the palette shows for `label`, if it shows one at all.
fn palette_key(overlay: &Overlay, label: &str) -> Option<String> {
    palette_rows(overlay)
        .into_iter()
        .find(|(_, shown, _)| shown == label)
        .map(|(key, _, _)| key)
}

/// Types one run of bytes at the palette, as the attached client would.
fn type_at(overlay: &mut Overlay, keys: &[u8]) -> OverlayOutcome {
    let mut outcome = OverlayOutcome::Open;
    for action in palette_actions(keys) {
        outcome = overlay.apply_palette(action);
        if !matches!(outcome, OverlayOutcome::Open) {
            break;
        }
    }
    outcome
}

fn sessions() -> Overlay {
    Overlay::sessions(vec![
        SessionEntry::new(
            socket("/run/cloo/main.sock"),
            SessionSummary {
                name: "main".to_owned(),
                tabs: 2,
                panes: 3,
                clients: 1,
                uptime_secs: 12,
            },
        )
        .attached(true),
        SessionEntry::new(
            socket("/run/cloo/review.sock"),
            SessionSummary {
                name: "review".to_owned(),
                tabs: 1,
                panes: 1,
                clients: 0,
                uptime_secs: 8,
            },
        ),
        SessionEntry::new(
            socket("/run/cloo/scratch.sock"),
            SessionSummary {
                name: "scratch".to_owned(),
                tabs: 1,
                panes: 2,
                clients: 2,
                uptime_secs: 3,
            },
        ),
    ])
}

fn launcher() -> Overlay {
    Overlay::launcher(&built_in_profiles())
}

/// Two panes waiting, newest first, exactly as the live queue orders them.
fn attention_rows() -> Vec<AttentionEntry> {
    vec![
        AttentionEntry {
            pane: PaneId::new(4),
            index: 2,
            title: "cursor".to_owned(),
            attention: Attention::NeedsInput,
        },
        AttentionEntry {
            pane: PaneId::new(9),
            index: 3,
            title: "build".to_owned(),
            attention: Attention::Failed,
        },
    ]
}

fn attention_queue() -> Overlay {
    Overlay::attention(attention_rows())
}

fn details() -> Overlay {
    Overlay::details(PaneDetails::from_info(
        &PaneInfo {
            pane: PaneId::new(4),
            profile: "cursor".to_owned(),
            name: "cursor".to_owned(),
            task: Some("refactor the layout pass".to_owned()),
            cwd: "/home/dev/cloo".to_owned(),
        },
        Attention::NeedsInput,
    ))
}

fn text(cells: &[Cell]) -> String {
    cells.iter().map(|cell| cell.ch).collect()
}

fn config() -> Overlay {
    Overlay::config(ConfigPreview::new(
        VisualConfig::defaults(),
        "C-b",
        truecolor(),
    ))
}

/// Every drawn row of a configuration box, as text.
fn config_rows(overlay: &Overlay, size: Size) -> Vec<String> {
    overlay_cells(overlay, size, Theme::storm())
        .iter()
        .map(|row| text(row).trim_end().to_owned())
        .collect()
}

// -- dismissal ----------------------------------------------------------

/// The one contract every overlay keeps, from every state it can be in:
/// an overlay that could not be closed would hold the terminal hostage.
#[test]
fn every_overlay_is_dismissible_including_an_empty_one() {
    let cases: [(&str, Overlay); 9] = [
        ("command palette", palette()),
        ("sessions", sessions()),
        ("launcher", launcher()),
        ("attention queue", attention_queue()),
        ("details", details()),
        ("configuration", config()),
        ("no sessions", Overlay::sessions(Vec::new())),
        ("no profiles", Overlay::launcher(&[])),
        ("nothing waiting", Overlay::attention(Vec::new())),
    ];
    for (name, mut overlay) in cases {
        assert_eq!(
            overlay.apply(OverlayAction::Dismiss),
            OverlayOutcome::Dismissed,
            "{name}"
        );
    }
}

#[test]
fn escape_is_the_key_that_dismisses() {
    let action = overlay_action(b"\x1b").expect("escape is bound");
    assert_eq!(sessions().apply(action), OverlayOutcome::Dismissed);
}

// -- navigation ---------------------------------------------------------

#[test]
fn navigation_walks_the_list_and_stops_at_both_ends() {
    let mut overlay = sessions();
    assert_eq!(overlay.selection(), 0);
    overlay.apply(OverlayAction::Prev);
    assert_eq!(overlay.selection(), 0, "the top does not wrap");
    for expected in [1, 2, 2] {
        overlay.apply(OverlayAction::Next);
        assert_eq!(overlay.selection(), expected);
    }
    overlay.apply(OverlayAction::First);
    assert_eq!(overlay.selection(), 0);
    overlay.apply(OverlayAction::Last);
    assert_eq!(overlay.selection(), overlay.len() - 1);
}

#[test]
fn an_empty_overlay_has_nowhere_to_navigate_to() {
    let mut overlay = Overlay::launcher(&[]);
    for action in [
        OverlayAction::Next,
        OverlayAction::Prev,
        OverlayAction::First,
        OverlayAction::Last,
    ] {
        assert_eq!(overlay.apply(action), OverlayOutcome::Open, "{action:?}");
        assert_eq!(overlay.selection(), 0);
    }
}

// -- confirming ---------------------------------------------------------

#[test]
fn confirming_a_session_row_switches_to_that_session() {
    let mut overlay = sessions();
    overlay.apply(OverlayAction::Next);
    assert_eq!(
        overlay.apply(OverlayAction::Confirm),
        OverlayOutcome::SwitchSession(socket("/run/cloo/review.sock"))
    );
}

#[test]
fn confirming_a_launcher_row_names_a_profile_that_was_on_the_list() {
    let profiles = built_in_profiles();
    let mut overlay = Overlay::launcher(&profiles);
    overlay.apply(OverlayAction::Last);
    let OverlayOutcome::Launch(request) = overlay.apply(OverlayAction::Confirm) else {
        panic!("confirming a launcher row launches");
    };
    assert!(
        profiles
            .iter()
            .any(|profile| profile.id == request.profile()),
        "a launch can only ever name a profile the caller supplied"
    );
    assert_eq!(request.default_name(), "cursor");
}

/// The honest version of "launch uses explicit profiles only": a profile
/// the server could not run is not offered, so there is no row whose
/// confirmation would fail at `execvp`.
#[test]
fn a_profile_that_does_not_validate_never_reaches_the_launcher() {
    let bad = Profile {
        id: "broken".to_owned(),
        default_name: "broken".to_owned(),
        command: ProfileCommand::Program {
            program: String::new(),
            args: Vec::new(),
        },
        valid: false,
    };
    let overlay = Overlay::launcher(&[bad, generic_profile()]);
    assert_eq!(overlay.len(), 1);
    let OverlayOutcome::Launch(request) = overlay.confirm() else {
        panic!("the good profile is still launchable");
    };
    assert_eq!(request.profile(), "generic");
}

#[test]
fn an_empty_launcher_confirms_to_nothing_at_all() {
    assert_eq!(
        Overlay::launcher(&[]).confirm(),
        OverlayOutcome::Open,
        "a launcher with no profile configured must not invent one"
    );
    assert_eq!(
        Overlay::sessions(Vec::new()).confirm(),
        OverlayOutcome::Open
    );
}

/// A notice can only ever describe a profile a launcher row named, and it
/// says both states in words rather than only in colour.
#[test]
fn a_launch_notice_says_which_profile_and_which_outcome_in_words() {
    let mut launcher = Overlay::launcher(&built_in_profiles());
    let OverlayOutcome::Launch(request) = launcher.apply(OverlayAction::Confirm) else {
        panic!("the first row confirms to a launch");
    };
    let sent = start_of_time();
    let mut notice = LaunchNotice::sent(&request, BTreeSet::new(), sent);
    assert_eq!(notice.profile(), "generic");
    assert_eq!(notice.text(), "launching generic");
    assert!(!notice.refused());

    assert!(!notice.settle(sent), "a launch inside its deadline waits");
    assert!(notice.settle(sent.plus(launch_deadline())));
    assert!(notice.refused());
    assert_eq!(notice.text(), "generic did not start");
    assert!(
        !notice.settle(sent.plus(launch_deadline())),
        "a refusal settles once"
    );
    assert!(!notice.finished(sent.plus(launch_deadline())));
    assert!(notice.finished(sent.plus(launch_deadline()).plus(notice_linger())));
}

/// The pane the request asked for is a pane the client had not seen, and
/// only for the profile it named — the two halves that keep an unrelated
/// split from answering for a launch.
#[test]
fn a_notice_is_only_answered_by_the_pane_its_own_request_produced() {
    let mut launcher = Overlay::launcher(&built_in_profiles());
    let OverlayOutcome::Launch(request) = launcher.apply(OverlayAction::Confirm) else {
        panic!("the first row confirms to a launch");
    };
    let existing = PaneId::new(1);
    let notice = LaunchNotice::sent(&request, BTreeSet::from([existing.0]), start_of_time());

    let pane = |pane, profile: &str| PaneInfo {
        pane,
        profile: profile.to_owned(),
        name: "shell".to_owned(),
        task: None,
        cwd: "/".to_owned(),
    };
    assert!(
        !notice.arrived(&[pane(existing, "generic")]),
        "a pane that was already there cannot answer for a new launch"
    );
    assert!(
        !notice.arrived(&[pane(existing, "generic"), pane(PaneId::new(2), "codex")]),
        "a new pane of another profile is somebody else's launch"
    );
    assert!(notice.arrived(&[pane(existing, "generic"), pane(PaneId::new(2), "generic")]));
}

/// The notice is chrome like every other row: exactly the width asked for,
/// at every width, with the message truncating rather than overflowing.
#[test]
fn a_launch_notice_row_is_exactly_the_width_asked_for() {
    let mut launcher = Overlay::launcher(&built_in_profiles());
    let OverlayOutcome::Launch(request) = launcher.apply(OverlayAction::Confirm) else {
        panic!("the first row confirms to a launch");
    };
    let notice = LaunchNotice::sent(&request, BTreeSet::new(), start_of_time());
    for width in 0..=60u16 {
        assert_eq!(
            launch_notice_cells(&notice, width, Theme::storm()).len(),
            usize::from(width),
            "the notice must be exactly {width} cells"
        );
    }
    let drawn: String = launch_notice_cells(&notice, 40, Theme::storm())
        .iter()
        .map(|cell| cell.ch)
        .collect();
    assert_eq!(drawn, "  launch launching generic              ");
}

#[test]
fn confirming_the_details_view_closes_it_because_there_is_nothing_to_act_on() {
    assert_eq!(details().confirm(), OverlayOutcome::Dismissed);
}

// -- the command palette -------------------------------------------------

/// The surface's whole job: a user who knows nothing but `?` can read the
/// effective prefix and every control the milestone promises off one box,
/// before typing anything at all.
#[test]
fn the_command_palette_opens_with_the_prefix_and_every_promised_control() {
    let overlay = palette();
    assert_eq!(overlay.title(), "commands - prefix C-b");
    assert_eq!(query(&overlay), "", "it opens on the whole command list");
    for (label, key) in [
        ("split right", "%"),
        ("split down", "\""),
        ("focus left", "h"),
        ("focus down", "j"),
        ("focus up", "k"),
        ("focus right", "l"),
        ("zoom pane", "z"),
        ("new tab", "c"),
        ("next tab", "n"),
        ("previous tab", "p"),
        ("copy mode", "["),
        ("detach", "d"),
        ("add pane", "a"),
    ] {
        assert_eq!(
            palette_key(&overlay, label).as_deref(),
            Some(key),
            "{label} must be reachable from the command palette"
        );
    }
}

/// A row says which `[keys]` name to write, so the surface doubles as the
/// answer to "how do I change this" — and cloo's own surfaces, which have no
/// `[keys]` name to give, say where they come from instead.
#[test]
fn a_command_palette_row_says_where_its_binding_comes_from() {
    let rows = palette_rows(&palette());
    assert!(rows.contains(&(
        "%".to_owned(),
        "split right".to_owned(),
        "split-vertical".to_owned()
    )));
    assert!(rows.contains(&("a".to_owned(), "add pane".to_owned(), "client".to_owned())));
    assert!(rows.contains(&(
        "!".to_owned(),
        "attention queue".to_owned(),
        "client".to_owned()
    )));
}

/// The property that makes the surface worth reading from the keymap: a
/// hand-written table would keep showing `C-b %` here.
#[test]
fn a_command_palette_shows_a_rebound_prefix_and_chord_verbatim() {
    let mut keys = default_keymap();
    keys.set_prefix(chord("M-space"), "M-space".to_owned());
    keys.unbind(Key::char('%'));
    bind(&mut keys, "v", "split-vertical", Action::SplitVertical);
    let overlay = Overlay::palette(&keys);
    assert_eq!(
        overlay.title(),
        "commands - prefix M-space",
        "the keymap's own canonical spelling, not the test's"
    );
    assert_eq!(palette_key(&overlay, "split right").as_deref(), Some("v"));
}

#[test]
fn an_unbound_action_has_no_command_palette_row_at_all() {
    let mut keys = default_keymap();
    keys.unbind(Key::char('d'));
    let overlay = Overlay::palette(&keys);
    assert_eq!(
        palette_key(&overlay, "detach"),
        None,
        "a row for a chord that does nothing sends the user pressing it"
    );
    let mut searching = overlay;
    type_at(&mut searching, b"detach");
    assert!(
        palette_labels(&searching).is_empty(),
        "an unbound action must not come back through the search either"
    );
}

/// The client's own surfaces are not in the keymap, so the honest rule is
/// that a user who binds one of those keys takes it — and the row goes with
/// it, because the chord will never reach `open_overlay` again.
#[test]
fn a_keymap_that_claims_a_client_key_takes_its_command_palette_row_too() {
    let mut keys = default_keymap();
    bind(&mut keys, "a", "toggle-zoom", Action::ToggleZoom);
    let overlay = Overlay::palette(&keys);
    assert_eq!(palette_key(&overlay, "add pane"), None);
    assert_eq!(
        palette_key(&overlay, "sessions").as_deref(),
        Some("s"),
        "the neighbouring surfaces are untouched"
    );
}

/// Both confirmation arms are typed, and neither carries anything the user
/// wrote: a keymap row leaves as the very `Action` its chord would have
/// sent, and a client row names a surface that never reaches the wire.
#[test]
fn confirming_a_command_palette_row_yields_a_typed_outcome_and_never_text() {
    let mut overlay = palette();
    type_at(&mut overlay, b"zoom");
    assert_eq!(palette_labels(&overlay), ["zoom pane"]);
    assert_eq!(
        overlay.confirm(),
        OverlayOutcome::RunAction(Action::ToggleZoom)
    );

    let mut overlay = palette();
    type_at(&mut overlay, b"sessions");
    assert_eq!(
        overlay.confirm(),
        OverlayOutcome::OpenSurface(ClientSurface::Sessions)
    );
    assert_eq!(
        ClientSurface::from_key(SESSIONS_KEY),
        Some(ClientSurface::Sessions)
    );
}

/// Typing narrows the list, the title reports the position in *results*,
/// and backspacing widens it again — the whole search loop, in one test.
#[test]
fn a_command_palette_filters_as_text_is_typed_and_reports_its_position() {
    let theme = Theme::storm();
    let mut overlay = palette();
    let all = overlay.len();
    assert!(all > 2, "the fixture must have something to narrow");

    assert_eq!(type_at(&mut overlay, b"split"), OverlayOutcome::Open);
    assert_eq!(query(&overlay), "split");
    assert_eq!(palette_labels(&overlay), ["split right", "split down"]);
    assert_eq!(
        text(&title_cells(&overlay, 40, theme)).trim_end(),
        "  commands - prefix C-b 1/2"
    );

    overlay.apply_palette(PaletteAction::Next);
    assert_eq!(
        text(&title_cells(&overlay, 40, theme)).trim_end(),
        "  commands - prefix C-b 2/2"
    );

    // Backspacing to nothing restores the discoverable list.
    for _ in 0..5 {
        overlay.apply_palette(PaletteAction::Backspace);
    }
    assert_eq!(query(&overlay), "");
    assert_eq!(overlay.len(), all);
    assert_eq!(
        overlay.apply_palette(PaletteAction::Backspace),
        OverlayOutcome::Open,
        "backspacing an empty query is not a dismissal"
    );
    assert_eq!(query(&overlay), "");
}

/// A query is matched term by term against the label *and* the `[keys]`
/// name, because a user who knows the configuration name is exactly the
/// user searching for it.
#[test]
fn a_command_palette_query_matches_terms_in_any_order_and_either_column() {
    let mut overlay = palette();
    type_at(&mut overlay, b"right spl");
    assert_eq!(palette_labels(&overlay), ["split right"]);

    let mut overlay = palette();
    type_at(&mut overlay, b"SPLIT-HORIZ");
    assert_eq!(
        palette_labels(&overlay),
        ["split down"],
        "the `[keys]` name matches, and case is not a filter"
    );
}

/// The reason the query lives beside the cursor: a row that stops matching
/// must not hand the selection to whatever slid into its position.
#[test]
fn a_command_palette_keeps_its_selection_on_the_command_it_was_on() {
    let mut overlay = palette();
    type_at(&mut overlay, b"split");
    overlay.apply_palette(PaletteAction::Next);
    assert_eq!(palette_labels(&overlay)[overlay.selection()], "split down");

    // Narrowing away the row *above* the cursor keeps the cursor's command.
    type_at(&mut overlay, b" down");
    assert_eq!(palette_labels(&overlay), ["split down"]);
    assert_eq!(overlay.selection(), 0);
    assert_eq!(
        overlay.confirm(),
        OverlayOutcome::RunAction(Action::SplitHorizontal)
    );
}

/// A query that matches nothing is a legible answer rather than a blank
/// box, and it confirms to nothing at all — there is no row, so there is no
/// command.
#[test]
fn an_empty_command_palette_result_says_so_and_confirms_to_nothing() {
    let theme = Theme::storm();
    let mut overlay = palette();
    type_at(&mut overlay, b"zzz");
    assert!(overlay.is_empty());
    assert_eq!(overlay.confirm(), OverlayOutcome::Open);

    let box_cells = overlay_cells(&overlay, Size::new(36, 5), theme);
    assert_eq!(
        text(&box_cells[0]).trim_end(),
        "  commands - prefix C-b no matches"
    );
    assert_eq!(text(&box_cells[1]).trim_end(), "  / zzz_");
    assert!(text(&box_cells[2]).trim().is_empty());
    assert!(text(&box_cells[4]).contains("esc close"));
}

/// Escape closes from any state, and `q` deliberately does not: it is a
/// query character here, which is the one place cloo's shared overlay
/// vocabulary had to give way.
#[test]
fn escape_closes_a_command_palette_and_q_types_a_q() {
    let mut overlay = palette();
    assert_eq!(type_at(&mut overlay, b"q"), OverlayOutcome::Open);
    assert_eq!(query(&overlay), "q");
    assert_eq!(type_at(&mut overlay, b"\x1b"), OverlayOutcome::Dismissed);

    let mut typed = palette();
    type_at(&mut typed, b"split");
    assert_eq!(
        typed.apply_palette(PaletteAction::Clear),
        OverlayOutcome::Open
    );
    assert_eq!(query(&typed), "", "C-u drops the whole query");
}

/// Navigation is the arrows, because `j` and `k` are query text — and Enter
/// still runs whatever the cursor is on.
#[test]
fn a_command_palette_navigates_with_arrows_and_runs_with_enter() {
    let mut overlay = palette();
    assert_eq!(type_at(&mut overlay, b"j"), OverlayOutcome::Open);
    assert_eq!(query(&overlay), "j", "j is a character, not a motion");
    assert_eq!(palette_labels(&overlay), ["focus down"]);
    overlay.apply_palette(PaletteAction::Backspace);
    overlay.apply_palette(PaletteAction::First);

    assert_eq!(type_at(&mut overlay, b"\x1b[B"), OverlayOutcome::Open);
    assert_eq!(overlay.selection(), 1);
    assert_eq!(query(&overlay), "", "an arrow is never query text");
    assert_eq!(type_at(&mut overlay, b"\x1b[A"), OverlayOutcome::Open);
    assert_eq!(overlay.selection(), 0);
    assert_eq!(
        type_at(&mut overlay, b"\r"),
        OverlayOutcome::RunAction(Action::SplitVertical)
    );
}

/// A fast typist's keystrokes arrive coalesced, and the run has to survive
/// intact: decoding only the whole chunk as one chord would drop all but
/// one character of every burst.
#[test]
fn a_command_palette_takes_a_whole_typed_run_at_once() {
    let mut overlay = palette();
    type_at(&mut overlay, b"spl\x7fit");
    assert_eq!(
        query(&overlay),
        "spit",
        "each byte of the run is one edit, backspace included"
    );
}

/// The 16-colour contract: the surface has to be legible where colour and
/// non-ASCII glyphs are both unavailable, so every character is ASCII and
/// the key column carries the accent as bold as well.
#[test]
fn a_command_palette_is_ascii_and_marks_its_keys_without_colour() {
    let overlay = palette();
    for (name, theme) in [
        ("truecolor", Theme::storm()),
        (
            "16-colour",
            sixteen_colours(),
        ),
    ] {
        for row in overlay_cells(&overlay, Size::new(48, 20), theme) {
            assert!(
                row.iter().all(|cell| cell.ch.is_ascii()),
                "{name}: {:?} must survive a terminal with no glyph support",
                text(&row)
            );
        }
        let row = row_cells(&overlay.row(0, false, theme), 48, theme);
        assert!(
            row[2].attrs.contains(CellAttrs::bold()),
            "{name}: the chord is the one thing on the row a user has to find"
        );
    }
}

/// The query line is the palette's own chrome row and spends its width in
/// the shared order, so the list still lines up beneath it.
#[test]
fn a_command_palette_query_row_is_exactly_the_width_asked_for() {
    let theme = Theme::storm();
    let mut overlay = palette();
    type_at(&mut overlay, b"focus");
    for width in 0..=60_u16 {
        assert_eq!(
            query_cells(&overlay, width, theme)
                .expect("a palette has a query row")
                .len(),
            usize::from(width),
            "the query row must be exactly {width} cells"
        );
    }
    assert_eq!(
        text(&query_cells(&overlay, 20, theme).expect("a palette has a query row")),
        "  / focus_          "
    );
    assert!(
        query_cells(&sessions(), 20, theme).is_none(),
        "an overlay with no query has no query row to draw"
    );
}

/// A palette narrow enough to lose its list still says what it is, what the
/// user typed, and how to leave — in that order of importance.
#[test]
fn a_narrow_command_palette_keeps_its_title_query_and_dismissal_hint() {
    let theme = Theme::storm();
    let mut overlay = palette();
    type_at(&mut overlay, b"detach");
    let box_cells = overlay_cells(&overlay, Size::new(24, 3), theme);
    assert_eq!(box_cells.len(), 3);
    assert_eq!(text(&box_cells[0]).trim_end(), "  commands - prefix C-b");
    assert_eq!(text(&box_cells[1]).trim_end(), "  / detach_");
    assert_eq!(text(&box_cells[2]).trim_end(), "  esc close enter run");

    // With no room for a query line, the title and the hints are what stay.
    let squeezed = overlay_cells(&overlay, Size::new(24, 2), theme);
    assert_eq!(text(&squeezed[0]).trim_end(), "  commands - prefix C-b");
    assert!(text(&squeezed[1]).contains("esc close"));
}

#[test]
fn a_command_palette_row_spends_width_in_the_documented_order() {
    let theme = Theme::storm();
    let overlay = palette();
    for (width, expected) in [
        (32_u16, "  % split right split-vertical  "),
        (20, "  % split right     "),
        (10, "  % split "),
        (4, "  % "),
    ] {
        assert_eq!(
            text(&row_cells(&overlay.row(0, false, theme), width, theme)),
            expected,
            "at width {width}"
        );
    }
    assert_eq!(
        text(&hint_cells(&overlay, 36, theme)).trim_end(),
        "  esc close enter run up/down move"
    );
    assert_eq!(
        text(&hint_cells(&overlay, 12, theme)).trim_end(),
        "  esc close",
        "the last hint standing is the one that says how to get out"
    );
}

/// The box asks for one more row than every other overlay, because it has
/// one more chrome row to draw.
#[test]
fn a_command_palette_asks_for_a_row_its_query_line_can_use() {
    let overlay = palette();
    assert_eq!(overlay.preferred_rows(), overlay.len() + 3);
    assert_eq!(sessions().preferred_rows(), sessions().len() + 2);
}

// -- details ------------------------------------------------------------

#[test]
fn details_show_what_the_server_said_and_nothing_it_inferred() {
    let overlay = details();
    let OverlayKind::Details(details) = overlay.kind() else {
        panic!("expected the details overlay");
    };
    let fields = details.fields();
    let labels: Vec<&str> = fields.iter().map(|(label, _)| *label).collect();
    assert_eq!(labels, ["pane", "profile", "name", "task", "cwd", "state"]);
    assert_eq!(fields[4].1, "/home/dev/cloo");
    assert_eq!(fields[5].1, "! needs input");
}

#[test]
fn a_task_the_user_never_set_is_absent_rather_than_blank() {
    let details = PaneDetails::from_info(
        &PaneInfo {
            pane: PaneId::new(1),
            profile: "generic".to_owned(),
            name: "shell".to_owned(),
            task: None,
            cwd: "/tmp".to_owned(),
        },
        Attention::Unknown,
    );
    assert!(
        !details.fields().iter().any(|(label, _)| *label == "task"),
        "a blank task row reads as a task cloo failed to show"
    );
}

// -- the attention queue -------------------------------------------------

/// The queue is reached like every other client surface: `!` is offered
/// while the keymap leaves it free, and a user who binds it takes both the
/// chord and its help row, because the chord will never reach the client
/// again.
#[test]
fn the_attention_queue_key_is_offered_only_while_the_keymap_leaves_it_free() {
    assert_eq!(
        palette_key(&palette(), "attention queue").as_deref(),
        Some("!"),
        "a surface a user cannot discover is one they do not have"
    );
    let mut keys = default_keymap();
    bind(&mut keys, "!", "toggle-zoom", Action::ToggleZoom);
    assert_eq!(
        palette_key(&Overlay::palette(&keys), "attention queue"),
        None
    );
}

/// The queue's two verbs, and the difference between them: focusing names
/// the pane and is done, acknowledging names the pane and leaves the surface
/// up for the next row.
#[test]
fn an_attention_queue_focuses_and_acknowledges_the_pane_a_row_names() {
    let mut queue = attention_queue();
    assert_eq!(
        queue.apply_queue(QueueAction::Focus),
        OverlayOutcome::FocusPane(PaneId::new(4))
    );
    queue.apply_queue(QueueAction::Next);
    assert_eq!(
        queue.apply_queue(QueueAction::Acknowledge),
        OverlayOutcome::Acknowledge(PaneId::new(9)),
        "acknowledgment names the pane the user is looking at, not a position"
    );
}

/// The whole reason the rows carry a `PaneId`: a queue position is a number
/// a closing pane can hand to a different pane entirely, and neither verb
/// may act on a pane the user was not looking at.
#[test]
fn an_attention_queue_acts_on_a_pane_and_never_on_a_position() {
    let mut queue = Overlay::attention(vec![AttentionEntry {
        pane: PaneId::new(9),
        // The same position the first fixture row occupies, held by a
        // different pane after its neighbour closed.
        index: 2,
        title: "build".to_owned(),
        attention: Attention::Failed,
    }]);
    assert_eq!(
        queue.apply_queue(QueueAction::Focus),
        OverlayOutcome::FocusPane(PaneId::new(9))
    );
}

#[test]
fn an_attention_queue_navigates_and_dismisses_like_every_other_overlay() {
    let mut queue = attention_queue();
    assert_eq!(queue.apply_queue(QueueAction::Prev), OverlayOutcome::Open);
    assert_eq!(queue.selection(), 0, "the top does not wrap");
    for expected in [1, 1] {
        assert_eq!(queue.apply_queue(QueueAction::Next), OverlayOutcome::Open);
        assert_eq!(queue.selection(), expected);
    }
    assert_eq!(
        queue.apply_queue(QueueAction::Dismiss),
        OverlayOutcome::Dismissed
    );
}

#[test]
fn an_empty_attention_queue_acts_on_nothing_at_all() {
    let mut queue = Overlay::attention(Vec::new());
    for action in [
        QueueAction::Next,
        QueueAction::Prev,
        QueueAction::Focus,
        QueueAction::Acknowledge,
    ] {
        assert_eq!(
            queue.apply_queue(action),
            OverlayOutcome::Open,
            "{action:?}"
        );
        assert_eq!(queue.selection(), 0);
    }
}

/// Acknowledgment is the server's answer, so the row leaves on the next
/// projection rather than when the client hid it — and the cursor stays on
/// the pane the user had selected rather than on whatever slid into its row.
#[test]
fn an_attention_queue_refresh_keeps_the_cursor_on_its_pane() {
    let mut queue = attention_queue();
    queue.apply_queue(QueueAction::Next);
    assert_eq!(queue.selection(), 1);
    queue.refresh_attention(vec![attention_rows()[1].clone()]);
    assert_eq!(queue.len(), 1);
    assert_eq!(
        queue.apply_queue(QueueAction::Focus),
        OverlayOutcome::FocusPane(PaneId::new(9)),
        "the row above going away must not move the cursor onto a neighbour"
    );
}

#[test]
fn an_attention_queue_refresh_clamps_onto_a_shorter_list() {
    let mut queue = attention_queue();
    queue.apply_queue(QueueAction::Next);
    queue.refresh_attention(vec![attention_rows()[0].clone()]);
    assert_eq!(queue.selection(), 0);
    queue.refresh_attention(Vec::new());
    assert_eq!(queue.selection(), 0);
    assert_eq!(queue.apply_queue(QueueAction::Focus), OverlayOutcome::Open);
}

/// Refreshing is the queue's own affair: nothing else changes while it is
/// open, and a stray call must not silently empty another surface.
#[test]
fn refreshing_attention_queue_rows_leaves_another_overlay_alone() {
    let mut overlay = sessions();
    overlay.refresh_attention(Vec::new());
    assert_eq!(overlay.len(), 3);
}

/// The 16-colour and no-glyph contract: the row says the state in words and
/// in a shape, and the surface resolves through the client theme rather than
/// a fixed palette, so the same expectation holds at both colour depths.
#[test]
fn an_attention_queue_row_is_ascii_and_states_itself_without_colour() {
    let queue = attention_queue();
    for (name, theme) in [
        ("truecolor", Theme::storm()),
        (
            "16-colour",
            sixteen_colours(),
        ),
    ] {
        for row in overlay_cells(&queue, Size::new(40, 6), theme) {
            assert!(
                row.iter().all(|cell| cell.ch.is_ascii()),
                "{name}: {:?} must survive a terminal with no glyph support",
                text(&row)
            );
        }
        let row = row_cells(&queue.row(0, false, theme), 40, theme);
        assert!(
            text(&row).contains("! needs input"),
            "{name}: the state is text as well as a colour"
        );
        let state = row
            .iter()
            .find(|cell| cell.ch == '!')
            .expect("the state glyph is on the row");
        assert_eq!(
            state.fg,
            Attention::NeedsInput.color_in(theme),
            "{name}: the state colour is the theme's, not a fixed palette's"
        );
    }
}

#[test]
fn an_attention_queue_row_spends_width_in_the_documented_order() {
    let theme = Theme::storm();
    let queue = attention_queue();
    for (width, expected) in [
        (32_u16, "  2 cursor ! needs input        "),
        (20, "  2 cursor          "),
        (8, "  2 curs"),
        (4, "  2 "),
    ] {
        assert_eq!(
            text(&row_cells(&queue.row(0, false, theme), width, theme)),
            expected,
            "at width {width}"
        );
    }
}

/// Dismissal leads the hints in every overlay; here the middle slot goes to
/// the verb no other surface has, because a user who cannot find `a` never
/// clears the queue.
#[test]
fn a_narrow_attention_queue_still_says_how_to_close_and_how_to_clear() {
    let theme = Theme::storm();
    let queue = attention_queue();
    let box_cells = overlay_cells(&queue, Size::new(34, 4), theme);
    assert_eq!(text(&box_cells[0]).trim_end(), "  attention 1/2");
    assert_eq!(
        text(&box_cells[3]).trim_end(),
        "  esc close enter focus a ack"
    );
    assert_eq!(
        text(&hint_cells(&queue, 14, theme)).trim_end(),
        "  esc close",
        "the last hint standing is the one that says how to get out"
    );
}

/// An empty queue is an answer, not a broken surface: it opens, it says what
/// it is, it claims no position in a list that does not exist, and it closes.
#[test]
fn an_empty_attention_queue_still_renders_a_legible_box() {
    let theme = Theme::storm();
    let queue = Overlay::attention(Vec::new());
    let box_cells = overlay_cells(&queue, Size::new(30, 4), theme);
    assert_eq!(text(&box_cells[0]).trim_end(), "  attention");
    assert!(text(&box_cells[1]).trim().is_empty());
    assert!(text(&box_cells[3]).contains("esc close"));
}

// -- rendering ----------------------------------------------------------

/// The exact-width guarantee, at every width, for every overlay. This loop
/// — not the pretty cases — is what catches an off-by-one in the gap
/// arithmetic, exactly as it does for the pane header.
#[test]
fn every_overlay_row_is_exactly_the_width_asked_for() {
    let theme = Theme::storm();
    for (name, overlay) in [
        ("command palette", palette()),
        ("sessions", sessions()),
        ("launcher", launcher()),
        ("attention queue", attention_queue()),
        ("details", details()),
    ] {
        for width in 0..=60_u16 {
            for (index, row) in overlay_cells(&overlay, Size::new(width, 12), theme)
                .iter()
                .enumerate()
            {
                assert_eq!(
                    row.len(),
                    usize::from(width),
                    "{name} row {index} at width {width}"
                );
            }
        }
    }
}

#[test]
fn the_box_is_exactly_as_tall_as_it_was_asked_for() {
    let theme = Theme::storm();
    for rows in 0..=10_u16 {
        let cells = overlay_cells(&sessions(), Size::new(30, rows), theme);
        assert_eq!(cells.len(), usize::from(rows), "at {rows} rows");
    }
}

#[test]
fn a_box_too_short_for_its_list_keeps_the_title_and_the_hints() {
    let theme = Theme::storm();
    let cells = overlay_cells(&sessions(), Size::new(24, 2), theme);
    assert_eq!(text(&cells[0]).trim_end(), "  sessions 1/3");
    assert!(
        text(&cells[1]).contains("esc close"),
        "a surface the user cannot close is the failure worth avoiding"
    );
}

#[test]
fn the_selected_row_is_marked_with_text_and_not_only_a_colour() {
    let theme = Theme::storm();
    let mut overlay = sessions();
    overlay.apply(OverlayAction::Next);
    let rows = overlay_cells(&overlay, Size::new(30, 5), theme);
    assert!(
        text(&rows[1]).starts_with("  main"),
        "unselected keeps a gap"
    );
    assert!(
        text(&rows[2]).starts_with("> review"),
        "the cursor is a glyph, so a monochrome terminal loses nothing"
    );
}

#[test]
fn a_session_row_spends_width_in_the_documented_order() {
    let theme = Theme::storm();
    let overlay = sessions();
    let full = text(&row_cells(&overlay.row(0, false, theme), 32, theme));
    assert_eq!(full, "  main attached 2 tabs 3 panes  ");
    // The extras go first, from the end, and only then does the title
    // truncate — the marker and daemon-reported name are what a row is.
    for (width, expected) in [
        (24_u16, "  main attached 2 tabs  "),
        (12, "  main      "),
        (7, "  main "),
        (5, "  mai"),
    ] {
        assert_eq!(
            text(&row_cells(&overlay.row(0, false, theme), width, theme)),
            expected,
            "at width {width}"
        );
    }
}

#[test]
fn the_dismissal_hint_is_the_last_thing_standing() {
    let theme = Theme::storm();
    let overlay = launcher();
    assert_eq!(
        text(&hint_cells(&overlay, 34, theme)),
        "  esc close enter launch j/k move "
    );
    assert_eq!(text(&hint_cells(&overlay, 12, theme)), "  esc close ");
}

#[test]
fn the_window_follows_the_cursor_past_the_bottom_of_the_box() {
    let theme = Theme::storm();
    let mut overlay = sessions();
    // A box with room for exactly two list rows.
    let size = Size::new(20, 4);
    assert_eq!(
        text(&overlay_cells(&overlay, size, theme)[1]).trim_end(),
        "> main attached"
    );
    overlay.apply(OverlayAction::Last);
    let rows = overlay_cells(&overlay, size, theme);
    assert_eq!(text(&rows[1]).trim_end(), "  review 1 tab");
    assert_eq!(text(&rows[2]).trim_end(), "> scratch 1 tab");
}

#[test]
fn the_overlay_box_is_positioned_where_it_was_asked_for() {
    let spans = overlay_spans(
        Point::new(4, 2),
        &sessions(),
        Size::new(20, 3),
        Theme::storm(),
    );
    assert_eq!(spans.len(), 3);
    assert_eq!(spans[0].at, Point::new(4, 2));
    assert_eq!(spans[2].at, Point::new(4, 4));
    assert!(spans.iter().all(|span| span.cells.len() == 20));
}

// -- the configuration and theme surface --------------------------------

/// The whole point of the surface: what it reports is what this client
/// resolved, spelled the way the configuration file spells it.
#[test]
fn config_preview_reports_every_effective_preference() {
    let visual = VisualConfig {
        theme: ThemeChoice::Terminal,
        dim_unfocused: false,
        status: StatusMode::Powerline,
        motion: false,
        reduce_motion: true,
    };
    let overlay = Overlay::config(ConfigPreview::new(visual, "C-a", truecolor()));
    let rows = config_rows(&overlay, Size::new(40, 17));
    assert_eq!(
        &rows[1..7],
        [
            "> theme  terminal",
            "  focus  no dim",
            "  status powerline",
            "  motion off",
            "  reduce on",
            "  keys   C-a",
        ]
    );
    assert_eq!(rows[0], "  configuration 1/11");
}

/// The surface is a report, not an editor: there is no outcome that writes,
/// and it says so where a user would look for the verb.
#[test]
fn config_preview_says_it_is_read_only_and_confirms_to_nothing() {
    let mut overlay = config();
    for index in 0..overlay.len() {
        assert_eq!(overlay.selection(), index);
        assert_eq!(
            overlay.confirm(),
            OverlayOutcome::Dismissed,
            "row {index} must not act on anything"
        );
        overlay.select_next();
    }
    assert_eq!(
        text(&hint_cells(&config(), 34, Theme::storm())),
        "  esc close read only j/k move    "
    );
}

/// Every named theme is offered with its own swatch set, and the active one
/// is marked in the fixed lead column rather than by colour alone.
#[test]
fn config_preview_lists_every_named_theme_with_its_own_swatches() {
    let visual = VisualConfig {
        theme: ThemeChoice::Named(ThemeName::Nord),
        ..VisualConfig::defaults()
    };
    let overlay = Overlay::config(ConfigPreview::new(visual, "C-b", truecolor()));
    let rows = config_rows(&overlay, Size::new(40, 17));
    assert_eq!(rows[7], "  themes");
    assert_eq!(
        &rows[8..12],
        [
            "    storm   # # # # #",
            "    night   # # # # #",
            "    gruvbox # # # # #",
            "  * nord    # # # # #",
        ]
    );

    // Each chip carries its own theme's role colour, not the client's.
    let cells = overlay_cells(&overlay, Size::new(40, 17), Theme::storm());
    for (offset, name) in THEME_NAMES.into_iter().enumerate() {
        let swatch = truecolor().of(name);
        let row = &cells[8 + offset];
        for (chip, token) in SWATCH_TOKENS.into_iter().enumerate() {
            let cell = row[12 + chip * 2];
            assert_eq!(cell.ch, '#', "{name:?} chip {chip}");
            assert_eq!(cell.fg, swatch.color(token), "{name:?} {token:?}");
        }
    }
}

/// A terminal that never negotiated true colour collapses all four swatch
/// sets onto the shared semantic answer, which is exactly why the marker and
/// the theme name — not the chips — carry the identity there.
#[test]
fn config_preview_swatches_fall_back_to_shared_sixteen_color_semantics() {
    let overlay = Overlay::config(ConfigPreview::new(
        VisualConfig::defaults(),
        "C-b",
        shared_swatches(),
    ));
    let theme = sixteen_colours();
    let cells = overlay_cells(&overlay, Size::new(40, 17), theme);
    let chips = |row: &[Cell]| {
        (0..SWATCH_TOKENS.len())
            .map(|chip| row[12 + chip * 2].fg)
            .collect::<Vec<_>>()
    };
    let storm = chips(&cells[8]);
    assert!(
        storm
            .iter()
            .all(|color| matches!(color, Color::Indexed(index) if *index < 16)),
        "a 16-colour swatch must not fall through to a 256-colour guess"
    );
    for offset in 1..THEME_NAMES.len() {
        assert_eq!(chips(&cells[8 + offset]), storm);
    }
    assert_eq!(
        config_rows(&overlay, Size::new(40, 17))[8],
        "  * storm   # # # # #"
    );
}

/// The preview is drawn by the production frame helpers, so it cannot claim
/// a treatment the real frame would not give.
#[test]
fn config_preview_draws_its_pane_pair_with_the_production_frame_helpers() {
    let theme = Theme::storm();
    let size = Size::new(40, 17);
    let rows = overlay_cells(&config(), size, theme);
    // The options the client composes its real frame with, not a set this
    // test chose: the claim is that the preview takes the *same* treatment,
    // so pinning a border style here would let the two drift apart silently.
    let options = ChromeOptions::default().with_theme(theme);
    // 40 columns: a 19-wide and a 20-wide frame, plus the one-cell gutter.
    let focused = PaneChrome::new(1, "focused")
        .attention(Attention::Quiet)
        .focused(true);
    let unfocused = PaneChrome::new(2, "unfocused").attention(Attention::Quiet);
    assert_eq!(&rows[13][..19], &top_frame_cells(&focused, 17, options)[..]);
    assert_eq!(
        &rows[13][20..],
        &top_frame_cells(&unfocused, 18, options)[..]
    );
    assert_eq!(&rows[15][..19], &bottom_frame_cells(true, 17, options)[..]);
    assert_eq!(&rows[15][20..], &bottom_frame_cells(false, 18, options)[..]);
    assert_eq!(text(&rows[12]).trim_end(), "  preview");
}

/// A no-dim configuration previews an undimmed neighbour, because one policy
/// draws both the preview and the workspace.
#[test]
fn config_preview_follows_the_focus_preference_it_reports() {
    let size = Size::new(40, 17);
    let dimmed = overlay_cells(&config(), size, Theme::storm());
    let no_dim = VisualConfig {
        dim_unfocused: false,
        ..VisualConfig::defaults()
    };
    let plain = overlay_cells(
        &Overlay::config(ConfigPreview::new(no_dim, "C-b", truecolor())),
        size,
        Theme::storm(),
    );
    assert_eq!(text(&dimmed[15]), text(&plain[15]));
    assert_ne!(
        dimmed[15][20..].to_vec(),
        plain[15][20..].to_vec(),
        "the unfocused preview pane must follow dim_unfocused"
    );
    assert_eq!(
        dimmed[15][..19].to_vec(),
        plain[15][..19].to_vec(),
        "the focused preview pane is never dimmed either way"
    );
}

/// The preview yields to the settings before the settings yield to it, and a
/// box too narrow for two framed panes draws none at all.
#[test]
fn config_preview_yields_its_pane_pair_before_the_rows_it_reports() {
    let short = config_rows(&config(), Size::new(40, 5));
    assert_eq!(
        short,
        [
            "  configuration 1/11",
            "> theme  storm",
            "  focus  dim unfocused",
            "  status minimal",
            "  esc close read only j/k move",
        ]
    );

    let narrow = config_rows(&config(), Size::new(18, 8));
    assert_eq!(narrow[0], "  configuration");
    assert!(
        narrow.iter().all(|row| !row.contains('\u{256d}')),
        "18 columns cannot hold two legible framed panes: {narrow:?}"
    );
    assert_eq!(narrow.last().map(String::as_str), Some("  esc close"));
}

/// A reload this client applied has to reach an open surface; one it could
/// not apply must leave every reported value alone.
#[test]
fn config_preview_refreshes_in_place_and_keeps_its_cursor() {
    let mut overlay = config();
    overlay.apply(OverlayAction::Last);
    let selected = overlay.selection();
    let replacement = VisualConfig {
        status: StatusMode::Powerline,
        ..VisualConfig::defaults()
    };
    overlay.refresh_config(ConfigPreview::new(replacement, "C-b", truecolor()));
    assert_eq!(overlay.selection(), selected);
    assert_eq!(
        config_rows(&overlay, Size::new(40, 17))[3],
        "  status powerline"
    );

    // A refresh aimed at another surface is not a way to replace its rows.
    let mut elsewhere = sessions();
    let before = elsewhere.clone();
    elsewhere.refresh_config(ConfigPreview::new(replacement, "C-b", truecolor()));
    assert_eq!(elsewhere, before);
}

/// The palette reaches the surface by the same chord the prefix does.
#[test]
fn config_preview_is_offered_by_the_palette_while_its_chord_is_free() {
    assert_eq!(
        ClientSurface::from_key(CONFIG_KEY),
        Some(ClientSurface::Config)
    );
    let overlay = palette();
    assert!(palette_labels(&overlay).contains(&"configuration".to_owned()));
    assert_eq!(palette_key(&overlay, "configuration").as_deref(), Some(","));
}

#[test]
fn the_backdrop_dims_the_screen_without_changing_a_character() {
    let theme = Theme::storm();
    let row: Vec<Cell> = "hello"
        .chars()
        .map(|ch| Cell {
            ch,
            fg: Color::Rgb(0xc0, 0xca, 0xf5),
            bg: Color::Rgb(0x1a, 0x1b, 0x26),
            attrs: CellAttrs::none(),
        })
        .collect();
    let dimmed = backdrop_cells(&row, theme);
    assert_eq!(text(&dimmed), "hello");
    assert_ne!(
        dimmed, row,
        "a backdrop that changed nothing is no backdrop"
    );
}

#[test]
fn a_window_always_shows_the_selected_row() {
    for len in 0..12_usize {
        for selected in 0..len {
            for visible in 1..12_usize {
                let (first, last) = window(len, selected, visible);
                assert!(first <= selected && selected < last, "{len} {selected} {visible}");
                assert!(last <= len && last - first <= visible);
            }
        }
    }
}

#[test]
fn a_command_reads_as_it_would_be_typed() {
    assert_eq!(
        command_summary(&ProfileCommand::Program {
            program: "codex".to_owned(),
            args: vec!["--model".to_owned(), "fast".to_owned()],
        }),
        "codex --model fast"
    );
}

#[test]
fn a_query_with_capitals_finds_what_its_small_letters_do() {
    let mut upper = palette();
    type_at(&mut upper, b"ZOOM Pane");
    let mut lower = palette();
    type_at(&mut lower, b"zoom pane");
    assert_eq!(palette_labels(&upper), ["zoom pane"]);
    assert_eq!(palette_labels(&lower), palette_labels(&upper));
}

#[test]
fn another_term_only_narrows_a_query() {
    let mut overlay = palette();
    type_at(&mut overlay, b"tab");
    let wide = palette_labels(&overlay);
    type_at(&mut overlay, b" close");
    let narrow = palette_labels(&overlay);
    assert_eq!(narrow, ["close tab"]);
    assert!(narrow.iter().all(|label| wide.contains(label)));
}

#[test]
fn a_box_without_columns_still_has_its_rows() {
    let rows = overlay_cells(&sessions(), Size::new(0, 4), Theme::storm());
    assert_eq!(rows.len(), 4);
    assert!(rows.iter().all(|row| row.is_empty()));
}

#[test]
fn refreshed_sessions_keep_the_cursor_on_their_socket() {
    let mut overlay = sessions();
    overlay.apply(OverlayAction::Last);
    overlay.refresh_sessions(vec![SessionEntry::new(
        socket("/run/cloo/scratch.sock"),
        SessionSummary {
            name: "renamed".to_owned(),
            tabs: 1,
            panes: 1,
            clients: 0,
            uptime_secs: 9,
        },
    )]);
    assert_eq!(
        overlay.confirm(),
        OverlayOutcome::SwitchSession(socket("/run/cloo/scratch.sock"))
    );
}

#[test]
fn the_second_built_in_profile_launches_by_name() {
    let mut launcher = launcher();
    launcher.apply(OverlayAction::Next);
    let OverlayOutcome::Launch(request) = launcher.apply(OverlayAction::Confirm) else {
        panic!("confirming a launcher row launches its profile");
    };
    assert_eq!(request.profile(), "codex");
}
