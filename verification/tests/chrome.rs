use cloo_client::chrome::{
    body_span, dim_cell, dim_cells, header_cells, header_span, queue_row_cells, queue_row_span,
    resize_affordance_spans, status_bar_cells, status_bar_span, summary_cells, summary_span,
    tab_row_cells, tab_row_span, toast_cells, toast_cells_in, toast_rows, toast_stack_span,
    Attention, AttentionQueue, ChromeOptions, PaneChrome, PrefixHint, QueueEntry, RepositoryStatus,
    StatusBar, StatusMode, TabBar, Toast, ToastDeck, DEFAULT_PREFIX_HINT, TOAST_MARGIN,
};
use cloo_client::motion::{frame_budget, MotionKind, MotionSettings, MOTION_STEPS};
use cloo_client::palette::{
    accent, border, muted, primary, raised_surface, success, surface, warning,
};
use cloo_client::proto::{
    Cell, CellAttrs, Color, Direction, Point, Size, TabId, TabSummary,
};
use cloo_client::theme::{Theme, ThemeToken};
use cloo_client::time::{Duration, Instant};

fn start_of_time() -> Instant {
    Instant {
        nanos: 1_000_000_000,
    }
}

/// A palette a terminal with sixteen colours can show.
fn sixteen_colours() -> Theme {
    Theme {
        frame: Color::Indexed(0),
        surface: Color::Indexed(0),
        raised_surface: Color::Indexed(8),
        border: Color::Indexed(8),
        accent: Color::Indexed(13),
        primary: Color::Indexed(15),
        muted: Color::Indexed(7),
        success: Color::Indexed(10),
        warning: Color::Indexed(11),
        error: Color::Indexed(9),
        info: Color::Indexed(14),
        default_text: Color::Indexed(15),
    }
}

/// The palette that leaves a terminal's own defaults alone.
fn terminal_palette() -> Theme {
    Theme {
        frame: Color::Default,
        surface: Color::Default,
        default_text: Color::Default,
        ..sixteen_colours()
    }
}

fn nord() -> Theme {
    Theme {
        frame: Color::Rgb(0x24, 0x29, 0x33),
        surface: Color::Rgb(0x2e, 0x34, 0x40),
        raised_surface: Color::Rgb(0x3b, 0x42, 0x52),
        border: Color::Rgb(0x43, 0x4c, 0x5e),
        accent: Color::Rgb(0x88, 0xc0, 0xd0),
        primary: Color::Rgb(0xec, 0xef, 0xf4),
        muted: Color::Rgb(0x61, 0x6e, 0x88),
        success: Color::Rgb(0xa3, 0xbe, 0x8c),
        warning: Color::Rgb(0xeb, 0xcb, 0x8b),
        error: Color::Rgb(0xbf, 0x61, 0x6a),
        info: Color::Rgb(0x81, 0xa1, 0xc1),
        default_text: Color::Rgb(0xd8, 0xde, 0xe9),
    }
}

/// The header's text, with styling discarded.
fn text_of(cells: &[Cell]) -> String {
    cells.iter().map(|c| c.ch).collect()
}

/// The first cell holding `ch`.
fn cell_of(cells: &[Cell], ch: char) -> Cell {
    cells
        .iter()
        .copied()
        .find(|cell| cell.ch == ch)
        .expect("the glyph is present")
}

/// The foreground of the cell holding `ch`.
fn fg_of(cells: &[Cell], ch: char) -> Color {
    cell_of(cells, ch).fg
}

/// The background of the cell holding `ch`.
fn bg_of(cells: &[Cell], ch: char) -> Color {
    cell_of(cells, ch).bg
}

fn wide() -> u16 {
    40
}

// -- Attention --------------------------------------------------------

#[test]
fn every_state_has_a_distinct_ascii_glyph_and_a_label() {
    let all = [
        Attention::Unknown,
        Attention::Working,
        Attention::NeedsInput,
        Attention::Ready,
        Attention::Failed,
        Attention::Quiet,
    ];
    let mut glyphs: Vec<char> = all.iter().map(|a| a.glyph()).collect();
    glyphs.sort_unstable();
    let unique = glyphs.len();
    glyphs.dedup();
    assert_eq!(glyphs.len(), unique, "glyphs must distinguish every state");
    for state in all {
        assert!(state.glyph().is_ascii(), "{state:?} needs an ASCII glyph");
        assert!(!state.label().is_empty(), "{state:?} needs a label");
    }
}

#[test]
fn state_text_and_glyph_carry_the_state_without_color() {
    // A monochrome terminal must still tell these apart.
    for state in [Attention::NeedsInput, Attention::Failed, Attention::Ready] {
        let pane = PaneChrome::new(1, "sh").attention(state);
        let row = header_cells(&pane, wide(), ChromeOptions::default());
        let text = text_of(&row);
        assert!(
            text.contains(state.glyph()) && text.contains(state.label()),
            "{state:?} rendered as {text:?}"
        );
    }
}

// -- Focus versus attention -------------------------------------------

#[test]
fn focus_and_attention_are_independent_signals() {
    let options = ChromeOptions::default();
    let focused_quiet = header_cells(
        &PaneChrome::new(1, "sh")
            .attention(Attention::Quiet)
            .focused(true),
        wide(),
        options,
    );
    let unfocused_needs_input = header_cells(
        &PaneChrome::new(1, "sh").attention(Attention::NeedsInput),
        wide(),
        options,
    );
    assert_ne!(focused_quiet, unfocused_needs_input);
    assert!(text_of(&focused_quiet).starts_with('>'), "focus marker");
    assert!(
        !text_of(&unfocused_needs_input).starts_with('>'),
        "an unfocused pane must not wear the focus marker"
    );
    assert!(text_of(&unfocused_needs_input).contains('!'));
    assert!(text_of(&focused_quiet).contains('-'));
}

#[test]
fn terminal_palette_theme_keeps_focus_and_attention_distinct_without_truecolor() {
    let pane = PaneChrome::new(1, "agent")
        .attention(Attention::NeedsInput)
        .focused(true);
    let options = ChromeOptions::no_dim().with_theme(terminal_palette());
    let row = header_cells(&pane, wide(), options);

    // Both meanings remain readable even when a terminal owns the actual
    // palette: ASCII carries the state, and their ANSI semantic colours do
    // not collapse into one another.
    assert_eq!(fg_of(&row, '>'), Color::Indexed(13));
    assert_eq!(fg_of(&row, '!'), Color::Indexed(11));
    assert!(text_of(&row).contains("! needs input"));
}

#[test]
fn focus_changes_the_accent_and_never_the_state_glyph() {
    let unfocused = header_cells(
        &PaneChrome::new(2, "cursor").attention(Attention::Working),
        wide(),
        ChromeOptions::no_dim(),
    );
    let focused = header_cells(
        &PaneChrome::new(2, "cursor")
            .attention(Attention::Working)
            .focused(true),
        wide(),
        ChromeOptions::no_dim(),
    );
    assert_eq!(
        fg_of(&focused, 'c'),
        accent(),
        "the focused title is accented"
    );
    assert_eq!(fg_of(&unfocused, 'c'), primary());
    assert_eq!(
        fg_of(&focused, '*'),
        fg_of(&unfocused, '*'),
        "focus must not restyle the attention glyph"
    );
}

#[test]
fn a_dimmed_pane_keeps_its_state_apart_from_a_quiet_one() {
    let options = ChromeOptions::default();
    let needs_input = header_cells(
        &PaneChrome::new(1, "sh").attention(Attention::NeedsInput),
        wide(),
        options,
    );
    let quiet = header_cells(
        &PaneChrome::new(1, "sh").attention(Attention::Quiet),
        wide(),
        options,
    );
    assert_ne!(
        fg_of(&needs_input, '!'),
        fg_of(&quiet, '-'),
        "dimming must reduce contrast, never erase the semantic colour"
    );
}

// -- Geometry and truncation ------------------------------------------

#[test]
fn a_header_is_exactly_the_pane_width_at_every_size() {
    let pane = PaneChrome::new(12, "cursor-code")
        .task("refactor the layout pass")
        .attention(Attention::NeedsInput)
        .focused(true)
        .zoomed(true);
    for width in 0_u16..=60 {
        let row = header_cells(&pane, width, ChromeOptions::default());
        assert_eq!(
            row.len(),
            usize::from(width),
            "width {width} produced {} cells",
            row.len()
        );
    }
}

#[test]
fn a_wide_header_shows_index_title_task_and_state() {
    let pane = PaneChrome::new(3, "codex")
        .task("tests")
        .attention(Attention::Working);
    let row = header_cells(&pane, 30, ChromeOptions::default());
    assert_eq!(text_of(&row), "  3 codex - tests    * working");
}

#[test]
fn the_task_label_is_the_first_thing_to_go() {
    let pane = PaneChrome::new(3, "codex")
        .task("tests")
        .attention(Attention::Working);
    let row = header_cells(&pane, 22, ChromeOptions::default());
    let text = text_of(&row);
    assert!(!text.contains("tests"), "got {text:?}");
    assert!(
        text.contains("codex") && text.contains("working"),
        "got {text:?}"
    );
}

#[test]
fn the_state_label_goes_before_the_title_is_truncated() {
    let pane = PaneChrome::new(3, "codex")
        .task("tests")
        .attention(Attention::Working);
    let row = header_cells(&pane, 12, ChromeOptions::default());
    let text = text_of(&row);
    assert_eq!(text, "  3 codex  *");
}

#[test]
fn a_narrow_pane_truncates_the_title_but_keeps_the_glyph() {
    let pane = PaneChrome::new(3, "codex").attention(Attention::Failed);
    let row = header_cells(&pane, 8, ChromeOptions::default());
    assert_eq!(text_of(&row), "  3 co x");
}

#[test]
fn the_glyph_is_the_last_thing_standing() {
    let pane = PaneChrome::new(3, "codex").attention(Attention::Failed);
    assert_eq!(
        text_of(&header_cells(&pane, 1, ChromeOptions::default())),
        "x"
    );
    assert!(header_cells(&pane, 0, ChromeOptions::default()).is_empty());
}

#[test]
fn a_zoomed_pane_says_so_in_its_header() {
    let pane = PaneChrome::new(1, "sh")
        .attention(Attention::Quiet)
        .focused(true)
        .zoomed(true);
    let row = header_cells(&pane, 20, ChromeOptions::no_dim());
    let text = text_of(&row);
    assert!(text.starts_with("> Z 1 sh"), "got {text:?}");
    assert_eq!(fg_of(&row, 'Z'), warning());
}

// -- Dimming ----------------------------------------------------------

#[test]
fn the_no_dim_fallback_leaves_an_unfocused_header_at_full_contrast() {
    let pane = PaneChrome::new(1, "sh").attention(Attention::Ready);
    let dimmed = header_cells(&pane, wide(), ChromeOptions::default());
    let plain = header_cells(&pane, wide(), ChromeOptions::no_dim());
    assert_ne!(dimmed, plain, "dimming must actually change the row");
    assert_eq!(
        fg_of(&plain, '+'),
        success(),
        "undimmed keeps the token exactly"
    );
    assert_eq!(text_of(&dimmed), text_of(&plain), "only colour changes");
}

#[test]
fn a_focused_header_is_never_dimmed() {
    let pane = PaneChrome::new(1, "sh")
        .attention(Attention::Ready)
        .focused(true);
    assert_eq!(
        header_cells(&pane, wide(), ChromeOptions::default()),
        header_cells(&pane, wide(), ChromeOptions::no_dim()),
    );
}

#[test]
fn dimming_a_body_row_is_policy_in_one_place() {
    let cells = vec![Cell {
        ch: 'a',
        fg: primary(),
        bg: Color::Default,
        attrs: CellAttrs::none(),
    }];
    let options = ChromeOptions::default();
    assert_eq!(
        dim_cells(&cells, true, options),
        cells,
        "a focused pane is untouched"
    );
    assert_eq!(
        dim_cells(&cells, false, ChromeOptions::no_dim()),
        cells,
        "the no-dim fallback is untouched"
    );
    assert_ne!(dim_cells(&cells, false, options), cells);
}

#[test]
fn a_body_span_themes_defaults_without_rewriting_explicit_colours() {
    let cells = [
        Cell::default(),
        Cell {
            ch: 'x',
            fg: Color::Rgb(1, 2, 3),
            bg: Color::Indexed(4),
            attrs: CellAttrs::bold(),
        },
    ];
    let original = cells;
    let theme = nord();
    let span = body_span(
        Point::new(2, 3),
        &cells,
        true,
        ChromeOptions::no_dim().with_theme(theme),
    );

    assert_eq!(span.at, Point::new(2, 3));
    assert_eq!(span.cells[0].fg, theme.color(ThemeToken::DefaultText));
    assert_eq!(span.cells[0].bg, theme.color(ThemeToken::Surface));
    assert_eq!(span.cells[1], cells[1]);
    assert_eq!(cells, original, "render-time mapping must not alter input");
}

#[test]
fn active_resize_lights_only_its_divider_and_labels_the_ratio() {
    let points = [Point::new(10, 2), Point::new(10, 3)];
    let spans = resize_affordance_spans(
        &points,
        Direction::Horizontal,
        62,
        Size::new(40, 8),
        Theme::storm(),
    );
    assert_eq!(spans.len(), 3);
    assert_eq!(spans[0].at, points[0]);
    assert_eq!(spans[1].at, points[1]);
    for span in &spans[..2] {
        assert_eq!(text_of(&span.cells), "│");
        assert_eq!(span.cells[0].fg, accent());
        assert!(span.cells[0].attrs.contains(CellAttrs::bold()));
    }
    assert_eq!(spans[2].at.row, 7);
    assert_eq!(text_of(&spans[2].cells), "resize · ratio 0.62");
}

#[test]
fn active_resize_uses_the_sixteen_colour_theme_without_losing_text() {
    let theme = sixteen_colours();
    let spans = resize_affordance_spans(
        &[Point::new(3, 2)],
        Direction::Vertical,
        40,
        Size::new(24, 6),
        theme,
    );
    assert_eq!(spans[0].cells[0].ch, '─');
    assert_eq!(spans[0].cells[0].fg, Color::Indexed(13));
    assert_eq!(
        text_of(&spans.last().expect("a ratio label").cells),
        "resize · ratio 0.40"
    );
}

#[test]
fn terminal_inheritance_keeps_body_defaults() {
    let cells = [Cell::default()];
    let span = body_span(
        Point::new(0, 0),
        &cells,
        true,
        ChromeOptions::no_dim().with_theme(terminal_palette()),
    );
    assert_eq!(span.cells, cells);
}

#[test]
fn a_palette_color_dims_with_the_attribute_rather_than_a_guess() {
    let indexed = Cell {
        ch: 'a',
        fg: Color::Indexed(4),
        bg: Color::Default,
        attrs: CellAttrs::none(),
    };
    let dimmed = dim_cell(indexed);
    assert_eq!(
        dimmed.fg,
        Color::Indexed(4),
        "the palette entry is the user's"
    );
    assert!(dimmed.attrs.contains(CellAttrs::dim()));
}

#[test]
fn a_true_color_cell_dims_by_blending_and_stays_legible() {
    let cell = Cell {
        ch: 'a',
        fg: primary(),
        bg: surface(),
        attrs: CellAttrs::none(),
    };
    let dimmed = dim_cell(cell);
    assert!(
        !dimmed.attrs.contains(CellAttrs::dim()),
        "the blend is the reduction; stacking DIM on it would double-dim"
    );
    let (Color::Rgb(r, _, _), Color::Rgb(dr, _, _)) = (cell.fg, dimmed.fg) else {
        panic!("both are 24-bit");
    };
    assert!(dr < r, "contrast is reduced");
    assert!(dr > 0x50, "text stays readable: got {dr:#04x}");
    assert_ne!(dimmed.bg, cell.bg, "the surface recedes too");
}

// -- Spans ------------------------------------------------------------

#[test]
fn a_header_span_sits_where_the_pane_starts() {
    let pane = PaneChrome::new(1, "sh");
    let span = header_span(Point::new(10, 4), &pane, 12, ChromeOptions::default());
    assert_eq!(span.at, Point::new(10, 4));
    assert_eq!(span.cells.len(), 12);
}

/// Three tabs with the middle one active — the shape every yield rule needs.
fn bar_tabs() -> Vec<TabSummary> {
    vec![
        TabSummary {
            tab: TabId::new(3),
            title: "edit".into(),
            active: false,
        },
        TabSummary {
            tab: TabId::new(8),
            title: "build".into(),
            active: true,
        },
        TabSummary {
            tab: TabId::new(9),
            title: "logs".into(),
            active: false,
        },
    ]
}

fn tab_row_text(bar: TabBar<'_>, width: u16) -> String {
    text_of(&tab_row_cells(bar, width, ChromeOptions::default()))
}

#[test]
fn tab_row_marks_the_active_tab_without_reordering_the_bar() {
    let tabs = bar_tabs();
    let row = tab_row_cells(
        TabBar::new(&tabs).session("dev"),
        32,
        ChromeOptions::default(),
    );

    assert_eq!(text_of(&row), " dev  1 edit >2 build  3 logs   ");
    assert_eq!(row.len(), 32);
    assert_eq!(fg_of(&row, '>'), accent());
    assert_eq!(fg_of(&row, 'd'), surface(), "the badge sits on the accent");
    assert_eq!(bg_of(&row, 'd'), accent());
}

#[test]
fn the_active_tab_chip_is_raised_and_underlined_as_well_as_marked() {
    let tabs = bar_tabs();
    let row = tab_row_cells(TabBar::new(&tabs), 32, ChromeOptions::default());

    let active = cell_of(&row, 'b');
    assert_eq!(active.bg, raised_surface());
    assert!(active.attrs.contains(CellAttrs::underline()));
    assert!(active.attrs.contains(CellAttrs::bold()));

    let inactive = cell_of(&row, 'e');
    assert_eq!(inactive.bg, surface());
    assert_eq!(inactive.attrs, CellAttrs::none());
    assert_eq!(inactive.fg, muted());
}

#[test]
fn the_active_tab_row_marker_survives_without_colour() {
    let tabs = bar_tabs();
    let bar = TabBar::new(&tabs).session("dev").panes(2).clients(1);
    let reference = tab_row_text(bar, 60);

    for theme in [
        Theme::storm(),
        sixteen_colours(),
        terminal_palette(),
    ] {
        let options = ChromeOptions::default().with_theme(theme);
        let row = tab_row_cells(bar, 60, options);
        assert_eq!(
            text_of(&row),
            reference,
            "no theme may change which characters the row draws"
        );
        let active = cell_of(&row, 'b');
        assert!(
            active.attrs.contains(CellAttrs::underline()),
            "the lower-edge treatment must not depend on colour"
        );
        assert!(reference.contains(">2 build"));
    }
}

#[test]
fn tab_row_metadata_is_right_aligned_and_yields_before_any_tab() {
    let tabs = bar_tabs();
    let bar = TabBar::new(&tabs).session("dev").panes(2).clients(1);

    // Widest: badge, every chip, and the spelled-out metadata.
    assert_eq!(
        tab_row_text(bar, 60),
        " dev  1 edit >2 build  3 logs              2 panes  1 client"
    );
    // Metadata compacts before a tab is given up.
    assert_eq!(
        tab_row_text(bar, 40),
        " dev  1 edit >2 build  3 logs      2p 1c"
    );
    // Then disappears, still before a tab is given up.
    assert_eq!(tab_row_text(bar, 32), " dev  1 edit >2 build  3 logs   ");
}

#[test]
fn a_narrow_tab_row_yields_tabs_then_the_badge_then_the_title() {
    let tabs = bar_tabs();
    let bar = TabBar::new(&tabs).session("dev").panes(2).clients(1);

    // The far-right inactive tab goes first, then the far-left one.
    assert_eq!(tab_row_text(bar, 24), " dev  1 edit >2 build   ");
    assert_eq!(tab_row_text(bar, 16), " dev >2 build   ");
    // Only then does the badge reduce to its glyph, and then disappear.
    assert_eq!(tab_row_text(bar, 12), " s >2 build ");
    assert_eq!(tab_row_text(bar, 8), ">2 build");
    // Below that the title truncates, and the marker is the last thing left.
    assert_eq!(tab_row_text(bar, 5), ">2 bu");
    assert_eq!(tab_row_text(bar, 3), ">2 ");
    assert_eq!(tab_row_text(bar, 1), ">");
}

#[test]
fn a_tab_row_omits_metadata_the_daemon_has_not_published() {
    let tabs = bar_tabs();
    // No session name and no client count: nothing is invented for either.
    let row = tab_row_text(TabBar::new(&tabs).panes(1), 40);
    assert_eq!(row, " 1 edit >2 build  3 logs          1 pane");
    assert!(!row.contains("client"));

    // An empty projected name is absent, not a zero-width badge.
    assert_eq!(
        tab_row_text(TabBar::new(&tabs).session(""), 30),
        " 1 edit >2 build  3 logs      "
    );
}

#[test]
fn a_tab_row_span_keeps_the_caller_position() {
    let span = tab_row_span(
        Point::new(2, 0),
        TabBar::new(&[]),
        10,
        ChromeOptions::default(),
    );
    assert_eq!(span.at, Point::new(2, 0));
    assert_eq!(span.cells.len(), 10);
}

// -- Attention queue --------------------------------------------------

/// The pane indices in the queue, newest first.
fn order(queue: &AttentionQueue) -> Vec<u16> {
    queue.entries().iter().map(|entry| entry.index).collect()
}

#[test]
fn only_actionable_states_enter_the_queue() {
    let mut queue = AttentionQueue::new();
    for state in [Attention::Unknown, Attention::Working, Attention::Quiet] {
        queue.record(1, "sh", state);
    }
    assert!(queue.is_empty(), "progress and no-news are not queued");
    for state in [Attention::NeedsInput, Attention::Ready, Attention::Failed] {
        assert!(state.is_actionable(), "{state:?} must be queued");
    }
}

#[test]
fn the_queue_lists_newest_first() {
    let mut queue = AttentionQueue::new();
    queue.record(1, "a", Attention::NeedsInput);
    queue.record(2, "b", Attention::Ready);
    queue.record(3, "c", Attention::Failed);
    assert_eq!(order(&queue), vec![3, 2, 1]);
    assert_eq!(queue.count(), 3);
}

#[test]
fn a_repeat_of_the_same_state_coalesces_without_reordering() {
    let mut queue = AttentionQueue::new();
    queue.record(1, "a", Attention::NeedsInput);
    queue.record(2, "b", Attention::Ready);
    // Pane 1 re-announces the same state every tick.
    queue.record(1, "a", Attention::NeedsInput);
    queue.record(1, "a", Attention::NeedsInput);
    assert_eq!(
        order(&queue),
        vec![2, 1],
        "a repeat must not churn the list"
    );
    assert_eq!(queue.count(), 2);
}

#[test]
fn a_changed_state_moves_the_pane_to_the_front() {
    let mut queue = AttentionQueue::new();
    queue.record(1, "a", Attention::NeedsInput);
    queue.record(2, "b", Attention::Ready);
    queue.record(1, "a", Attention::Failed);
    assert_eq!(order(&queue), vec![1, 2], "a new event is the newest");
    assert_eq!(queue.entries()[0].attention, Attention::Failed);
}

#[test]
fn acknowledging_removes_a_pane_and_blocks_the_same_state_returning() {
    let mut queue = AttentionQueue::new();
    queue.record(1, "a", Attention::NeedsInput);
    assert_eq!(queue.acknowledge(1), Some(1));
    assert!(queue.is_empty());
    // The harness keeps announcing needs_input; the user already cleared it.
    queue.record(1, "a", Attention::NeedsInput);
    assert!(
        queue.is_empty(),
        "an acknowledged state must not refill the queue"
    );
}

#[test]
fn a_different_state_after_acknowledgment_alerts_again() {
    let mut queue = AttentionQueue::new();
    queue.record(1, "a", Attention::NeedsInput);
    queue.acknowledge(1);
    queue.record(1, "a", Attention::Failed);
    assert_eq!(order(&queue), vec![1], "a genuinely new event is heard");
}

#[test]
fn returning_to_a_quiet_state_forgets_the_acknowledgment() {
    let mut queue = AttentionQueue::new();
    queue.record(1, "a", Attention::NeedsInput);
    queue.acknowledge(1);
    // The pane finishes and later needs input again: a fresh event.
    queue.record(1, "a", Attention::Quiet);
    queue.record(1, "a", Attention::NeedsInput);
    assert_eq!(
        order(&queue),
        vec![1],
        "a lull resets the slate for the next real event"
    );
}

#[test]
fn a_pane_leaving_the_queue_drops_its_entry() {
    let mut queue = AttentionQueue::new();
    queue.record(1, "a", Attention::NeedsInput);
    queue.record(2, "b", Attention::Ready);
    queue.record(1, "a", Attention::Working);
    assert_eq!(order(&queue), vec![2], "working is not an ask");
}

#[test]
fn navigation_and_focus_track_the_selected_entry() {
    let mut queue = AttentionQueue::new();
    queue.record(1, "a", Attention::NeedsInput);
    queue.record(2, "b", Attention::Ready);
    queue.record(3, "c", Attention::Failed);
    // Order is [3, 2, 1]; the cursor starts at the newest.
    assert_eq!(queue.focus_target(), Some(3));
    queue.select_next();
    assert_eq!(queue.focus_target(), Some(2));
    queue.select_next();
    queue.select_next();
    assert_eq!(queue.focus_target(), Some(1), "selection clamps at the end");
    queue.select_prev();
    assert_eq!(queue.focus_target(), Some(2));
}

#[test]
fn acknowledge_selected_clears_the_cursor_entry() {
    let mut queue = AttentionQueue::new();
    queue.record(1, "a", Attention::NeedsInput);
    queue.record(2, "b", Attention::Ready);
    // Order [2, 1]; cursor on 2.
    assert_eq!(queue.acknowledge_selected(), Some(2));
    assert_eq!(order(&queue), vec![1]);
}

// -- Summary rendering ------------------------------------------------

#[test]
fn the_summary_tallies_each_state_with_a_glyph_and_colour() {
    let mut queue = AttentionQueue::new();
    queue.record(1, "a", Attention::NeedsInput);
    queue.record(2, "b", Attention::NeedsInput);
    queue.record(3, "c", Attention::Failed);
    let cells = summary_cells(&queue);
    // Fixed urgency order: needs_input, then failed.
    assert_eq!(text_of(&cells), "2! 1x");
    assert_eq!(fg_of(&cells, '!'), Attention::NeedsInput.color());
    assert_eq!(fg_of(&cells, 'x'), Attention::Failed.color());
}

#[test]
fn an_empty_queue_summarises_to_nothing() {
    assert!(summary_cells(&AttentionQueue::new()).is_empty());
}

#[test]
fn a_summary_span_sits_where_it_is_placed() {
    let mut queue = AttentionQueue::new();
    queue.record(1, "a", Attention::Ready);
    let span = summary_span(Point::new(3, 0), &queue);
    assert_eq!(span.at, Point::new(3, 0));
    assert!(!span.cells.is_empty());
}

// -- Status bar ------------------------------------------------------

fn status_tabs() -> Vec<TabSummary> {
    vec![
        TabSummary {
            tab: TabId::new(3),
            title: "shell".into(),
            active: false,
        },
        TabSummary {
            tab: TabId::new(8),
            title: "build".into(),
            active: true,
        },
    ]
}

fn status_queue() -> AttentionQueue {
    let mut queue = AttentionQueue::new();
    queue.record(1, "lint", Attention::NeedsInput);
    queue.record(2, "test", Attention::NeedsInput);
    queue.record(3, "build", Attention::Failed);
    queue
}

fn status_text(
    tabs: &[TabSummary],
    queue: &AttentionQueue,
    hint: &PrefixHint,
    width: u16,
) -> String {
    text_of(&status_bar_cells(
        StatusBar::new(tabs, queue, hint).session("main"),
        width,
        ChromeOptions::default(),
    ))
}

#[test]
fn status_bar_reference_width_has_truthful_segmented_fields() {
    let tabs = status_tabs();
    let queue = status_queue();
    let hint = PrefixHint::default();
    let repository = RepositoryStatus {
        branch: Some("feature/status".to_owned()),
        changes: 2,
    };
    let row = status_bar_cells(
        StatusBar::new(&tabs, &queue, &hint)
            .session("main")
            .clients(2)
            .repository(&repository)
            .clock("14:38"),
        96,
        ChromeOptions::default(),
    );
    let text = text_of(&row);
    for field in [
        "s main",
        " 1 shell ",
        ">2 build",
        "2! 1x",
        "git feature/status +2",
        "2 clients",
        "C-b",
        "14:38",
    ] {
        assert!(text.contains(field), "missing {field:?} in {text:?}");
    }
    assert_eq!(
        bg_of(&row, 's'),
        accent(),
        "the session is the accent segment"
    );
    assert_eq!(fg_of(&row, '>'), accent(), "the active tab stays visible");
    assert_eq!(fg_of(&row, '!'), Attention::NeedsInput.color());
}

#[test]
fn status_bar_yields_optional_detail_before_required_markers() {
    let tabs = status_tabs();
    let queue = status_queue();
    let hint = PrefixHint::default();
    let repository = RepositoryStatus {
        branch: Some("main".to_owned()),
        changes: 2,
    };
    let bar = StatusBar::new(&tabs, &queue, &hint)
        .session("main")
        .clients(2)
        .repository(&repository)
        .clock("14:38");
    let wide = text_of(&status_bar_cells(bar, 80, ChromeOptions::default()));
    let narrow = text_of(&status_bar_cells(bar, 30, ChromeOptions::default()));
    assert!(wide.contains("14:38") && wide.contains("git main +2"));
    assert!(!narrow.contains("14:38") && !narrow.contains("git"));
    for marker in ['s', '>', '!', 'b'] {
        assert!(
            narrow.contains(marker),
            "required marker {marker:?}: {narrow:?}"
        );
    }
    assert_eq!(
        text_of(&status_bar_cells(bar, 4, ChromeOptions::default())),
        "s>!b",
        "four ASCII markers keep every field at the narrowest useful size"
    );
}

#[test]
fn a_status_bar_uses_ascii_tokens_and_a_zero_attention_count() {
    let tabs = status_tabs();
    let queue = AttentionQueue::new();
    let hint = PrefixHint::default();
    let row = status_bar_cells(
        StatusBar::new(&tabs, &queue, &hint).session("main"),
        40,
        ChromeOptions::default(),
    );
    let text = text_of(&row);
    assert!(row.iter().all(|cell| cell.ch.is_ascii()));
    assert!(text.contains("0!"), "zero is an explicit attention count");
    assert!(text.contains(DEFAULT_PREFIX_HINT));
}

#[test]
fn a_status_bar_span_keeps_its_origin_and_width() {
    let tabs = status_tabs();
    let queue = AttentionQueue::new();
    let hint = PrefixHint::default();
    let span = status_bar_span(
        Point::new(4, 23),
        StatusBar::new(&tabs, &queue, &hint).session("main"),
        20,
        ChromeOptions::default(),
    );
    assert_eq!(span.at, Point::new(4, 23));
    assert_eq!(span.cells.len(), 20);
}

#[test]
fn powerline_status_reference_width_renders_every_available_field() {
    let tabs = status_tabs();
    let queue = status_queue();
    let hint = PrefixHint::default();
    let repository = RepositoryStatus {
        branch: Some("feature/status".to_owned()),
        changes: 2,
    };
    let row = status_bar_cells(
        StatusBar::new(&tabs, &queue, &hint)
            .mode(StatusMode::Powerline)
            .session("main")
            .clients(2)
            .effective_size(Size::new(132, 38))
            .repository(&repository)
            .clock("14:38"),
        96,
        ChromeOptions::default(),
    );
    let text = text_of(&row);
    for field in [
        "NORMAL",
        "s main",
        ">2 build",
        "git feature/status +2",
        "2 clients · min 132x38",
        "14:38",
    ] {
        assert!(text.contains(field), "missing {field:?} in {text:?}");
    }
    assert_eq!(
        text.matches('\u{e0b0}').count(),
        4,
        "one glyph per boundary"
    );
    assert_eq!(bg_of(&row, 'N'), accent());
    assert_eq!(fg_of(&row, '>'), accent());
    let separator = cell_of(&row, '\u{e0b0}');
    assert_eq!(separator.fg, accent());
    assert_eq!(separator.bg, border());
}

#[test]
fn powerline_status_uses_attention_when_repository_data_is_unavailable() {
    let tabs = status_tabs();
    let queue = status_queue();
    let hint = PrefixHint::default();
    let text = text_of(&status_bar_cells(
        StatusBar::new(&tabs, &queue, &hint)
            .mode(StatusMode::Powerline)
            .session("main"),
        50,
        ChromeOptions::default(),
    ));
    assert!(
        text.contains("2! 1x"),
        "attention is the truthful fallback: {text:?}"
    );
    assert!(
        !text.contains("git"),
        "no repository answer was supplied: {text:?}"
    );
}

#[test]
fn powerline_status_flat_fallback_keeps_field_truth_and_order() {
    let tabs = status_tabs();
    let queue = status_queue();
    let hint = PrefixHint::default();
    let repository = RepositoryStatus {
        branch: Some("main".to_owned()),
        changes: 2,
    };
    let base = StatusBar::new(&tabs, &queue, &hint)
        .mode(StatusMode::Powerline)
        .session("main")
        .repository(&repository);
    let glyph = text_of(&status_bar_cells(base, 50, ChromeOptions::default()));
    let flat = text_of(&status_bar_cells(
        base.powerline_separators(false),
        50,
        ChromeOptions::default(),
    ));

    assert!(glyph.contains('\u{e0b0}'));
    assert!(!flat.contains('\u{e0b0}'));
    let positions = ["NORMAL", "s main", ">2 build", "git main +2"].map(|field| {
        flat.find(field)
            .unwrap_or_else(|| panic!("missing {field:?} in {flat:?}"))
    });
    assert!(positions.windows(2).all(|pair| pair[0] < pair[1]));
}

#[test]
fn powerline_status_has_exact_narrow_goldens_and_ascii_floor() {
    let tabs = status_tabs();
    let queue = status_queue();
    let hint = PrefixHint::default();
    let repository = RepositoryStatus {
        branch: Some("main".to_owned()),
        changes: 2,
    };
    let bar = StatusBar::new(&tabs, &queue, &hint)
        .mode(StatusMode::Powerline)
        .session("main")
        .repository(&repository);
    for (width, expected) in [
        (
            42,
            " NORMAL \u{e0b0} s main \u{e0b0} >2 build \u{e0b0} git main +2 ",
        ),
        (
            37,
            " NORMAL \u{e0b0} s main \u{e0b0} >2 build \u{e0b0} git +2 ",
        ),
        (31, " NORMAL \u{e0b0} s main \u{e0b0} >2 \u{e0b0} git +2 "),
        (26, " NORMAL \u{e0b0} s \u{e0b0} >2 \u{e0b0} git +2 "),
        (25, " NORMAL \u{e0b0} s \u{e0b0} > \u{e0b0} git +2 "),
        (15, " N \u{e0b0} s \u{e0b0} > \u{e0b0} g "),
        (4, "Ns>g"),
    ] {
        assert_eq!(
            text_of(&status_bar_cells(bar, width, ChromeOptions::default())),
            expected,
            "width {width}"
        );
    }
    let floor = status_bar_cells(bar, 4, ChromeOptions::default());
    assert_eq!(floor[0].fg, accent(), "the mode marker remains visible");
}

#[test]
fn powerline_status_sixteen_color_golden_keeps_text_and_uses_indexed_roles() {
    let tabs = status_tabs();
    let queue = status_queue();
    let hint = PrefixHint::default();
    let bar = StatusBar::new(&tabs, &queue, &hint)
        .mode(StatusMode::Powerline)
        .session("main");
    let reference = status_bar_cells(bar, 40, ChromeOptions::default());
    let ansi_theme = sixteen_colours();
    let ansi = status_bar_cells(bar, 40, ChromeOptions::default().with_theme(ansi_theme));
    assert_eq!(text_of(&ansi), text_of(&reference));
    assert!(ansi.iter().all(|cell| !matches!(cell.fg, Color::Rgb(..))));
    assert!(ansi.iter().all(|cell| !matches!(cell.bg, Color::Rgb(..))));
    assert_eq!(bg_of(&ansi, 'N'), Color::Indexed(13));
}

// -- First-attach shortcut hints ---------------------------------------

/// The row a workspace with `panes` panes draws at `width`.
fn hinted_row(hint: &PrefixHint, width: u16) -> String {
    let tabs = status_tabs();
    let queue = AttentionQueue::new();
    status_text(&tabs, &queue, hint, width)
}

#[test]
fn one_pane_spends_trailing_width_on_the_split_stack_and_help_clues() {
    let hint = PrefixHint::for_panes("C-b", 1);
    assert!(hint.is_guided(), "one pane is the first-attach shape");
    let row = hinted_row(&hint, 60);
    assert!(
        row.contains("s main") && row.contains("C-b split % stack \" help ?"),
        "the widest form names the workspace and all three clues: {row:?}"
    );
}

#[test]
fn a_second_pane_wins_the_clue_width_back() {
    let hint = PrefixHint::for_panes("C-b", 2);
    assert!(!hint.is_guided());
    let row = hinted_row(&hint, 48);
    assert!(row.contains("s main") && row.contains("C-b"), "{row:?}");
    assert!(
        !row.contains("split %"),
        "past the first pane guidance is gone: {row:?}"
    );
}

#[test]
fn the_clues_yield_from_the_end_before_any_core_field_does() {
    let hint = PrefixHint::for_panes("C-b", 1);
    // Every rung below still carries the session, active tab, and attention
    // tab, and attention fields are untouched while the clues are spent.
    for (width, expected) in [
        (60, "C-b split % stack \" help ?"),
        (53, "C-b split % stack \""),
        (45, "C-b split %"),
    ] {
        let row = hinted_row(&hint, width);
        for core in ["s main", "1 shell", ">2 build", "0!"] {
            assert!(
                row.contains(core),
                "core field {core:?} yielded before the clues at width {width}: {row:?}"
            );
        }
        assert!(
            row.trim_end().ends_with(expected),
            "width {width} expected the hint {expected:?}, got {row:?}"
        );
    }
}

#[test]
fn a_configured_prefix_is_drawn_verbatim_down_to_its_last_marker() {
    let hint = PrefixHint::for_panes("M-Space", 1);
    assert_eq!(hint.prefix(), "M-Space");
    assert!(
        hinted_row(&hint, 50).contains("M-Space split %"),
        "the configured chord, not a hard-coded C-b"
    );
    assert_eq!(
        hinted_row(&hint, 4),
        "s>!e",
        "the marker is the configured spelling's own last character"
    );
}

#[test]
fn a_pending_prefix_is_textually_distinct_and_offers_the_clues() {
    let settled = PrefixHint::for_panes("C-b", 4);
    let pending = settled.clone().pending(true);
    assert!(!settled.is_pending() && pending.is_pending());

    let settled_row = hinted_row(&settled, 62);
    let pending_row = hinted_row(&pending, 62);
    assert!(
        !settled_row.contains("[C-b]"),
        "a settled prefix is never bracketed: {settled_row:?}"
    );
    assert!(
        pending_row.contains("[C-b] split % stack \" help ?"),
        "a pending prefix is bracketed and explains itself: {pending_row:?}"
    );
    assert_eq!(
        fg_of(
            &status_bar_cells(
                StatusBar::new(&status_tabs(), &AttentionQueue::new(), &pending)
                    .session("main"),
                62,
                ChromeOptions::default(),
            ),
            '['
        ),
        accent(),
        "colour supplements the bracket rather than carrying it"
    );
}

#[test]
fn every_hinted_row_is_exactly_its_width_and_ascii_at_every_width() {
    let hint = PrefixHint::for_panes("C-b", 1).pending(true);
    let tabs = status_tabs();
    let queue = status_queue();
    for width in 0..=60_u16 {
        let row = status_bar_cells(
            StatusBar::new(&tabs, &queue, &hint).session("main"),
            width,
            ChromeOptions::default(),
        );
        assert_eq!(row.len(), usize::from(width), "width {width}");
        assert!(
            row.iter().all(|cell| cell.ch.is_ascii()),
            "width {width} rendered a non-ASCII signal"
        );
    }
}

#[test]
fn the_default_hint_is_the_documented_default_spelling() {
    let hint = PrefixHint::default();
    assert_eq!(hint.prefix(), "C-b");
    assert!(!hint.is_guided());
    assert!(hinted_row(&hint, 40).contains(DEFAULT_PREFIX_HINT));
}

// -- Queue row rendering ----------------------------------------------

#[test]
fn every_actionable_state_renders_text_glyph_and_colour_in_a_row() {
    for state in [Attention::NeedsInput, Attention::Ready, Attention::Failed] {
        // A title free of any state glyph, so the glyph lookup is unambiguous.
        let entry = QueueEntry {
            index: 2,
            title: "agent".into(),
            attention: state,
        };
        let row = queue_row_cells(&entry, false, wide());
        let text = text_of(&row);
        assert!(
            text.contains(state.glyph()) && text.contains(state.label()),
            "{state:?} rendered as {text:?}"
        );
        assert_eq!(
            fg_of(&row, state.glyph()),
            state.color(),
            "{state:?} keeps its semantic colour"
        );
    }
}

#[test]
fn a_selected_row_wears_the_cursor_marker_and_an_unselected_one_does_not() {
    let entry = QueueEntry {
        index: 3,
        title: "cursor".into(),
        attention: Attention::NeedsInput,
    };
    let selected = queue_row_cells(&entry, true, wide());
    let plain = queue_row_cells(&entry, false, wide());
    assert!(text_of(&selected).starts_with('>'), "the cursor is visible");
    assert!(!text_of(&plain).starts_with('>'));
    assert_eq!(fg_of(&selected, 'c'), accent(), "the selected title accents");
}

#[test]
fn a_queue_row_is_exactly_the_width_at_every_size() {
    let entry = QueueEntry {
        index: 12,
        title: "cursor-code".into(),
        attention: Attention::Failed,
    };
    for width in 0_u16..=40 {
        assert_eq!(
            queue_row_cells(&entry, true, width).len(),
            usize::from(width)
        );
    }
}

#[test]
fn a_queue_row_span_carries_its_origin() {
    let entry = QueueEntry {
        index: 1,
        title: "sh".into(),
        attention: Attention::Ready,
    };
    let span = queue_row_span(Point::new(5, 7), &entry, false, 20);
    assert_eq!(span.at, Point::new(5, 7));
    assert_eq!(span.cells.len(), 20);
}

// -- Toasts -----------------------------------------------------------

/// A toast with a repeat count, without going through a deck.
fn repeated_toast(index: u16, title: &str, attention: Attention, repeats: u32) -> Toast {
    let mut toast = Toast::new(index, title, attention, start_of_time());
    toast.repeats = repeats;
    toast
}

#[test]
fn a_toast_deck_is_bounded_and_evicts_the_oldest() {
    let now = start_of_time();
    let mut deck = ToastDeck::new(2);
    deck.push(1, "a", Attention::NeedsInput, now);
    deck.push(2, "b", Attention::Ready, now);
    deck.push(3, "c", Attention::Failed, now);
    assert_eq!(deck.len(), 2, "capacity is never exceeded");
    let indices: Vec<u16> = deck.toasts().iter().map(|toast| toast.index).collect();
    assert_eq!(indices, vec![2, 3], "the oldest was dropped");
}

#[test]
fn a_repeat_toast_coalesces_and_moves_to_the_newest() {
    let now = start_of_time();
    let mut deck = ToastDeck::new(3);
    deck.push(1, "a", Attention::NeedsInput, now);
    deck.push(2, "b", Attention::Ready, now);
    deck.push(1, "a", Attention::Failed, now);
    assert_eq!(deck.len(), 1 + 1, "a repeat is one notice, not two");
    let toasts: Vec<&Toast> = deck.toasts().iter().collect();
    assert_eq!(toasts[0].index, 2, "the untouched toast is now oldest");
    assert_eq!(toasts[1].index, 1);
    assert_eq!(toasts[1].repeats, 2);
    assert_eq!(toasts[1].attention, Attention::Failed, "state refreshes");
}

#[test]
fn a_zero_capacity_deck_still_holds_one() {
    let mut deck = ToastDeck::new(0);
    deck.push(1, "a", Attention::NeedsInput, start_of_time());
    assert_eq!(deck.len(), 1);
}

#[test]
fn dismissing_removes_a_panes_toast() {
    let now = start_of_time();
    let mut deck = ToastDeck::new(3);
    deck.push(1, "a", Attention::NeedsInput, now);
    deck.push(2, "b", Attention::Ready, now);
    deck.dismiss(1);
    let indices: Vec<u16> = deck.toasts().iter().map(|toast| toast.index).collect();
    assert_eq!(indices, vec![2]);
}

#[test]
fn a_closed_panes_position_takes_its_toast_with_it() {
    let now = start_of_time();
    let mut deck = ToastDeck::new(3);
    deck.push(1, "a", Attention::NeedsInput, now);
    deck.push(3, "c", Attention::Failed, now);
    deck.retain_within(2);
    let indices: Vec<u16> = deck.toasts().iter().map(|toast| toast.index).collect();
    assert_eq!(indices, vec![1], "a notice never outlives its pane");
}

// -- Toast lifetime and entrance --------------------------------------

#[test]
fn a_toast_dismisses_itself_on_its_own_deadline() {
    let now = start_of_time();
    let mut deck = ToastDeck::new(3).lifetime(Duration::from_secs(1));
    deck.push(1, "cursor", Attention::NeedsInput, now);
    assert_eq!(
        deck.toasts().front().map(|toast| toast.expires_at()),
        Some(now.plus(Duration::from_secs(1)))
    );

    assert!(!deck.is_empty());
    let _ = deck.tick(now.plus(Duration::from_millis(999)));
    assert_eq!(deck.len(), 1, "a notice inside its lifetime stays up");
    assert!(
        deck.tick(now.plus(Duration::from_secs(1))),
        "the deadline passing changes the frame"
    );
    assert!(deck.is_empty(), "a toast never covers a pane indefinitely");
    assert!(
        !deck.tick(now.plus(Duration::from_secs(30))),
        "an empty deck asks for no further frames"
    );
}

#[test]
fn a_refreshed_toast_restarts_its_deadline() {
    let now = start_of_time();
    let mut deck = ToastDeck::new(3).lifetime(Duration::from_secs(1));
    deck.push(1, "cursor", Attention::NeedsInput, now);
    deck.push(
        1,
        "cursor",
        Attention::Failed,
        now.plus(Duration::from_millis(900)),
    );
    let _ = deck.tick(now.plus(Duration::from_secs(1)));
    assert_eq!(
        deck.len(),
        1,
        "the refresh, not the first raise, is the clock"
    );
    let _ = deck.tick(now.plus(Duration::from_millis(1900)));
    assert!(deck.is_empty());
}

#[test]
fn an_entrance_is_frame_budgeted_and_settles_into_the_chromes_own_cells() {
    let now = start_of_time();
    let mut deck = ToastDeck::new(3);
    deck.push(1, "cursor", Attention::NeedsInput, now);
    let entering = deck.toasts().front().expect("one toast").phase();
    assert_eq!(entering.map(|phase| phase.step()), Some(0), "it enters over frames");

    // Sampled far faster than the frame budget — a burst of PTY reads —
    // the entrance still advances at most once per budget.
    let mut frames = 0;
    for n in 0..1000 {
        if deck.tick(now.plus(Duration::from_micros(n * 200))) {
            frames += 1;
        }
    }
    assert!(
        frames <= usize::from(MOTION_STEPS),
        "{frames} frames for one entrance"
    );
    assert_eq!(
        deck.toasts().front().expect("one toast").phase(),
        None,
        "a settled toast draws the chrome's own cells"
    );
}

#[test]
fn reduce_motion_gives_a_toast_no_entrance_at_all() {
    let now = start_of_time();
    let mut deck = ToastDeck::new(3).motion(MotionSettings::reduced());
    deck.push(1, "cursor", Attention::NeedsInput, now);
    assert_eq!(deck.toasts().front().expect("one toast").phase(), None);
    assert!(
        !deck.tick(now.plus(frame_budget())),
        "reduce-motion asks for no entrance frames"
    );
}

#[test]
fn changing_the_motion_preference_keeps_the_stack() {
    let now = start_of_time();
    let mut deck = ToastDeck::new(3);
    deck.push(1, "cursor", Attention::NeedsInput, now);
    deck.set_motion(MotionSettings::reduced());
    assert_eq!(deck.len(), 1, "a preference change is not a dismissal");
    assert_eq!(deck.toasts().front().expect("one toast").phase(), None);
}

// -- Toast rendering and placement ------------------------------------

#[test]
fn a_toast_line_carries_text_glyph_colour_and_a_repeat_count() {
    let toast = repeated_toast(2, "codex", Attention::NeedsInput, 3);
    let cells = toast_cells(&toast, 40);
    let text = text_of(&cells);
    assert_eq!(text, "codex ! needs input (x3)");
    assert_eq!(fg_of(&cells, '!'), Attention::NeedsInput.color());
}

#[test]
fn a_single_toast_omits_the_repeat_count() {
    let toast = repeated_toast(1, "sh", Attention::Ready, 1);
    assert_eq!(text_of(&toast_cells(&toast, 40)), "sh + ready");
}

#[test]
fn a_toast_is_truncated_to_width_rather_than_padded() {
    let toast = repeated_toast(1, "sh", Attention::Ready, 1);
    assert_eq!(toast_cells(&toast, 4).len(), 4);
    assert!(toast_cells(&toast, 0).is_empty());
}

#[test]
fn a_sixteen_colour_toast_says_the_same_thing_the_truecolour_one_does() {
    let toast = repeated_toast(1, "build", Attention::Failed, 2);
    let ansi = sixteen_colours();
    assert_eq!(
        text_of(&toast_cells_in(&toast, 40, ansi)),
        text_of(&toast_cells(&toast, 40)),
        "glyph, label, and repeat count never depend on the palette"
    );
    assert_eq!(
        fg_of(&toast_cells_in(&toast, 40, ansi), 'x'),
        Attention::Failed.color_in(ansi),
        "the state still resolves through the client theme"
    );
    let cells = toast_cells_in(&toast, 40, ansi);
    assert!(
        cells.iter().all(
            |cell| !matches!(cell.fg, Color::Rgb(..)) && !matches!(cell.bg, Color::Rgb(..))
        ),
        "a notice must not leave one RGB rectangle over an indexed frame"
    );
    assert_eq!(cells[0].bg, ansi.color(ThemeToken::Surface));
}

#[test]
fn the_stack_sits_between_the_tab_and_status_rows() {
    let outer = Size::new(80, 24);
    assert_eq!(
        toast_rows(outer, 3, None),
        vec![1, 2, 3],
        "the tab row is row zero and is never covered"
    );
    assert!(
        toast_rows(outer, 40, None).iter().all(|row| *row < 23),
        "the status row is never covered either"
    );
    assert!(
        toast_rows(Size::new(80, 2), 3, None).is_empty(),
        "a frame with no room between its chrome rows shows none"
    );
}

#[test]
fn the_focused_cursors_row_is_skipped_rather_than_drawn_over() {
    let rows = toast_rows(Size::new(80, 24), 2, Some(2));
    assert_eq!(
        rows,
        vec![1, 3],
        "a notice never covers the line being typed"
    );
}

#[test]
fn a_stacked_toast_is_right_aligned_inside_the_frame() {
    let outer = Size::new(80, 24);
    let toast = repeated_toast(1, "cursor", Attention::NeedsInput, 1);
    let span = toast_stack_span(outer, 1, &toast, Theme::storm());
    let len = u16::try_from(span.cells.len()).expect("a short notice");
    assert_eq!(span.at.row, 1);
    assert_eq!(
        span.at.col + len + TOAST_MARGIN,
        outer.cols,
        "the stack floats against the right edge, inside the margin"
    );
    assert_eq!(text_of(&span.cells), "cursor ! needs input");
}

#[test]
fn a_narrow_frame_truncates_a_toast_rather_than_overflowing_it() {
    let outer = Size::new(12, 24);
    let toast = repeated_toast(1, "cursor", Attention::NeedsInput, 1);
    let span = toast_stack_span(outer, 1, &toast, Theme::storm());
    let len = u16::try_from(span.cells.len()).expect("a short notice");
    assert!(
        len <= outer.cols - TOAST_MARGIN * 2,
        "{len} cells in {outer:?}"
    );
    assert!(span.at.col + len <= outer.cols);
}

#[test]
fn a_header_reads_as_documented() {
    let pane = PaneChrome::new(1, "cursor").attention(Attention::NeedsInput);
    let row = header_cells(&pane, 24, ChromeOptions::default());
    assert_eq!(text_of(&row), "  1 cursor ! needs input");
}

#[test]
fn dimmed_states_stay_apart() {
    let states = [Attention::NeedsInput, Attention::Ready, Attention::Failed];
    for a in states {
        for b in states {
            let dimmed = |state: Attention| {
                dim_cell(Cell {
                    ch: state.glyph(),
                    fg: state.color(),
                    bg: surface(),
                    attrs: CellAttrs::none(),
                })
                .fg
            };
            assert_eq!(a == b, dimmed(a) == dimmed(b));
        }
    }
}

#[test]
fn an_empty_title_drops_nothing_else_of_a_header() {
    let pane = PaneChrome::new(1, "");
    assert_eq!(
        text_of(&header_cells(&pane, 24, ChromeOptions::no_dim())),
        "  1            ? unknown"
    );
    assert_eq!(
        text_of(&header_cells(&pane, 6, ChromeOptions::no_dim())),
        "  1  ?",
        "the narrowest row that holds the label and the glyph"
    );
    assert_eq!(
        text_of(&header_cells(&pane, 5, ChromeOptions::no_dim())),
        "    ?",
        "the glyph is the last thing standing"
    );
}

#[test]
fn a_settled_entrance_stays_settled_until_its_pane_is_raised_again() {
    let now = start_of_time();
    let whole = frame_budget().times(u32::from(MOTION_STEPS));
    let mut deck = ToastDeck::new(3);
    deck.push(1, "a", Attention::NeedsInput, now);
    let drawn = deck.toasts()[0].phase().expect("an entrance is drawn");
    assert!(!drawn.is_settled());
    assert_eq!(drawn.kind(), MotionKind::Overlay);

    let done = now.plus(whole);
    deck.tick(done);
    assert_eq!(deck.toasts()[0].phase(), None);
    deck.push(2, "b", Attention::Ready, done);
    deck.tick(now);
    assert_eq!(deck.toasts()[0].phase(), None, "not even a clock gone back");

    deck.push(1, "a", Attention::Failed, done);
    assert!(deck.toasts()[1].phase().is_some(), "a repeat enters anew");

    let mut still = ToastDeck::new(3).motion(MotionSettings::reduced());
    still.push(1, "a", Attention::NeedsInput, now);
    assert_eq!(still.toasts()[0].phase(), None);
}
