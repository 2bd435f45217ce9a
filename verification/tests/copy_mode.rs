use cloo_client::copy_mode::{
    copy_bytes, copy_request, highlight_spans, status_cells, viewport_row, Highlight,
};
use cloo_client::effects::EffectPolicy;
use cloo_client::proto::{
    Action, Cell, CellAttrs, ClientMessage, ClipboardTarget, CopyModeState, CopySelection,
    OuterTerminalEffect, PaneId, Point, RowUpdate, ScrollPoint, SearchMatch, Size, TermCaps,
};
use cloo_client::renderer::{Grid, Span};
use cloo_client::theme::Theme;

fn grid_of(rows: &[&str]) -> Grid {
    let cols = u16::try_from(
        rows.iter()
            .map(|row| row.chars().count())
            .max()
            .unwrap_or(0),
    )
    .expect("test rows are small");
    let mut grid = Grid::new(Size::new(
        cols,
        u16::try_from(rows.len()).expect("test rows are small"),
    ));
    for (index, text) in rows.iter().enumerate() {
        let mut cells: Vec<Cell> = text
            .chars()
            .map(|ch| Cell {
                ch,
                ..Cell::default()
            })
            .collect();
        cells.resize(usize::from(cols), Cell::default());
        grid.apply(&RowUpdate {
            row: u16::try_from(index).expect("test rows are small"),
            cells,
        })
        .expect("the fixture row matches the grid");
    }
    grid
}

fn state() -> CopyModeState {
    CopyModeState {
        pane: PaneId::new(1),
        viewport_top: 100,
        cursor: ScrollPoint::new(100, 0),
        selection: None,
        query: None,
        matches: Vec::new(),
    }
}

/// The character and role of every highlighted cell, by row.
fn painted(spans: &[Span]) -> Vec<(u16, u16, String)> {
    spans
        .iter()
        .map(|span| {
            (
                span.at.row,
                span.at.col,
                span.cells.iter().map(|cell| cell.ch).collect(),
            )
        })
        .collect()
}

/// Writes a copy to an in-memory terminal, reporting whether it did.
fn apply_copy(
    terminal: &mut Vec<u8>,
    caps: TermCaps,
    policy: EffectPolicy,
    effect: &OuterTerminalEffect,
) -> bool {
    match copy_bytes(caps, policy, effect) {
        Some(bytes) => {
            terminal.extend_from_slice(&bytes);
            true
        }
        None => false,
    }
}

#[test]
fn a_selection_paints_spans_and_leaves_the_cached_grid_untouched() {
    let grid = grid_of(&["alpha", "beta ", "gamma"]);
    let before = grid.clone();
    let mut state = state();
    state.selection = Some(CopySelection {
        anchor: ScrollPoint::new(100, 2),
        head: ScrollPoint::new(102, 1),
    });
    state.cursor = ScrollPoint::new(102, 1);

    // The pane body starts at column 2 of terminal row 4.
    let spans = highlight_spans(Point::new(2, 4), &grid, &state, Theme::storm());

    // Three visible rows: the tail of the first, all of the second, and the
    // head of the third — carrying the grid's own characters.
    assert_eq!(
        painted(&spans),
        vec![
            (4, 4, "pha".to_owned()),
            (5, 2, "beta ".to_owned()),
            (6, 2, "ga".to_owned()),
        ]
    );
    assert_eq!(grid, before, "a selection must not mutate the grid cache");
}

#[test]
fn roles_have_a_fixed_precedence_and_stay_distinct_without_colour() {
    let grid = grid_of(&["error here"]);
    let mut state = state();
    state.query = Some("error".into());
    state.matches = vec![SearchMatch {
        start: ScrollPoint::new(100, 0),
        end: ScrollPoint::new(100, 5),
    }];
    state.selection = Some(CopySelection {
        anchor: ScrollPoint::new(100, 2),
        head: ScrollPoint::new(100, 6),
    });
    state.cursor = ScrollPoint::new(100, 6);

    let spans = highlight_spans(Point::new(0, 0), &grid, &state, Theme::storm());
    let cells = &spans[0].cells;
    assert_eq!(spans.len(), 1);
    assert_eq!(cells.len(), 7);

    // Columns 0-1 are match only, 2-4 are selection over match, and 6 is
    // the cursor. Each role differs from its neighbour by an attribute as
    // well as a colour, so the three stay apart on a monochrome terminal.
    assert!(cells[0].attrs.contains(CellAttrs::underline()));
    assert!(!cells[0].attrs.contains(CellAttrs::reverse()));
    assert!(!cells[2].attrs.contains(CellAttrs::underline()));
    assert!(!cells[2].attrs.contains(CellAttrs::reverse()));
    assert_ne!(cells[0].bg, cells[2].bg);
    assert!(cells[6].attrs.contains(CellAttrs::reverse()));
    assert_eq!(cells[6].bg, cells[2].bg, "the cursor inverts its selection");
    assert!(Highlight::Match < Highlight::Selection);
    assert!(Highlight::Selection < Highlight::Cursor);
}

#[test]
fn positions_above_or_below_the_viewport_are_never_clamped_into_it() {
    let grid = grid_of(&["one", "two"]);
    let mut state = state();
    // A selection that began far above the viewport still highlights every
    // visible row, while a match on a scrolled-out line highlights nothing.
    state.selection = Some(CopySelection {
        anchor: ScrollPoint::new(3, 1),
        head: ScrollPoint::new(200, 2),
    });
    state.cursor = ScrollPoint::new(200, 2);
    state.matches = vec![SearchMatch {
        start: ScrollPoint::new(4, 0),
        end: ScrollPoint::new(4, 2),
    }];

    let spans = highlight_spans(Point::new(0, 0), &grid, &state, Theme::storm());
    assert_eq!(
        painted(&spans),
        vec![(0, 0, "one".to_owned()), (1, 0, "two".to_owned())]
    );
    assert_eq!(viewport_row(&state, 99, 2), None);
    assert_eq!(viewport_row(&state, 100, 2), Some(0));
    assert_eq!(viewport_row(&state, 102, 2), None);
}

#[test]
fn the_status_row_is_exactly_its_width_at_every_width() {
    let mut state = state();
    state.cursor = ScrollPoint::new(1234, 7);
    state.selection = Some(CopySelection {
        anchor: ScrollPoint::new(1234, 0),
        head: ScrollPoint::new(1234, 7),
    });
    state.query = Some("retry".into());
    state.matches = vec![SearchMatch {
        start: ScrollPoint::new(1234, 0),
        end: ScrollPoint::new(1234, 5),
    }];

    for width in 0..60u16 {
        let row = status_cells(&state, width, Theme::storm());
        assert_eq!(
            row.len(),
            usize::from(width),
            "a copy-mode row must be exactly {width} cells"
        );
    }

    let text: String = status_cells(&state, 32, Theme::storm())
        .iter()
        .map(|cell| cell.ch)
        .collect();
    assert_eq!(text, "COPY 1234:7 SEL /retry 1 matches");

    // Width is spent in one fixed order: the count goes before the query,
    // the query before the selection marker, and the label stands last.
    let narrow: String = status_cells(&state, 22, Theme::storm())
        .iter()
        .map(|cell| cell.ch)
        .collect();
    assert_eq!(narrow, "COPY 1234:7 SEL /retry");
    let narrower: String = status_cells(&state, 15, Theme::storm())
        .iter()
        .map(|cell| cell.ch)
        .collect();
    assert_eq!(narrower, "COPY 1234:7 SEL");
    let tiny: String = status_cells(&state, 3, Theme::storm())
        .iter()
        .map(|cell| cell.ch)
        .collect();
    assert_eq!(tiny, "COP");
}

#[test]
fn a_field_that_does_not_fit_takes_the_later_ones_along() {
    let mut state = state();
    state.cursor = ScrollPoint::new(1, 2);
    state.query = Some("a very long query that cannot fit".into());
    let text: String = status_cells(&state, 20, Theme::storm())
        .iter()
        .map(|cell| cell.ch)
        .collect();
    assert_eq!(text, "COPY 1:2            ");
}

#[test]
fn a_denied_clipboard_neither_writes_nor_asks_for_the_text() {
    let store = OuterTerminalEffect::ClipboardStore {
        target: ClipboardTarget::Clipboard,
        text: "selected".into(),
    };
    let capable = TermCaps {
        clipboard_osc52: true,
        ..TermCaps::default()
    };

    // Policy denied: nothing is written and nothing is requested, so the
    // user's scrollback never crosses the wire for this client at all.
    let mut terminal = b"rendered frame".to_vec();
    let before = terminal.clone();
    assert!(!apply_copy(
        &mut terminal,
        capable,
        EffectPolicy::default(),
        &store,
    ));
    assert_eq!(terminal, before);
    assert_eq!(
        copy_request(capable, EffectPolicy::default(), ClipboardTarget::Clipboard),
        None
    );

    // Capability denied: same answer, from the other gate.
    let mut terminal = Vec::new();
    assert!(!apply_copy(
        &mut terminal,
        TermCaps::default(),
        EffectPolicy::allow_supported(),
        &store,
    ));
    assert!(terminal.is_empty());
    assert_eq!(
        copy_request(
            TermCaps::default(),
            EffectPolicy::allow_supported(),
            ClipboardTarget::Clipboard
        ),
        None
    );
}

#[test]
fn a_permitted_copy_writes_one_osc_52_store_and_nothing_else() {
    let capable = TermCaps {
        clipboard_osc52: true,
        ..TermCaps::default()
    };
    let policy = EffectPolicy::allow_supported();
    let mut terminal = Vec::new();
    assert!(apply_copy(
        &mut terminal,
        capable,
        policy,
        &OuterTerminalEffect::ClipboardStore {
            target: ClipboardTarget::PrimarySelection,
            text: "hi".into(),
        },
    ));
    assert_eq!(terminal, b"\x1b]52;p;aGk=\x1b\\");
    assert_eq!(
        copy_request(capable, policy, ClipboardTarget::PrimarySelection),
        Some(ClientMessage::Command(Action::CopySelection(
            ClipboardTarget::PrimarySelection
        )))
    );

    // The explicit copy path accepts only the answer it asked for: a title
    // change is a pane's request and has its own policy bit.
    let mut terminal = Vec::new();
    assert!(!apply_copy(
        &mut terminal,
        capable,
        policy,
        &OuterTerminalEffect::SetTitle("agent".into()),
    ));
    assert!(terminal.is_empty());
}

#[test]
fn every_role_keeps_the_character_it_paints() {
    let cell = Cell {
        ch: 'x',
        ..Cell::default()
    };
    for role in Highlight::ALL {
        assert_eq!(role.apply(cell, Theme::storm()).ch, 'x', "{}", role.label());
    }
}

#[test]
fn a_selection_covers_both_of_its_ends() {
    let grid = Grid::new(Size::new(8, 2));
    let mut state = state();
    state.viewport_top = 10;
    state.cursor = ScrollPoint::new(10, 2);
    state.selection = Some(CopySelection {
        anchor: ScrollPoint::new(10, 0),
        head: ScrollPoint::new(10, 2),
    });
    let spans = highlight_spans(Point::new(0, 0), &grid, &state, Theme::storm());
    assert_eq!(spans.len(), 1);
    assert_eq!(spans[0].cells.len(), 3);
}
