use cloo_client::chrome::Attention;
use cloo_client::live::LiveState;
use cloo_client::panes::PaneMap;
use cloo_client::proto::{
    AttentionState, Cell, CellAttrs, Color, CursorShape, LayoutSnapshot, PaneAttention, PaneId,
    PaneInfo, PaneRect, Point, RowUpdate, ServerMessage, SessionId, Size, TabId, TabSummary,
};
use cloo_client::renderer::{Grid, RenderError};
use cloo_client::rows::{row_cells, Field, RowSpec};
use cloo_client::settings::Swatches;
use cloo_client::theme::Theme;
use cloo_client::time::Instant;

fn start_of_time() -> Instant {
    Instant {
        nanos: 1_000_000_000,
    }
}

fn palettes() -> Swatches {
    Swatches {
        storm: Theme::storm(),
        night: Theme::storm(),
        gruvbox: Theme::storm(),
        nord: Theme::storm(),
    }
}

fn one_tab() -> Vec<TabSummary> {
    vec![TabSummary {
        tab: TabId::new(1),
        title: "shell".to_owned(),
        active: true,
    }]
}

fn info(pane: u64, cwd: &str) -> PaneInfo {
    PaneInfo {
        pane: PaneId::new(pane),
        profile: "generic".to_owned(),
        name: "shell".to_owned(),
        task: None,
        cwd: cwd.to_owned(),
    }
}

fn rect(pane: u64, x: u16, size: Size) -> PaneRect {
    PaneRect {
        pane: PaneId::new(pane),
        x,
        y: 1,
        size,
    }
}

fn layout(panes: Vec<PaneRect>, focused: u64) -> ServerMessage {
    ServerMessage::Layout(LayoutSnapshot {
        tab: TabId::new(1),
        panes,
        focused: Some(PaneId::new(focused)),
        zoomed: None,
    })
}

/// A projection with one pane, drawn on a terminal of forty columns.
fn projection() -> LiveState {
    let mut state = LiveState::new(
        Size::new(40, 12),
        SessionId::new(1),
        one_tab(),
        "C-b".to_owned(),
        Theme::storm(),
        palettes(),
    );
    state
        .apply_at(layout(vec![rect(1, 1, Size::new(38, 8))], 1), start_of_time())
        .expect("the layout applies");
    state
        .apply_at(
            ServerMessage::Panes(vec![info(1, "/home/dev")]),
            start_of_time(),
        )
        .expect("the panes apply");
    state
}

fn row_of(ch: char, cols: usize) -> Vec<Cell> {
    vec![
        Cell {
            ch,
            ..Cell::default()
        };
        cols
    ]
}

fn first_char(state: &LiveState, pane: u64) -> Option<char> {
    state
        .grids
        .get(PaneId::new(pane))
        .and_then(|grid| grid.row(0))
        .map(|row| row[0].ch)
}

fn damage(state: &mut LiveState, pane: u64, row: Vec<Cell>) {
    state
        .apply_at(
            ServerMessage::Damage {
                pane: PaneId::new(pane),
                rows: vec![RowUpdate { row: 0, cells: row }],
            },
            start_of_time(),
        )
        .expect("the damage applies");
}

#[test]
fn a_layout_keeps_the_grids_it_leaves_alone() {
    let mut state = projection();
    state
        .apply_at(
            layout(
                vec![rect(1, 1, Size::new(18, 8)), rect(2, 21, Size::new(18, 8))],
                1,
            ),
            start_of_time(),
        )
        .expect("the layout applies");
    damage(&mut state, 1, row_of('a', 18));
    damage(&mut state, 2, row_of('b', 18));
    state
        .apply_at(
            layout(
                vec![rect(1, 1, Size::new(18, 8)), rect(2, 21, Size::new(10, 8))],
                1,
            ),
            start_of_time(),
        )
        .expect("the layout applies");
    assert_eq!(first_char(&state, 1), Some('a'), "its size did not change");
    assert_eq!(first_char(&state, 2), Some(' '), "its size did");
    state
        .apply_at(
            layout(vec![rect(1, 1, Size::new(18, 8))], 1),
            start_of_time(),
        )
        .expect("the layout applies");
    assert_eq!(first_char(&state, 2), None);
}

#[test]
fn damage_changes_the_grid_of_its_pane_alone() {
    let mut state = projection();
    state
        .apply_at(
            layout(
                vec![rect(1, 1, Size::new(18, 8)), rect(2, 21, Size::new(18, 8))],
                1,
            ),
            start_of_time(),
        )
        .expect("the layout applies");
    damage(&mut state, 2, row_of('b', 18));
    assert_eq!(first_char(&state, 1), Some(' '));
    assert_eq!(first_char(&state, 2), Some('b'));
    assert_eq!(
        state.apply_at(
            ServerMessage::Damage {
                pane: PaneId::new(9),
                rows: Vec::new(),
            },
            start_of_time(),
        ),
        Ok(false),
        "output of a pane that is gone is dropped"
    );
}

#[test]
fn the_queue_lists_the_panes_that_wait_and_no_others() {
    let mut state = projection();
    state
        .apply_at(
            ServerMessage::Panes(vec![info(1, "/a"), info(2, "/b"), info(3, "/c")]),
            start_of_time(),
        )
        .expect("the panes apply");
    let told = |pane: u64, state: AttentionState, acknowledged: bool| PaneAttention {
        pane: PaneId::new(pane),
        state,
        acknowledged,
    };
    state
        .apply_at(
            ServerMessage::Attention(vec![
                told(1, AttentionState::Failed, true),
                told(2, AttentionState::Working, false),
                told(3, AttentionState::Ready, false),
            ]),
            start_of_time(),
        )
        .expect("the states apply");
    let waiting: Vec<(u16, Attention)> = state
        .queue
        .entries()
        .iter()
        .map(|entry| (entry.index, entry.attention))
        .collect();
    assert_eq!(waiting, vec![(3, Attention::Ready)]);
}

#[test]
fn a_cursor_outside_its_pane_is_not_drawn() {
    let mut state = projection();
    let mut moved = |col: u16, visible: bool| {
        state
            .apply_at(
                ServerMessage::CursorMoved {
                    pane: PaneId::new(1),
                    pos: Point::new(col, 2),
                    shape: CursorShape::Bar,
                    visible,
                },
                start_of_time(),
            )
            .expect("the cursor applies");
        state.cursor().map(|cursor| cursor.pos)
    };
    assert_eq!(moved(3, true), Some(Point::new(4, 4)));
    assert_eq!(moved(38, true), None);
    assert_eq!(moved(3, false), None);
}

#[test]
fn a_map_of_panes_keeps_one_value_each_in_order() {
    let mut map: PaneMap<char> = PaneMap::new();
    map.insert(PaneId::new(7), 'g');
    map.insert(PaneId::new(2), 'b');
    map.insert(PaneId::new(7), 'h');
    assert_eq!(map.len(), 2);
    assert_eq!(
        map.entries(),
        vec![(PaneId::new(2), &'b'), (PaneId::new(7), &'h')]
    );
    assert_eq!(map.get(PaneId::new(7)), Some(&'h'));
    let mut kept: PaneMap<u8> = PaneMap::new();
    kept.insert(PaneId::new(7), 0);
    map.retain_in(&kept);
    assert!(!map.contains(PaneId::new(2)));
    assert_eq!(map.remove(PaneId::new(7)), Some('h'));
    assert_eq!(map.remove(PaneId::new(7)), None);
}

#[test]
fn a_grid_takes_only_rows_of_its_own_shape() {
    let mut grid = Grid::new(Size::new(3, 2));
    assert_eq!(
        grid.apply(&RowUpdate {
            row: 2,
            cells: row_of('x', 3),
        }),
        Err(RenderError::RowOutOfBounds { row: 2, rows: 2 })
    );
    assert_eq!(
        grid.apply(&RowUpdate {
            row: 1,
            cells: row_of('x', 2),
        }),
        Err(RenderError::WidthMismatch { cells: 2, cols: 3 })
    );
    assert_eq!(
        grid.apply(&RowUpdate {
            row: 1,
            cells: row_of('x', 3),
        }),
        Ok(())
    );
    assert_eq!(grid.row(1), Some(row_of('x', 3).as_slice()));
    assert_eq!(grid.row(2), None);
}

#[test]
fn a_row_gives_up_its_extras_before_its_title() {
    let theme = Theme::storm();
    let plain = |text: &str| Field::new(text, Color::Default, CellAttrs::none());
    let row = RowSpec {
        selected: true,
        lead: plain("k"),
        title: plain("title"),
        extras: vec![plain("one"), plain("two")],
    };
    let text = |width: u16| -> String {
        row_cells(&row, width, theme)
            .iter()
            .map(|cell| cell.ch)
            .collect()
    };
    assert_eq!(text(20), "> k title one two   ");
    assert_eq!(text(16), "> k title one   ");
    assert_eq!(text(10), "> k title ");
    assert_eq!(text(6), "> k ti");
    assert_eq!(text(0), "");
}

#[test]
fn the_reference_palette_maps_to_itself() {
    let theme = Theme::storm();
    for fg in [theme.accent, theme.muted, theme.error, Color::Rgb(1, 2, 3)] {
        let cell = Cell {
            ch: 'x',
            fg,
            bg: theme.surface,
            attrs: CellAttrs::bold(),
        };
        assert_eq!(theme.map_storm_cell(cell), cell);
    }
}
