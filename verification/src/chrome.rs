//! Pane chrome: headers, the focus treatment, dimming, and the tab row.
//!
//! Everything here is a pure function from a description into cells. Colour is
//! never the only signal; focus is not an attention state; and dimming is a
//! contrast reduction toward the frame background that can be switched off.

use vstd::prelude::*;

use crate::cells::{copy_cells, painted, push_cells, push_chars, repeated, styled, text_of};
use crate::motion::{blending_goes_part_of_the_way, goes_part_of_the_way, pulled, toward};
use crate::palette::{
    accent, border, chrome_blank, frame, muted, plain, primary, push_str, surface,
    the_palette_is_the_reference_palette, warning,
};
use crate::proto::{Cell, CellAttrs, Color, Direction, Point, Size};
use crate::renderer::{span_views, Span, SpanView};
use crate::text::{chars_of, decimal, decimal_chars, digit, push_all};
use crate::theme::Theme;

pub use crate::attention::{
    summary_cells, summary_span, Attention, AttentionQueue, QueueEntry,
};
pub use crate::status_bar::{
    queue_row_cells, queue_row_span, status_bar_cells, status_bar_span, PrefixHint,
    RepositoryStatus, StatusBar, StatusMode, DEFAULT_PREFIX_HINT,
};
pub use crate::tabs::{tab_row_cells, tab_row_span, TabBar};
pub use crate::toast::{
    toast_cells, toast_cells_in, toast_lifetime, toast_rows, toast_span, toast_stack_span, Toast,
    ToastDeck, TOAST_CAPACITY, TOAST_MARGIN, TOAST_MAX_WIDTH,
};

verus! {

/// How far a dimmed cell is pulled toward the frame background, in percent.
const DIM_BLEND: u16 = 45;

/// The accessibility choices that change how chrome is drawn.
#[derive(Clone, Copy, Debug, PartialEq, Eq, Structural)]
pub struct ChromeOptions {
    /// Whether unfocused panes are dimmed.
    pub dim_unfocused: bool,
    /// The client-local theme for this chrome pass.
    pub theme: Theme,
}

impl Default for ChromeOptions {
    fn default() -> (options: ChromeOptions)
        ensures
            options == (ChromeOptions { dim_unfocused: true, theme: Theme::storm() }),
    {
        ChromeOptions { dim_unfocused: true, theme: Theme::storm() }
    }
}

impl ChromeOptions {
    /// The no-dim accessibility fallback.
    #[verifier::allow_in_spec]
    pub fn no_dim() -> ChromeOptions
        returns
            (ChromeOptions { dim_unfocused: false, theme: Theme::storm() }),
    {
        ChromeOptions { dim_unfocused: false, theme: Theme::storm() }
    }

    /// Applies one client-local theme while preserving the chosen dimming mode.
    #[verifier::allow_in_spec]
    pub fn with_theme(self, theme: Theme) -> ChromeOptions
        returns
            (ChromeOptions { dim_unfocused: self.dim_unfocused, theme }),
    {
        ChromeOptions { dim_unfocused: self.dim_unfocused, theme }
    }
}

/// Everything the chrome needs to know about one pane.
#[derive(Clone, Debug, PartialEq, Eq)]
pub struct PaneChrome {
    /// The pane's position in the tab, as the user refers to it.
    pub index: u16,
    /// The pane's name.
    pub title: String,
    /// An optional task label. The first thing to go when width is scarce.
    pub task: Option<String>,
    /// The pane's workspace state.
    pub attention: Attention,
    /// Whether this pane has focus.
    pub focused: bool,
    /// Whether this pane is zoomed to fill its tab.
    pub zoomed: bool,
}

/// A pane's header description by its contents.
pub struct PaneChromeView {
    pub index: u16,
    pub title: Seq<char>,
    pub task: Option<Seq<char>>,
    pub attention: Attention,
    pub focused: bool,
    pub zoomed: bool,
}

impl View for PaneChrome {
    type V = PaneChromeView;

    open spec fn view(&self) -> PaneChromeView {
        PaneChromeView {
            index: self.index,
            title: self.title@,
            task: match self.task {
                Some(task) => Some(task@),
                None => None,
            },
            attention: self.attention,
            focused: self.focused,
            zoomed: self.zoomed,
        }
    }
}

impl PaneChrome {
    /// Builds an unfocused, unzoomed pane header description.
    pub fn new(index: u16, title: &str) -> (chrome: PaneChrome)
        ensures
            chrome@ == (PaneChromeView {
                index,
                title: title@,
                task: None,
                attention: Attention::Unknown,
                focused: false,
                zoomed: false,
            }),
    {
        PaneChrome {
            index,
            title: title.to_owned(),
            task: None,
            attention: Attention::Unknown,
            focused: false,
            zoomed: false,
        }
    }

    /// Sets the task label.
    pub fn task(self, task: &str) -> (chrome: PaneChrome)
        ensures
            chrome@ == (PaneChromeView { task: Some(task@), ..self@ }),
    {
        PaneChrome { task: Some(task.to_owned()), ..self }
    }

    /// Sets the workspace state.
    pub fn attention(self, attention: Attention) -> (chrome: PaneChrome)
        ensures
            chrome@ == (PaneChromeView { attention, ..self@ }),
    {
        PaneChrome { attention, ..self }
    }

    /// Marks the pane focused.
    pub fn focused(self, focused: bool) -> (chrome: PaneChrome)
        ensures
            chrome@ == (PaneChromeView { focused, ..self@ }),
    {
        PaneChrome { focused, ..self }
    }

    /// Marks the pane zoomed.
    pub fn zoomed(self, zoomed: bool) -> (chrome: PaneChrome)
        ensures
            chrome@ == (PaneChromeView { zoomed, ..self@ }),
    {
        PaneChrome { zoomed, ..self }
    }
}

// Dimming.

/// `cell` with its contrast reduced toward the frame colour of `theme`.
pub open spec fn dimmed_cell(cell: Cell, theme: Theme) -> Cell {
    let fg = pulled(cell.fg, theme.frame, 45);
    let bg = pulled(cell.bg, theme.frame, 45);
    Cell {
        ch: cell.ch,
        fg: if fg is Some {
            fg->0
        } else {
            cell.fg
        },
        bg: if bg is Some {
            bg->0
        } else {
            cell.bg
        },
        attrs: if fg is Some {
            cell.attrs
        } else {
            cell.attrs.union(CellAttrs::dim())
        },
    }
}

/// Dims one cell toward the frame colour of `theme`. A 24-bit colour keeps its
/// hue and loses contrast; any other text colour takes the faint rendition.
pub fn dim_cell_with_theme(cell: Cell, theme: Theme) -> (dimmed: Cell)
    ensures
        dimmed == dimmed_cell(cell, theme),
{
    let (fg, attrs): (Color, CellAttrs) = match toward(cell.fg, theme.frame, DIM_BLEND) {
        Some(fg) => (fg, cell.attrs),
        None => (cell.fg, cell.attrs.union(CellAttrs::dim())),
    };
    let bg: Color = match toward(cell.bg, theme.frame, DIM_BLEND) {
        Some(bg) => bg,
        None => cell.bg,
    };
    Cell { ch: cell.ch, fg, bg, attrs }
}

/// Dims one cell in the reference palette.
pub fn dim_cell(cell: Cell) -> (dimmed: Cell)
    ensures
        dimmed == dimmed_cell(cell, Theme::storm()),
{
    dim_cell_with_theme(cell, Theme::storm())
}

/// A row of a pane as the dimming policy shows it.
pub open spec fn policy_dimmed(cells: Seq<Cell>, focused: bool, options: ChromeOptions) -> Seq<Cell> {
    if focused || !options.dim_unfocused {
        cells
    } else {
        cells.map_values(|cell: Cell| dimmed_cell(cell, options.theme))
    }
}

/// Dims a whole row of an unfocused pane. A no-op when `options` disables
/// dimming or the pane is focused.
pub fn dim_cells(cells: &[Cell], focused: bool, options: ChromeOptions) -> (dimmed: Vec<Cell>)
    ensures
        dimmed@ == policy_dimmed(cells@, focused, options),
{
    if focused || !options.dim_unfocused {
        return copy_cells(cells);
    }
    let mut dimmed: Vec<Cell> = Vec::new();
    for i in 0..cells.len()
        invariant
            dimmed@ == cells@.take(i as int).map_values(
                |cell: Cell| dimmed_cell(cell, options.theme),
            ),
    {
        dimmed.push(dim_cell_with_theme(cells[i], options.theme));
        assert(cells@.take(i + 1) =~= cells@.take(i as int).push(cells@[i as int]));
    }
    assert(cells@.take(cells@.len() as int) =~= cells@);
    dimmed
}

/// A child's row with its default colours resolved, as the dimming policy
/// shows it.
pub open spec fn body_row(cells: Seq<Cell>, focused: bool, options: ChromeOptions) -> Seq<Cell> {
    policy_dimmed(
        cells.map_values(|cell: Cell| options.theme.child_cell(cell)),
        focused,
        options,
    )
}

/// Positions one row of a pane's body as a span, dimmed when the pane is
/// unfocused.
pub fn body_span(at: Point, cells: &[Cell], focused: bool, options: ChromeOptions) -> (span: Span)
    ensures
        span@ == (SpanView { at, cells: body_row(cells@, focused, options) }),
{
    let mut themed: Vec<Cell> = Vec::new();
    for i in 0..cells.len()
        invariant
            themed@ == cells@.take(i as int).map_values(
                |cell: Cell| options.theme.child_cell(cell),
            ),
    {
        themed.push(options.theme.map_child_cell(cells[i]));
        assert(cells@.take(i + 1) =~= cells@.take(i as int).push(cells@[i as int]));
    }
    assert(cells@.take(cells@.len() as int) =~= cells@);
    Span::new(at, dim_cells(themed.as_slice(), focused, options))
}

/// Dimming changes no character and takes away no attribute.
pub proof fn dimming_keeps_characters(cell: Cell, theme: Theme)
    ensures
        dimmed_cell(cell, theme).ch == cell.ch,
        dimmed_cell(cell, theme).attrs.contains(cell.attrs),
{
}

/// A focused pane, and every pane with dimming off, is drawn as it is.
pub proof fn dimming_can_be_switched_off(cells: Seq<Cell>, focused: bool, options: ChromeOptions)
    requires
        focused || !options.dim_unfocused,
    ensures
        policy_dimmed(cells, focused, options) == cells,
{
}

// Header.

/// The marker a header opens with.
pub open spec fn focus_marker(focused: bool) -> Seq<char> {
    if focused {
        seq!['>', ' ']
    } else {
        seq![' ', ' ']
    }
}

/// The zoom indicator of a header, where the pane is zoomed.
pub open spec fn zoom_marker(zoomed: bool) -> Seq<char> {
    if zoomed {
        seq!['Z', ' ']
    } else {
        seq![]
    }
}

/// The task label of a header, where there is a task.
pub open spec fn task_label(task: Option<Seq<char>>) -> Seq<char> {
    match task {
        Some(text) => if text.len() == 0 {
            seq![]
        } else {
            seq![' ', '-', ' '] + text
        },
        None => seq![],
    }
}

/// The glyph and label of a state.
pub open spec fn state_full(attention: Attention) -> Seq<char> {
    seq![attention.glyph(), ' '] + attention.words()
}

/// What a header spends its width on: whether its label side, how much of the
/// title, whether the task, and which form of the state.
pub struct HeaderPlan {
    pub label: bool,
    pub title: nat,
    pub task: bool,
    pub state: Seq<char>,
}

/// How wide a header is before its title.
pub open spec fn header_prefix_len(chrome: PaneChromeView) -> nat {
    2 + zoom_marker(chrome.zoomed).len() + decimal(chrome.index as nat).len() + 1
}

/// How a header of `width` spends its width: the task goes first, then the
/// state's label, and only then is the title cut. The label side goes last, where
/// not one character of a title too long for the row is left of it.
pub open spec fn header_plan(chrome: PaneChromeView, width: nat) -> HeaderPlan {
    let prefix = header_prefix_len(chrome);
    let title = chrome.title.len();
    let full = state_full(chrome.attention);
    let compact = seq![chrome.attention.glyph()];
    if prefix + title + task_label(chrome.task).len() + 1 + full.len() <= width {
        HeaderPlan { label: true, title, task: true, state: full }
    } else if prefix + title + 1 + full.len() <= width {
        HeaderPlan { label: true, title, task: false, state: full }
    } else if prefix + title + 1 + 1 <= width {
        HeaderPlan { label: true, title, task: false, state: compact }
    } else {
        let left = width - (prefix + 1 + 1);
        HeaderPlan {
            label: left > 0,
            title: if left < 0 {
                0
            } else if left < title {
                left as nat
            } else {
                title
            },
            task: false,
            state: compact,
        }
    }
}

/// The label side of a header, where it is shown: marker, zoom, index, title and
/// task.
pub open spec fn header_label(
    chrome: PaneChromeView,
    label: bool,
    title: nat,
    task: bool,
) -> Seq<Cell> {
    if !label {
        seq![]
    } else {
        plain(
            focus_marker(chrome.focused),
            if chrome.focused {
                accent()
            } else {
                border()
            },
            CellAttrs::none(),
        ) + plain(zoom_marker(chrome.zoomed), warning(), CellAttrs::bold()) + plain(
            decimal(chrome.index as nat).push(' '),
            muted(),
            CellAttrs::none(),
        ) + plain(
            chrome.title.take(title as int),
            if chrome.focused {
                accent()
            } else {
                primary()
            },
            if chrome.focused {
                CellAttrs::bold()
            } else {
                CellAttrs::none()
            },
        ) + plain(
            if task {
                task_label(chrome.task)
            } else {
                seq![]
            },
            muted(),
            CellAttrs::none(),
        )
    }
}

/// A header of `width` in the reference palette.
pub open spec fn header_reference(chrome: PaneChromeView, width: nat) -> Seq<Cell> {
    let plan = header_plan(chrome, width);
    let label = header_label(chrome, plan.label, plan.title, plan.task);
    let state = plain(plan.state, chrome.attention.color(), CellAttrs::none());
    label + repeated(chrome_blank(), (width - label.len() - state.len()) as nat) + state
}

/// A pane's header row.
pub open spec fn header_row(chrome: PaneChromeView, width: nat, options: ChromeOptions) -> Seq<Cell> {
    if width == 0 {
        seq![]
    } else {
        policy_dimmed(
            options.theme.mapped_cells(header_reference(chrome, width)),
            chrome.focused,
            options,
        )
    }
}

proof fn header_fits(chrome: PaneChromeView, width: nat)
    requires
        width > 0,
    ensures
        ({
            let plan = header_plan(chrome, width);
            header_label(chrome, plan.label, plan.title, plan.task).len() + plan.state.len() <= width
        }),
        header_plan(chrome, width).title <= chrome.title.len(),
        header_reference(chrome, width).len() == width,
        header_plan(chrome, width).state.len() > 0,
        header_plan(chrome, width).state[0] == chrome.attention.glyph(),
{
    let plan = header_plan(chrome, width);
    let label = header_label(chrome, plan.label, plan.title, plan.task);
    if plan.label {
        assert(label.len() == header_prefix_len(chrome) + plan.title + (if plan.task {
            task_label(chrome.task).len()
        } else {
            0
        }));
    }
}

/// The label side of a header.
fn header_label_cells(chrome: &PaneChrome, label: bool, shown: usize, keep_task: bool) -> (cells:
    Vec<Cell>)
    requires
        shown <= chrome.title@.len(),
    ensures
        cells@ == header_label(chrome@, label, shown as nat, keep_task),
{
    let ghost view = chrome@;
    let mut cells: Vec<Cell> = Vec::new();
    if !label {
        return cells;
    }
    proof {
        reveal_strlit("> ");
        reveal_strlit("  ");
        reveal_strlit("Z ");
        assert("Z "@ =~= seq!['Z', ' ']);
    }
    let marker: &str = if chrome.focused {
        "> "
    } else {
        "  "
    };
    assert(marker@ =~= focus_marker(view.focused));
    let marker_fg: Color = if chrome.focused {
        accent()
    } else {
        border()
    };
    push_str(&mut cells, marker, marker_fg, CellAttrs::none());
    let ghost first = plain(focus_marker(view.focused), marker_fg, CellAttrs::none());
    assert(cells@ =~= first);
    if chrome.zoomed {
        push_str(&mut cells, "Z ", warning(), CellAttrs::bold());
    }
    let ghost second = plain(zoom_marker(view.zoomed), warning(), CellAttrs::bold());
    assert(cells@ =~= first + second);
    let mut number = decimal_chars(chrome.index as u64);
    number.push(' ');
    push_chars(&mut cells, number.as_slice(), muted(), surface(), CellAttrs::none());
    let mut title = chars_of(chrome.title.as_str());
    title.truncate(shown);
    assert(title@ =~= view.title.take(shown as int));
    let (title_fg, title_attrs): (Color, CellAttrs) = if chrome.focused {
        (accent(), CellAttrs::bold())
    } else {
        (primary(), CellAttrs::none())
    };
    push_chars(&mut cells, title.as_slice(), title_fg, surface(), title_attrs);
    let ghost before = cells@;
    if keep_task {
        let task = task_chars(&chrome.task);
        push_chars(&mut cells, task.as_slice(), muted(), surface(), CellAttrs::none());
    } else {
        assert(plain(seq![], muted(), CellAttrs::none()) =~= seq![]);
        assert(cells@ =~= before + plain(seq![], muted(), CellAttrs::none()));
    }
    cells
}

fn task_chars(task: &Option<String>) -> (label: Vec<char>)
    ensures
        label@ == task_label(
            match *task {
                Some(text) => Some(text@),
                None => None,
            },
        ),
{
    let mut label: Vec<char> = Vec::new();
    if let Some(text) = task {
        let text = chars_of(text.as_str());
        if text.len() > 0 {
            label.push(' ');
            label.push('-');
            label.push(' ');
            push_all(&mut label, text.as_slice());
            assert(label@ =~= seq![' ', '-', ' '] + text@);
        }
    }
    label
}

/// How a header of `width` spends its width.
fn plan_header(chrome: &PaneChrome, width: usize) -> (plan: (bool, usize, bool, Vec<char>))
    requires
        width > 0,
    ensures
        plan.0 == header_plan(chrome@, width as nat).label,
        plan.1 == header_plan(chrome@, width as nat).title,
        plan.2 == header_plan(chrome@, width as nat).task,
        plan.3@ == header_plan(chrome@, width as nat).state,
{
    let index = decimal_chars(chrome.index as u64);
    let title: usize = chrome.title.as_str().unicode_len();
    let task = task_chars(&chrome.task);
    let mut compact: Vec<char> = Vec::new();
    compact.push(chrome.attention.glyph());
    assert(compact@ =~= seq![chrome.attention.glyph()]);
    let mut full: Vec<char> = Vec::new();
    full.push(chrome.attention.glyph());
    full.push(' ');
    let label = chars_of(chrome.attention.label());
    push_all(&mut full, label.as_slice());
    assert(full@ =~= state_full(chrome.attention));
    let zoom: usize = if chrome.zoomed {
        2
    } else {
        0
    };
    proof {
        index_is_short(chrome.index);
    }
    let prefix: usize = 2 + zoom + index.len() + 1;
    assert(prefix == header_prefix_len(chrome@));
    if all_fit(prefix, title, task.len(), full.len(), width) {
        return (true, title, true, full);
    }
    if all_fit(prefix, title, 0, full.len(), width) {
        return (true, title, false, full);
    }
    if all_fit(prefix, title, 0, 1, width) {
        return (true, title, false, compact);
    }
    let left: usize = if width >= prefix + 2 {
        width - (prefix + 2)
    } else {
        0
    };
    (
        left > 0,
        if left < title {
            left
        } else {
            title
        },
        false,
        compact,
    )
}

/// Builds the header row for one pane, exactly `width` cells wide.
pub fn header_cells(chrome: &PaneChrome, width: u16, options: ChromeOptions) -> (cells: Vec<Cell>)
    ensures
        cells@ == header_row(chrome@, width as nat, options),
        cells@.len() == width,
{
    let width: usize = width as usize;
    if width == 0 {
        return Vec::new();
    }
    let ghost plan = header_plan(chrome@, width as nat);
    proof {
        header_fits(chrome@, width as nat);
    }
    let (label, shown, keep_task, state) = plan_header(chrome, width);
    let mut cells = header_label_cells(chrome, label, shown, keep_task);
    let mut right: Vec<Cell> = Vec::new();
    push_chars(
        &mut right,
        state.as_slice(),
        chrome.attention.color(),
        surface(),
        CellAttrs::none(),
    );
    assert(right@ =~= plain(plan.state, chrome.attention.color(), CellAttrs::none()));
    let room: usize = width - right.len();
    crate::cells::pad_to(&mut cells, room, chrome_blank());
    push_cells(&mut cells, right.as_slice());
    assert(cells@ =~= header_reference(chrome@, width as nat));
    let mapped = options.theme.map_storm_cells(cells);
    dim_cells(mapped.as_slice(), chrome.focused, options)
}

/// Whether a header's parts fit into `width` with the one space before the
/// state.
fn all_fit(prefix: usize, title: usize, task: usize, state: usize, width: usize) -> (fit: bool)
    ensures
        fit == (prefix + title + task + 1 + state <= width),
{
    if prefix > width {
        return false;
    }
    let left: usize = width - prefix;
    if title > left {
        return false;
    }
    let left: usize = left - title;
    if task > left {
        return false;
    }
    let left: usize = left - task;
    left >= 1 && state <= left - 1
}

/// A pane index has at most five digits.
proof fn index_is_short(index: u16)
    ensures
        decimal(index as nat).len() <= 5,
{
    reveal_with_fuel(decimal, 6);
}

/// Builds a header as a positioned span. The pane's body starts on the row
/// below it.
pub fn header_span(at: Point, chrome: &PaneChrome, width: u16, options: ChromeOptions) -> (span:
    Span)
    ensures
        span@ == (SpanView { at, cells: header_row(chrome@, width as nat, options) }),
{
    Span::new(at, header_cells(chrome, width, options))
}

/// The state glyph is the last thing standing: whatever the width, a header
/// shows it, and the row is exactly as wide as it was asked to be.
pub proof fn a_header_always_shows_its_state(
    chrome: PaneChromeView,
    width: nat,
    options: ChromeOptions,
)
    requires
        width > 0,
    ensures
        header_row(chrome, width, options).len() == width,
        ({
            let at = width - header_plan(chrome, width).state.len();
            0 <= at < width && header_row(chrome, width, options)[at].ch
                == chrome.attention.glyph()
        }),
{
    header_fits(chrome, width);
    let plan = header_plan(chrome, width);
    let label = header_label(chrome, plan.label, plan.title, plan.task);
    let state = plain(plan.state, chrome.attention.color(), CellAttrs::none());
    let at = width - plan.state.len();
    assert(header_reference(chrome, width)[at] == state[0]);
}

/// A header whose parts fit shows its marker, its index and the whole of its
/// title, even an empty one. Otherwise its label side stands as long as one
/// character of the title does.
pub proof fn a_header_keeps_its_label_while_it_fits(chrome: PaneChromeView, width: nat)
    requires
        width > 0,
    ensures
        ({
            let plan = header_plan(chrome, width);
            let fits = header_prefix_len(chrome) + chrome.title.len() + 2 <= width;
            &&& plan.label == (fits || plan.title > 0)
            &&& fits ==> plan.title == chrome.title.len()
        }),
{
}

/// Focus is not an attention state: it changes neither the state a header shows
/// nor where.
pub proof fn focus_does_not_change_the_state(chrome: PaneChromeView, width: nat)
    ensures
        header_plan(PaneChromeView { focused: !chrome.focused, ..chrome }, width) == header_plan(
            chrome,
            width,
        ),
{
}

/// One cell of a pane's visible side or corner treatment.
pub open spec fn framed_cell(ch: char, focused: bool, options: ChromeOptions) -> Cell {
    let cell = options.theme.mapped_cell(
        Cell {
            ch,
            fg: if focused {
                accent()
            } else {
                border()
            },
            bg: frame(),
            attrs: CellAttrs::none(),
        },
    );
    if !focused && options.dim_unfocused {
        dimmed_cell(cell, options.theme)
    } else {
        cell
    }
}

fn frame_cell(ch: char, focused: bool, options: ChromeOptions) -> (cell: Cell)
    ensures
        cell == framed_cell(ch, focused, options),
{
    let cell = options.theme.map_storm_cell(
        Cell {
            ch,
            fg: if focused {
                accent()
            } else {
                border()
            },
            bg: frame(),
            attrs: CellAttrs::none(),
        },
    );
    if !focused && options.dim_unfocused {
        dim_cell_with_theme(cell, options.theme)
    } else {
        cell
    }
}

/// Builds the pane's complete top frame edge: the header between two corners.
pub fn top_frame_cells(chrome: &PaneChrome, body_width: u16, options: ChromeOptions) -> (cells: Vec<
    Cell,
>)
    ensures
        cells@ == seq![framed_cell('┌', chrome.focused, options)] + header_row(
            chrome@,
            body_width as nat,
            options,
        ) + seq![framed_cell('┐', chrome.focused, options)],
        cells@.len() == body_width + 2,
{
    let mut cells: Vec<Cell> = Vec::new();
    cells.push(frame_cell('┌', chrome.focused, options));
    let header = header_cells(chrome, body_width, options);
    push_cells(&mut cells, header.as_slice());
    cells.push(frame_cell('┐', chrome.focused, options));
    cells
}

/// Builds one vertical pane-frame edge cell.
pub fn side_frame_cell(focused: bool, options: ChromeOptions) -> (cell: Cell)
    ensures
        cell == framed_cell('│', focused, options),
{
    frame_cell('│', focused, options)
}

/// Builds the pane's complete bottom frame edge.
pub fn bottom_frame_cells(focused: bool, body_width: u16, options: ChromeOptions) -> (cells: Vec<
    Cell,
>)
    ensures
        cells@ == seq![framed_cell('└', focused, options)] + repeated(
            framed_cell('─', focused, options),
            body_width as nat,
        ) + seq![framed_cell('┘', focused, options)],
        cells@.len() == body_width + 2,
{
    let mut cells: Vec<Cell> = Vec::new();
    cells.push(frame_cell('└', focused, options));
    crate::cells::pad_to(&mut cells, body_width as usize + 1, frame_cell('─', focused, options));
    assert(cells@ =~= seq![framed_cell('└', focused, options)] + repeated(
        framed_cell('─', focused, options),
        body_width as nat,
    ));
    cells.push(frame_cell('┘', focused, options));
    cells
}

// Active resize.

/// A share of the screen in hundredths, as two decimals.
pub open spec fn fixed_ratio(hundredths: u16) -> Seq<char> {
    if hundredths >= 100 {
        seq!['1', '.', '0', '0']
    } else {
        seq!['0', '.', digit(hundredths as int / 10), digit(hundredths as int % 10)]
    }
}

/// The end of the resize label that fits into `cols`.
pub open spec fn resize_text(hundredths: u16, cols: nat) -> Seq<char> {
    let label = "resize · ratio "@ + fixed_ratio(hundredths);
    if label.len() > cols {
        label.skip(label.len() - cols)
    } else {
        label
    }
}

/// The resize label: muted, with a ratio below one accented where all of it
/// shows.
pub open spec fn resize_label(hundredths: u16, cols: nat, theme: Theme) -> Seq<Cell> {
    let text = resize_text(hundredths, cols);
    let lit = if hundredths < 100 && text.len() >= 4 {
        text.len() - 4
    } else {
        text.len() as int
    };
    painted(text.take(lit), theme.muted, theme.surface, CellAttrs::none()) + painted(
        text.skip(lit),
        theme.accent,
        theme.surface,
        CellAttrs::bold(),
    )
}

/// One lit cell of a divider.
pub open spec fn divider_cell(dir: Direction, theme: Theme) -> Cell {
    Cell {
        ch: match dir {
            Direction::Horizontal => '│',
            Direction::Vertical => '─',
        },
        fg: theme.accent,
        bg: theme.frame,
        attrs: CellAttrs::bold(),
    }
}

/// The spans of an active resize: each divider point lit, then the label at the
/// right end of the last row.
pub open spec fn resize_spans(
    points: Seq<Point>,
    dir: Direction,
    hundredths: u16,
    outer: Size,
    theme: Theme,
) -> Seq<SpanView> {
    if points.len() == 0 || outer.cols == 0 || outer.rows == 0 {
        seq![]
    } else {
        let label = resize_label(hundredths, outer.cols as nat, theme);
        lit_points(points, dir, theme).push(
            SpanView {
                at: Point {
                    col: (outer.cols - label.len()) as u16,
                    row: (outer.rows - 1) as u16,
                },
                cells: label,
            },
        )
    }
}

/// Each of `points`, lit.
pub open spec fn lit_points(points: Seq<Point>, dir: Direction, theme: Theme) -> Seq<SpanView> {
    points.map_values(|point: Point| lit_point(point, dir, theme))
}

/// One lit divider cell in its place.
pub open spec fn lit_point(point: Point, dir: Direction, theme: Theme) -> SpanView {
    SpanView { at: point, cells: seq![divider_cell(dir, theme)] }
}

/// Draws a lit divider and its resulting visible ratio, in hundredths. Each
/// point is painted on its own, because nested layouts can split a divider into
/// disjoint segments.
pub fn resize_affordance_spans(
    points: &[Point],
    dir: Direction,
    hundredths: u16,
    outer: Size,
    theme: Theme,
) -> (spans: Vec<Span>)
    ensures
        span_views(spans@) == resize_spans(points@, dir, hundredths, outer, theme),
{
    let mut spans: Vec<Span> = Vec::new();
    assert(span_views(spans@) =~= seq![]);
    if points.len() == 0 || outer.cols == 0 || outer.rows == 0 {
        return spans;
    }
    let glyph: char = match dir {
        Direction::Horizontal => '│',
        Direction::Vertical => '─',
    };
    let divider = Cell { ch: glyph, fg: theme.accent, bg: theme.frame, attrs: CellAttrs::bold() };
    assert(divider == divider_cell(dir, theme));
    for i in 0..points.len()
        invariant
            divider == divider_cell(dir, theme),
            span_views(spans@) == lit_points(points@.take(i as int), dir, theme),
    {
        let ghost before = spans@;
        let span = Span::new(points[i], vec![divider]);
        assert(span@.cells =~= seq![divider]);
        assert(span@ == lit_point(points@[i as int], dir, theme));
        spans.push(span);
        assert(span_views(spans@) =~= span_views(before).push(
            lit_point(points@[i as int], dir, theme),
        ));
        assert(points@.take(i + 1) =~= points@.take(i as int).push(points@[i as int]));
        assert(lit_points(points@.take(i + 1), dir, theme) =~= lit_points(
            points@.take(i as int),
            dir,
            theme,
        ).push(lit_point(points@[i as int], dir, theme)));
    }
    assert(points@.take(points@.len() as int) =~= points@);
    let cells = resize_label_cells(hundredths, outer.cols, theme);
    let at = Point::new(outer.cols - (cells.len() as u16), outer.rows - 1);
    let ghost before = spans@;
    spans.push(Span::new(at, cells));
    assert(span_views(spans@) =~= span_views(before).push(
        SpanView { at, cells: resize_label(hundredths, outer.cols as nat, theme) },
    ));
    spans
}

fn resize_label_cells(hundredths: u16, cols: u16, theme: Theme) -> (cells: Vec<Cell>)
    ensures
        cells@ == resize_label(hundredths, cols as nat, theme),
        cells@.len() <= cols,
{
    let mut label = chars_of("resize · ratio ");
    if hundredths >= 100 {
        label.push('1');
        label.push('.');
        label.push('0');
        label.push('0');
    } else {
        label.push('0');
        label.push('.');
        label.push((((hundredths / 10) as u8) + 48) as char);
        label.push((((hundredths % 10) as u8) + 48) as char);
    }
    assert(label@ =~= "resize · ratio "@ + fixed_ratio(hundredths));
    let width: usize = cols as usize;
    let from: usize = if label.len() > width {
        label.len() - width
    } else {
        0
    };
    let shown = label.split_off(from);
    assert(shown@ =~= resize_text(hundredths, cols as nat));
    let lit: usize = if hundredths < 100 && shown.len() >= 4 {
        shown.len() - 4
    } else {
        shown.len()
    };
    let quiet = vstd::slice::slice_subrange(shown.as_slice(), 0, lit);
    let loud = vstd::slice::slice_subrange(shown.as_slice(), lit, shown.len());
    assert(quiet@ =~= shown@.take(lit as int));
    assert(loud@ =~= shown@.skip(lit as int));
    let mut cells: Vec<Cell> = Vec::new();
    push_chars(&mut cells, quiet, theme.muted, theme.surface, CellAttrs::none());
    push_chars(&mut cells, loud, theme.accent, theme.surface, CellAttrs::bold());
    assert(cells@ =~= resize_label(hundredths, cols as nat, theme));
    cells
}

/// Dimming reduces contrast without erasing what a colour means: two states
/// told apart at full contrast are told apart dimmed.
pub proof fn dimming_keeps_states_apart(a: Attention, b: Attention)
    requires
        a.color() != b.color(),
    ensures
        dimmed_cell(styled(a.glyph(), a.color(), surface(), CellAttrs::none()), Theme::storm()).fg
            != dimmed_cell(
            styled(b.glyph(), b.color(), surface(), CellAttrs::none()),
            Theme::storm(),
        ).fg,
{
}

/// The body of a focused pane, and of any pane with dimming off, is drawn as its
/// application wrote it: the same characters, attributes and colours, with only
/// the terminal's default colours resolved to the theme's.
pub proof fn a_focused_body_is_the_applications(
    cells: Seq<Cell>,
    focused: bool,
    options: ChromeOptions,
    i: int,
)
    requires
        focused || !options.dim_unfocused,
        0 <= i < cells.len(),
    ensures
        body_row(cells, focused, options).len() == cells.len(),
        ({
            let drawn = body_row(cells, focused, options)[i];
            &&& drawn.ch == cells[i].ch
            &&& drawn.attrs == cells[i].attrs
            &&& cells[i].fg != Color::Default ==> drawn.fg == cells[i].fg
            &&& cells[i].bg != Color::Default ==> drawn.bg == cells[i].bg
            &&& cells[i].fg == Color::Default ==> drawn.fg == options.theme.default_text
            &&& cells[i].bg == Color::Default ==> drawn.bg == options.theme.surface
        }),
{
}

/// The body of an unfocused pane keeps its characters and loses contrast: every
/// 24-bit colour goes nearly half of the way toward the frame, and text in any
/// other colour keeps it and turns faint.
pub proof fn an_unfocused_body_recedes(cells: Seq<Cell>, options: ChromeOptions, i: int)
    requires
        options.dim_unfocused,
        0 <= i < cells.len(),
    ensures
        body_row(cells, false, options).len() == cells.len(),
        ({
            let drawn = body_row(cells, false, options)[i];
            let fg = if cells[i].fg == Color::Default {
                options.theme.default_text
            } else {
                cells[i].fg
            };
            let bg = if cells[i].bg == Color::Default {
                options.theme.surface
            } else {
                cells[i].bg
            };
            recedes(
                Cell { ch: cells[i].ch, fg, bg, attrs: cells[i].attrs },
                options.theme.frame,
                drawn,
            )
        }),
{
    let own = options.theme.child_cell(cells[i]);
    dimming_makes_cells_recede(own, options.theme);
}

/// Whether `drawn` is `cell` at reduced contrast: each 24-bit colour 45 percent
/// of the way toward a 24-bit frame, and the text faint where it cannot blend.
pub open spec fn recedes(cell: Cell, frame: Color, drawn: Cell) -> bool {
    &&& drawn.ch == cell.ch
    &&& match (cell.fg, frame, drawn.fg) {
        (Color::Rgb(r, g, b), Color::Rgb(fr, fg, fb), Color::Rgb(dr, dg, db)) => {
            &&& goes_part_of_the_way(r, fr, 45, dr)
            &&& goes_part_of_the_way(g, fg, 45, dg)
            &&& goes_part_of_the_way(b, fb, 45, db)
            &&& drawn.attrs == cell.attrs
        },
        _ => !(cell.fg is Rgb && frame is Rgb) && drawn.fg == cell.fg && drawn.attrs == (
        CellAttrs { dim: true, ..cell.attrs }),
    }
    &&& match (cell.bg, frame, drawn.bg) {
        (Color::Rgb(r, g, b), Color::Rgb(fr, fg, fb), Color::Rgb(dr, dg, db)) => {
            &&& goes_part_of_the_way(r, fr, 45, dr)
            &&& goes_part_of_the_way(g, fg, 45, dg)
            &&& goes_part_of_the_way(b, fb, 45, db)
        },
        _ => !(cell.bg is Rgb && frame is Rgb) && drawn.bg == cell.bg,
    }
}

/// Dimming takes every cell the same way.
pub proof fn dimming_makes_cells_recede(cell: Cell, theme: Theme)
    ensures
        recedes(cell, theme.frame, dimmed_cell(cell, theme)),
{
    blending_goes_part_of_the_way(cell.fg, theme.frame, 45);
    blending_goes_part_of_the_way(cell.bg, theme.frame, 45);
}

/// A pane's edges are accented where it has focus and quiet where it has not,
/// and a quiet one recedes with the rest of its pane.
pub proof fn an_edge_tells_focus(ch: char, focused: bool, options: ChromeOptions)
    ensures
        ({
            let quiet = Cell {
                ch,
                fg: options.theme.border,
                bg: options.theme.frame,
                attrs: CellAttrs {
                    bold: false,
                    dim: false,
                    italic: false,
                    underline: false,
                    reverse: false,
                },
            };
            let drawn = framed_cell(ch, focused, options);
            if focused {
                drawn == (Cell { fg: options.theme.accent, ..quiet })
            } else if options.dim_unfocused {
                recedes(quiet, options.theme.frame, drawn)
            } else {
                drawn == quiet
            }
        }),
{
    the_palette_is_the_reference_palette(options.theme);
    if !focused {
        dimming_makes_cells_recede(
            Cell {
                ch,
                fg: options.theme.border,
                bg: options.theme.frame,
                attrs: CellAttrs::none(),
            },
            options.theme,
        );
    }
}

proof fn drawing_keeps_the_text(cells: Seq<Cell>, focused: bool, options: ChromeOptions)
    ensures
        policy_dimmed(options.theme.mapped_cells(cells), focused, options).len() == cells.len(),
        forall|i: int|
            0 <= i < cells.len() ==> (#[trigger] policy_dimmed(
                options.theme.mapped_cells(cells),
                focused,
                options,
            )[i]).ch == cells[i].ch,
{
}

/// How much of the title a header shows: all of it where that leaves room for the
/// mark of the state and one space, and otherwise what is left.
pub open spec fn title_shown(chrome: PaneChromeView, width: int) -> int {
    let before = 2 + (if chrome.zoomed {
        2int
    } else {
        0
    }) + decimal(chrome.index as nat).len() + 1;
    if before + chrome.title.len() + 2 <= width {
        chrome.title.len() as int
    } else if width - before - 2 > 0 {
        width - before - 2
    } else {
        0
    }
}

/// What stands at the left of a header: the focus marker, the zoom marker, the
/// position and the title, with the task behind it only where everything fits.
pub open spec fn header_says(chrome: PaneChromeView, width: int) -> Seq<char> {
    let marker = if chrome.focused {
        seq!['>', ' ']
    } else {
        seq![' ', ' ']
    };
    let zoom = if chrome.zoomed {
        seq!['Z', ' ']
    } else {
        seq![]
    };
    let task = match chrome.task {
        Some(text) => if text.len() > 0 {
            seq![' ', '-', ' '] + text
        } else {
            seq![]
        },
        None => seq![],
    };
    let front = marker + zoom + decimal(chrome.index as nat) + seq![' '];
    let shown = title_shown(chrome, width);
    let state = 2 + chrome.attention.words().len();
    if front.len() + chrome.title.len() + task.len() + 1 + state <= width {
        front + chrome.title + task
    } else if shown > 0 || front.len() + 2 <= width && chrome.title.len() == 0 {
        front + chrome.title.take(shown)
    } else {
        seq![]
    }
}

/// What stands at the right of a header: the state's mark and word where the
/// whole title leaves room for them, and its mark alone otherwise.
pub open spec fn header_state(chrome: PaneChromeView, width: int) -> Seq<char> {
    let before = 2 + (if chrome.zoomed {
        2int
    } else {
        0
    }) + decimal(chrome.index as nat).len() + 1;
    let full = seq![chrome.attention.glyph(), ' '] + chrome.attention.words();
    if before + chrome.title.len() + 1 + full.len() <= width {
        full
    } else {
        seq![chrome.attention.glyph()]
    }
}

/// A header reads as documented at every width: the label at the left, the state
/// at the right end, blanks between, exactly as wide as it was asked to be.
#[verifier::rlimit(40)]
pub proof fn a_header_reads_as_documented(
    chrome: PaneChromeView,
    width: nat,
    options: ChromeOptions,
)
    requires
        width > 0,
    ensures
        ({
            let row = header_row(chrome, width, options);
            let says = header_says(chrome, width as int);
            let state = header_state(chrome, width as int);
            &&& row.len() == width
            &&& says.len() + state.len() <= width
            &&& forall|i: int|
                0 <= i < width ==> (#[trigger] row[i]).ch == if i < says.len() {
                    says[i]
                } else if i < width - state.len() {
                    ' '
                } else {
                    state[i - (width - state.len())]
                }
        }),
{
    header_fits(chrome, width);
    let reference = header_reference(chrome, width);
    let says = header_says(chrome, width as int);
    let state = header_state(chrome, width as int);
    let plan = header_plan(chrome, width);
    let label = header_label(chrome, plan.label, plan.title, plan.task);
    drawing_keeps_the_text(reference, chrome.focused, options);
    assert(plan.state =~= state);
    assert(text_of(label) =~= says);
    assert forall|i: int| 0 <= i < width implies (#[trigger] header_row(chrome, width, options)[i]).ch
        == if i < says.len() {
        says[i]
    } else if i < width - state.len() {
        ' '
    } else {
        state[i - (width - state.len())]
    } by {
        if i < says.len() {
            assert(reference[i] == label[i]);
            assert(text_of(label)[i] == label[i].ch);
        }
    }
}

/// The header of a focused pane is in the accent, its title bold; that of another
/// is in the border's colour. The state keeps the colour of what it means.
pub proof fn a_header_is_coloured_by_focus_and_state(
    chrome: PaneChromeView,
    width: nat,
    options: ChromeOptions,
)
    requires
        header_says(chrome, width as int).len() > 0,
        chrome.title.len() > 0,
        chrome.focused || !options.dim_unfocused,
    ensures
        ({
            let row = header_row(chrome, width, options);
            let front = 2 + (if chrome.zoomed {
                2int
            } else {
                0
            }) + decimal(chrome.index as nat).len() + 1;
            &&& row[0].fg == if chrome.focused {
                options.theme.accent
            } else {
                options.theme.border
            }
            &&& row[front].fg == if chrome.focused {
                options.theme.accent
            } else {
                options.theme.primary
            }
            &&& row[front].attrs.bold == chrome.focused
            &&& row[0].bg == options.theme.surface
            &&& row[width - 1].fg == chrome.attention.color_in(options.theme)
        }),
{
    header_fits(chrome, width);
    the_palette_is_the_reference_palette(options.theme);
    let reference = header_reference(chrome, width);
    let plan = header_plan(chrome, width);
    let label = header_label(chrome, plan.label, plan.title, plan.task);
    let state = plain(plan.state, chrome.attention.color(), CellAttrs::none());
    let front = 2 + (if chrome.zoomed {
        2int
    } else {
        0
    }) + decimal(chrome.index as nat).len() + 1;
    assert(plan.label);
    assert(plan.title > 0);
    assert(reference[0] == label[0]);
    assert(reference[front] == label[front]);
    assert(reference[width - 1] == state[state.len() - 1]);
}

/// The share of a resize reads as two decimals, and the label is what its end of
/// the last row has room for.
pub proof fn a_resize_says_its_share(
    points: Seq<Point>,
    dir: Direction,
    hundredths: u16,
    outer: Size,
    theme: Theme,
)
    requires
        points.len() > 0,
        outer.cols >= 19,
        outer.rows > 0,
    ensures
        ({
            let spans = resize_spans(points, dir, hundredths, outer, theme);
            let label = spans.last();
            let tens = hundredths / 10 % 10;
            let ones = hundredths % 10;
            &&& spans.len() == points.len() + 1
            &&& label.at.row + 1 == outer.rows
            &&& label.at.col + 19 == outer.cols
            &&& label.cells.len() == 19
            &&& text_of(label.cells).take(15) == "resize · ratio "@
            &&& label.cells[16].ch == '.'
            &&& hundredths < 100 ==> label.cells[15].ch == '0' && label.cells[17].ch as u32 == 48
                + tens && label.cells[18].ch as u32 == 48 + ones
            &&& hundredths >= 100 ==> label.cells[15].ch == '1' && label.cells[17].ch == '0'
                && label.cells[18].ch == '0'
            &&& forall|i: int|
                0 <= i < points.len() ==> (#[trigger] spans[i]).at == points[i]
                    && spans[i].cells.len() == 1 && spans[i].cells[0].ch == (if dir
                    == Direction::Horizontal {
                    '│'
                } else {
                    '─'
                }) && spans[i].cells[0].fg == theme.accent && spans[i].cells[0].attrs.bold
        }),
{
    reveal_strlit("resize · ratio ");
    let spans = resize_spans(points, dir, hundredths, outer, theme);
    let label = resize_label(hundredths, outer.cols as nat, theme);
    let text = "resize · ratio "@ + fixed_ratio(hundredths);
    assert(text.len() == 19);
    assert(resize_text(hundredths, outer.cols as nat) =~= text);
    assert(text_of(label) =~= text);
    assert(text_of(label).take(15) =~= "resize · ratio "@);
    assert forall|i: int| 15 <= i < 19 implies label[i].ch == fixed_ratio(hundredths)[i - 15] by {
        assert(text_of(label)[i] == text[i]);
    }
    assert forall|i: int| 0 <= i < points.len() implies (#[trigger] spans[i]) == lit_point(
        points[i],
        dir,
        theme,
    ) by {}
}

} // verus!
