//! The always-on status row, in its two compositions.

use vstd::prelude::*;

use crate::attention::{summary, summary_cells, AttentionQueue, QueueEntry};
use crate::cells::{
    copy_cells, exactly, fit_row, fitted, join3, or, painted, push_cells, push_char, push_chars,
    push_styled, row_view, to_width,
};
use crate::chrome::{header_cells, header_row, ChromeOptions, PaneChrome, PaneChromeView};
use crate::palette::{
    accent, border, chrome_blank, info, muted, plain, primary, push_glyph, push_str,
    raised_surface, success, surface, warning,
};
use crate::proto::{Cell, CellAttrs, Color, Point, Size, TabSummary};
use crate::renderer::{Span, SpanView};
use crate::tabs::{
    active_of, active_tab, named, narrower, narrower_window, nonempty, plural, plural_chars,
};
use crate::text::{chars_of, decimal, decimal_chars, push_all};

verus! {

/// Which composition the status row takes.
#[derive(Clone, Copy, Debug, PartialEq, Eq, Structural)]
pub enum StatusMode {
    Minimal,
    Powerline,
}

/// A bounded client-local answer about the focused pane's repository.
#[derive(Clone, Debug, PartialEq, Eq)]
pub struct RepositoryStatus {
    pub branch: Option<String>,
    pub changes: u32,
}

/// The settled hint for the default prefix.
pub const DEFAULT_PREFIX_HINT: &'static str = "C-b";

/// The status row's prefix field: what the prefix is called, whether one is
/// pending, and whether the first-attach clues are being offered.
#[derive(Clone, Debug, PartialEq, Eq)]
pub struct PrefixHint {
    pub prefix: String,
    pub guide: bool,
    pub pending: bool,
}

impl PrefixHint {
    /// A settled, unguided hint over a prefix spelling.
    pub fn new(prefix: &str) -> (hint: PrefixHint)
        ensures
            hint.prefix@ == prefix@,
            !hint.guide,
            !hint.pending,
    {
        PrefixHint { prefix: prefix.to_owned(), guide: false, pending: false }
    }

    /// The hint a workspace with `panes` visible panes shows: one pane is what
    /// turns the first-attach clues on.
    pub fn for_panes(prefix: &str, panes: usize) -> (hint: PrefixHint)
        ensures
            hint.prefix@ == prefix@,
            hint.guide == (panes <= 1),
            !hint.pending,
    {
        PrefixHint::new(prefix).guided(panes <= 1)
    }

    /// Offers, or withdraws, the first-attach clues.
    pub fn guided(self, guide: bool) -> (hint: PrefixHint)
        ensures
            hint == (PrefixHint { guide, ..self }),
    {
        PrefixHint { guide, ..self }
    }

    /// Marks the prefix as pressed and awaiting its next chord.
    pub fn pending(self, pending: bool) -> (hint: PrefixHint)
        ensures
            hint == (PrefixHint { pending, ..self }),
    {
        PrefixHint { pending, ..self }
    }

    /// The configured chord's spelling, exactly as it will be drawn.
    pub fn prefix(&self) -> (prefix: &str)
        ensures
            prefix@ == self.prefix@,
    {
        self.prefix.as_str()
    }

    /// Whether a prefix has been pressed and the next chord is the client's.
    #[verifier::allow_in_spec]
    pub fn is_pending(&self) -> bool
        returns
            (self.pending),
    {
        self.pending
    }

    /// Whether the first-attach clues are being offered.
    #[verifier::allow_in_spec]
    pub fn is_guided(&self) -> bool
        returns
            (self.guide || self.pending),
    {
        self.guide || self.pending
    }

    /// The prefix chord alone, bracketed and accented while pending.
    pub open spec fn chord(self) -> Seq<Cell> {
        if self.pending {
            plain(seq!['['] + self.prefix@ + seq![']'], accent(), CellAttrs::bold())
        } else {
            plain(self.prefix@, primary(), CellAttrs::none())
        }
    }

    /// The prefix chord with the first `clues` clues behind it.
    pub open spec fn guide(self, clues: nat) -> Seq<Cell> {
        self.chord() + (if clues > 0 {
            clue("split"@, '%')
        } else {
            seq![]
        }) + (if clues > 1 {
            clue("stack"@, '"')
        } else {
            seq![]
        }) + (if clues > 2 {
            clue("help"@, '?')
        } else {
            seq![]
        })
    }

    /// The last character of the configured spelling.
    pub open spec fn last_char(self) -> char {
        if self.prefix@.len() == 0 {
            'b'
        } else {
            self.prefix@.last()
        }
    }

    fn prefix_cells(&self) -> (cells: Vec<Cell>)
        ensures
            cells@ == self.chord(),
    {
        let mut cells: Vec<Cell> = Vec::new();
        if self.pending {
            push_glyph(&mut cells, '[', accent(), CellAttrs::bold());
            push_str(&mut cells, self.prefix.as_str(), accent(), CellAttrs::bold());
            push_glyph(&mut cells, ']', accent(), CellAttrs::bold());
        } else {
            push_str(&mut cells, self.prefix.as_str(), primary(), CellAttrs::none());
        }
        assert(cells@ =~= self.chord());
        cells
    }

    fn guide_cells(&self, clues: usize) -> (cells: Vec<Cell>)
        ensures
            cells@ == self.guide(clues as nat),
    {
        let mut cells = self.prefix_cells();
        if clues > 0 {
            push_clue(&mut cells, "split", '%');
        }
        if clues > 1 {
            push_clue(&mut cells, "stack", '"');
        }
        if clues > 2 {
            push_clue(&mut cells, "help", '?');
        }
        assert(cells@ =~= self.guide(clues as nat));
        cells
    }

    fn mark(&self) -> (mark: char)
        ensures
            mark == self.last_char(),
    {
        let chars = chars_of(self.prefix.as_str());
        if chars.len() == 0 {
            'b'
        } else {
            chars[chars.len() - 1]
        }
    }
}

impl Default for PrefixHint {
    fn default() -> (hint: PrefixHint)
        ensures
            hint.prefix@ == "C-b"@,
            !hint.guide,
            !hint.pending,
    {
        PrefixHint::new("C-b")
    }
}

/// One clue the first-attach guide offers.
pub open spec fn clue(word: Seq<char>, key: char) -> Seq<Cell> {
    plain(seq![' '] + word + seq![' '], muted(), CellAttrs::none()) + plain(
        seq![key],
        accent(),
        CellAttrs::bold(),
    )
}

fn push_clue(cells: &mut Vec<Cell>, word: &str, key: char)
    ensures
        final(cells)@ == old(cells)@ + clue(word@, key),
{
    push_glyph(cells, ' ', muted(), CellAttrs::none());
    push_str(cells, word, muted(), CellAttrs::none());
    push_glyph(cells, ' ', muted(), CellAttrs::none());
    push_glyph(cells, key, accent(), CellAttrs::bold());
    assert(cells@ =~= old(cells)@ + clue(word@, key));
}

/// The truthful values available to either status-row composition. Optional
/// values are absent rather than represented by placeholders.
#[derive(Clone, Copy, Debug)]
pub struct StatusBar<'a> {
    pub tabs: &'a [TabSummary],
    pub queue: &'a AttentionQueue,
    pub hint: &'a PrefixHint,
    pub session: Option<&'a str>,
    pub clients: Option<u16>,
    pub effective_size: Option<Size>,
    pub repository: Option<&'a RepositoryStatus>,
    pub clock: Option<&'a str>,
    pub mode: StatusMode,
    pub powerline_separators: bool,
}

impl<'a> StatusBar<'a> {
    /// Starts a bar with its required tab, attention, and prefix projections.
    #[verifier::allow_in_spec]
    pub fn new(
        tabs: &'a [TabSummary],
        queue: &'a AttentionQueue,
        hint: &'a PrefixHint,
    ) -> StatusBar<'a>
        returns
            (StatusBar {
                tabs,
                queue,
                hint,
                session: None,
                clients: None,
                effective_size: None,
                repository: None,
                clock: None,
                mode: StatusMode::Minimal,
                powerline_separators: false,
            }),
    {
        StatusBar {
            tabs,
            queue,
            hint,
            session: None,
            clients: None,
            effective_size: None,
            repository: None,
            clock: None,
            mode: StatusMode::Minimal,
            powerline_separators: false,
        }
    }

    /// Supplies the logical session name.
    #[verifier::allow_in_spec]
    pub fn session(self, session: &'a str) -> StatusBar<'a>
        returns
            (StatusBar { session: Some(session), ..self }),
    {
        StatusBar { session: Some(session), ..self }
    }

    /// Supplies the attached-client count.
    #[verifier::allow_in_spec]
    pub fn clients(self, clients: u16) -> StatusBar<'a>
        returns
            (StatusBar { clients: Some(clients), ..self }),
    {
        StatusBar { clients: Some(clients), ..self }
    }

    /// Supplies the effective minimum terminal size.
    #[verifier::allow_in_spec]
    pub fn effective_size(self, size: Size) -> StatusBar<'a>
        returns
            (StatusBar { effective_size: Some(size), ..self }),
    {
        StatusBar { effective_size: Some(size), ..self }
    }

    /// Supplies the focused pane's repository answer.
    #[verifier::allow_in_spec]
    pub fn repository(self, repository: &'a RepositoryStatus) -> StatusBar<'a>
        returns
            (StatusBar { repository: Some(repository), ..self }),
    {
        StatusBar { repository: Some(repository), ..self }
    }

    /// Supplies the client-local wall-clock text.
    #[verifier::allow_in_spec]
    pub fn clock(self, clock: &'a str) -> StatusBar<'a>
        returns
            (StatusBar { clock: Some(clock), ..self }),
    {
        StatusBar { clock: Some(clock), ..self }
    }

    /// Selects the status composition. Selecting powerline also opts into its
    /// font separator.
    #[verifier::allow_in_spec]
    pub fn mode(self, mode: StatusMode) -> StatusBar<'a>
        returns
            (StatusBar { mode, powerline_separators: mode == StatusMode::Powerline, ..self }),
    {
        StatusBar { mode, powerline_separators: mode == StatusMode::Powerline, ..self }
    }

    /// Enables or disables the optional powerline separator glyph.
    #[verifier::allow_in_spec]
    pub fn powerline_separators(self, supported: bool) -> StatusBar<'a>
        returns
            (StatusBar { powerline_separators: supported, ..self }),
    {
        StatusBar { powerline_separators: supported, ..self }
    }
}

// Fields of the row.

/// `text` padded by one cell on each side, in one style.
pub open spec fn segment(text: Seq<char>, fg: Color, bg: Color, attrs: CellAttrs) -> Seq<Cell> {
    painted(seq![' '] + text + seq![' '], fg, bg, attrs)
}

fn segment_cells(text: &[char], fg: Color, bg: Color, attrs: CellAttrs) -> (cells: Vec<Cell>)
    ensures
        cells@ == segment(text@, fg, bg, attrs),
{
    let mut cells: Vec<Cell> = Vec::new();
    push_char(&mut cells, ' ', fg, bg, attrs);
    push_chars(&mut cells, text, fg, bg, attrs);
    push_char(&mut cells, ' ', fg, bg, attrs);
    assert(cells@ =~= segment(text@, fg, bg, attrs));
    cells
}

/// `cells` with a chrome blank on each side.
pub open spec fn flanked(cells: Seq<Cell>) -> Seq<Cell> {
    seq![chrome_blank()] + cells + seq![chrome_blank()]
}

fn flank(cells: &[Cell]) -> (row: Vec<Cell>)
    ensures
        row@ == flanked(cells@),
{
    let mut row: Vec<Cell> = Vec::new();
    row.push(chrome_blank());
    push_cells(&mut row, cells);
    row.push(chrome_blank());
    assert(row@ =~= flanked(cells@));
    row
}

/// The session field: `s` with the name, where it is known.
pub open spec fn session_text(session: Option<&str>) -> Seq<char> {
    match named(session) {
        Some(name) => seq!['s', ' '] + name,
        None => seq!['s'],
    }
}

fn session_chars(session: Option<&str>) -> (text: Vec<char>)
    ensures
        text@ == session_text(session),
{
    let mut text: Vec<char> = Vec::new();
    text.push('s');
    if let Some(name) = nonempty(session) {
        text.push(' ');
        let chars = chars_of(name);
        push_all(&mut text, chars.as_slice());
    }
    assert(text@ =~= session_text(session));
    text
}

/// One tab as the status row shows it, with or without its title.
pub open spec fn status_tab(active: bool, title: Seq<char>, index: nat, titled: bool) -> Seq<Cell> {
    let bg = if active {
        raised_surface()
    } else {
        surface()
    };
    let attrs = if active {
        CellAttrs::bold().union(CellAttrs::underline())
    } else {
        CellAttrs::none()
    };
    painted(seq![' '], muted(), bg, attrs) + painted(
        seq![
            if active {
                '>'
            } else {
                ' '
            },
        ],
        if active {
            accent()
        } else {
            muted()
        },
        bg,
        attrs,
    ) + painted(
        decimal(index),
        if active {
            info()
        } else {
            muted()
        },
        bg,
        attrs,
    ) + (if titled && title.len() > 0 {
        painted(seq![' '], muted(), bg, attrs) + painted(
            title,
            if active {
                primary()
            } else {
                muted()
            },
            bg,
            attrs,
        )
    } else {
        seq![]
    }) + painted(seq![' '], muted(), bg, attrs)
}

fn push_status_tab(cells: &mut Vec<Cell>, tab: &TabSummary, index: usize, titled: bool)
    ensures
        final(cells)@ == old(cells)@ + status_tab(tab.active, tab.title@, index as nat, titled),
{
    let (bg, attrs): (Color, CellAttrs) = if tab.active {
        (raised_surface(), CellAttrs::bold().union(CellAttrs::underline()))
    } else {
        (surface(), CellAttrs::none())
    };
    let (marker, marker_fg, index_fg, title_fg): (char, Color, Color, Color) = if tab.active {
        ('>', accent(), info(), primary())
    } else {
        (' ', muted(), muted(), muted())
    };
    push_char(cells, ' ', muted(), bg, attrs);
    push_char(cells, marker, marker_fg, bg, attrs);
    let number = decimal_chars(index as u64);
    push_chars(cells, number.as_slice(), index_fg, bg, attrs);
    if titled && tab.title.as_str().unicode_len() > 0 {
        push_char(cells, ' ', muted(), bg, attrs);
        push_styled(cells, tab.title.as_str(), title_fg, bg, attrs);
    }
    push_char(cells, ' ', muted(), bg, attrs);
    assert(cells@ =~= old(cells)@ + status_tab(tab.active, tab.title@, index as nat, titled));
}

/// The active tab's field, or a bare marker where there is no tab.
pub open spec fn active_status_tab(tabs: Seq<TabSummary>, titled: bool) -> Seq<Cell> {
    if tabs.len() == 0 {
        plain(seq!['>'], accent(), CellAttrs::bold())
    } else {
        let active = active_of(tabs);
        let tab = tabs[active as int];
        status_tab(tab.active, tab.title@, active + 1, titled)
    }
}

fn active_status_tab_cells(tabs: &[TabSummary], titled: bool) -> (cells: Vec<Cell>)
    ensures
        cells@ == active_status_tab(tabs@, titled),
{
    let mut cells: Vec<Cell> = Vec::new();
    if tabs.len() == 0 {
        push_glyph(&mut cells, '>', accent(), CellAttrs::bold());
    } else {
        let active: usize = active_tab(tabs);
        push_status_tab(&mut cells, &tabs[active], active + 1, titled);
    }
    assert(cells@ =~= active_status_tab(tabs@, titled));
    cells
}

/// The tabs from `first` up to `last`, with their titles.
pub open spec fn status_tabs(tabs: Seq<TabSummary>, first: nat, last: nat) -> Seq<Cell>
    decreases last,
{
    if last <= first || last == 0 {
        seq![]
    } else {
        let tab = tabs[last - 1];
        status_tabs(tabs, first, (last - 1) as nat) + status_tab(
            tab.active,
            tab.title@,
            last,
            true,
        )
    }
}

fn status_tabs_cells(tabs: &[TabSummary], window: (usize, usize)) -> (cells: Vec<Cell>)
    requires
        window.0 <= window.1 <= tabs@.len(),
    ensures
        cells@ == status_tabs(tabs@, window.0 as nat, window.1 as nat),
{
    let mut cells: Vec<Cell> = Vec::new();
    let mut i: usize = window.0;
    while i < window.1
        invariant
            window.0 <= i <= window.1 <= tabs@.len(),
            cells@ == status_tabs(tabs@, window.0 as nat, i as nat),
        decreases window.1 - i,
    {
        push_status_tab(&mut cells, &tabs[i], i + 1, true);
        i = i + 1;
    }
    cells
}

/// The attention field: the tally, or an explicit zero.
pub open spec fn attention_field(queue: &AttentionQueue) -> Seq<Cell> {
    let tally = summary(queue@.entries);
    if tally.len() == 0 {
        plain(seq!['0', '!'], muted(), CellAttrs::bold())
    } else {
        tally
    }
}

fn status_attention_cells(queue: &AttentionQueue) -> (cells: Vec<Cell>)
    ensures
        cells@ == attention_field(queue),
{
    let tally = summary_cells(queue);
    if tally.len() > 0 {
        return tally;
    }
    let mut cells: Vec<Cell> = Vec::new();
    push_glyph(&mut cells, '0', muted(), CellAttrs::bold());
    push_glyph(&mut cells, '!', muted(), CellAttrs::bold());
    assert(cells@ =~= attention_field(queue));
    cells
}

/// The attention count alone.
pub open spec fn attention_count(queue: &AttentionQueue) -> Seq<Cell> {
    plain(
        decimal(queue@.entries.len()).push('!'),
        if queue@.entries.len() == 0 {
            muted()
        } else {
            warning()
        },
        CellAttrs::bold(),
    )
}

fn attention_count_cells(queue: &AttentionQueue) -> (cells: Vec<Cell>)
    ensures
        cells@ == attention_count(queue),
{
    let mut text = decimal_chars(queue.count() as u64);
    text.push('!');
    let fg: Color = if queue.is_empty() {
        muted()
    } else {
        warning()
    };
    let mut cells: Vec<Cell> = Vec::new();
    push_chars(&mut cells, text.as_slice(), fg, surface(), CellAttrs::bold());
    assert(cells@ =~= attention_count(queue));
    cells
}

/// The repository field, without its padding.
pub open spec fn repository_text(repository: &RepositoryStatus) -> Seq<Cell> {
    let branch = match repository.branch {
        Some(branch) => if branch@.len() == 0 {
            seq![]
        } else {
            plain(seq![' '], muted(), CellAttrs::none()) + plain(
                branch@,
                primary(),
                CellAttrs::none(),
            )
        },
        None => seq![],
    };
    let changes = if repository.changes > 0 {
        plain(seq![' '], muted(), CellAttrs::none()) + plain(
            seq!['+'] + decimal(repository.changes as nat),
            warning(),
            CellAttrs::none(),
        )
    } else {
        seq![]
    };
    plain("git"@, success(), CellAttrs::bold()) + branch + changes
}

fn repository_cells(repository: &RepositoryStatus) -> (cells: Vec<Cell>)
    ensures
        cells@ == flanked(repository_text(repository)),
{
    let mut cells: Vec<Cell> = Vec::new();
    push_str(&mut cells, "git", success(), CellAttrs::bold());
    if let Some(branch) = &repository.branch {
        if branch.as_str().unicode_len() > 0 {
            push_glyph(&mut cells, ' ', muted(), CellAttrs::none());
            push_str(&mut cells, branch.as_str(), primary(), CellAttrs::none());
        }
    }
    if repository.changes > 0 {
        push_glyph(&mut cells, ' ', muted(), CellAttrs::none());
        push_glyph(&mut cells, '+', warning(), CellAttrs::none());
        let count = decimal_chars(repository.changes as u64);
        push_chars(&mut cells, count.as_slice(), warning(), surface(), CellAttrs::none());
    }
    assert(cells@ =~= repository_text(repository));
    flank(cells.as_slice())
}

/// The optional fields of the minimal row, each nothing where it is absent.
pub open spec fn repository_field(repository: Option<&RepositoryStatus>) -> Seq<Cell> {
    match repository {
        Some(found) => flanked(repository_text(found)),
        None => seq![],
    }
}

pub open spec fn client_field(clients: Option<u16>) -> Seq<Cell> {
    match clients {
        Some(count) => segment(
            plural(count as nat, "client"@),
            muted(),
            surface(),
            CellAttrs::none(),
        ),
        None => seq![],
    }
}

pub open spec fn clock_field(clock: Option<&str>) -> Seq<Cell> {
    match named(clock) {
        Some(text) => segment(text, primary(), surface(), CellAttrs::bold()),
        None => seq![],
    }
}

fn repository_field_cells(repository: Option<&RepositoryStatus>) -> (cells: Vec<Cell>)
    ensures
        cells@ == repository_field(repository),
{
    match repository {
        Some(found) => repository_cells(found),
        None => Vec::new(),
    }
}

fn client_cells(clients: Option<u16>) -> (cells: Vec<Cell>)
    ensures
        cells@ == client_field(clients),
{
    match clients {
        Some(count) => {
            let text = plural_chars(count as usize, "client");
            segment_cells(text.as_slice(), muted(), surface(), CellAttrs::none())
        },
        None => Vec::new(),
    }
}

fn clock_cells(clock: Option<&str>) -> (cells: Vec<Cell>)
    ensures
        cells@ == clock_field(clock),
{
    match nonempty(clock) {
        Some(text) => {
            let chars = chars_of(text);
            segment_cells(chars.as_slice(), primary(), surface(), CellAttrs::bold())
        },
        None => Vec::new(),
    }
}

// The minimal composition.

/// `left` and `right` at the two ends of a status row.
pub open spec fn ends(left: Seq<Cell>, right: Seq<Cell>, width: nat) -> Option<Seq<Cell>> {
    fitted(left, 0, right, width, chrome_blank())
}

fn fit_ends(left: &[Cell], right: &[Cell], width: usize) -> (row: Option<Vec<Cell>>)
    ensures
        row_view(row) == ends(left@, right@, width as nat),
        row matches Some(cells) ==> cells@.len() == width,
{
    fit_row(left, 0, right, width, chrome_blank())
}

/// The session field of the minimal row.
pub open spec fn minimal_session(session: Option<&str>) -> Seq<Cell> {
    if named(session) is Some {
        segment(session_text(session), surface(), accent(), CellAttrs::bold())
    } else {
        segment(session_text(session), primary(), surface(), CellAttrs::bold())
    }
}

fn minimal_session_cells(session: Option<&str>) -> (cells: Vec<Cell>)
    ensures
        cells@ == minimal_session(session),
{
    let text = session_chars(session);
    let (fg, bg): (Color, Color) = if nonempty(session).is_some() {
        (surface(), accent())
    } else {
        (primary(), surface())
    };
    segment_cells(text.as_slice(), fg, bg, CellAttrs::bold())
}

/// First-attach guidance on the right, yielding its clues from the end.
pub open spec fn guided_row(hint: &PrefixHint, left: Seq<Cell>, width: nat) -> Option<Seq<Cell>> {
    if hint.is_guided() {
        or(
            ends(left, flanked(hint.guide(3)), width),
            or(
                ends(left, flanked(hint.guide(2)), width),
                ends(left, flanked(hint.guide(1)), width),
            ),
        )
    } else {
        None
    }
}

fn guided_cells(hint: &PrefixHint, left: &[Cell], width: usize) -> (row: Option<Vec<Cell>>)
    ensures
        row_view(row) == guided_row(hint, left@, width as nat),
        row matches Some(cells) ==> cells@.len() == width,
{
    if !hint.is_guided() {
        return None;
    }
    let three = hint.guide_cells(3);
    let three = flank(three.as_slice());
    let row = fit_ends(left, three.as_slice(), width);
    if row.is_some() {
        return row;
    }
    let two = hint.guide_cells(2);
    let two = flank(two.as_slice());
    let row = fit_ends(left, two.as_slice(), width);
    if row.is_some() {
        return row;
    }
    let one = hint.guide_cells(1);
    let one = flank(one.as_slice());
    fit_ends(left, one.as_slice(), width)
}

/// Optional detail on the right, giving up the clock, then the clients, then
/// the repository.
pub open spec fn detailed_row(
    left: Seq<Cell>,
    repository: Seq<Cell>,
    clients: Seq<Cell>,
    prefix: Seq<Cell>,
    clock: Seq<Cell>,
    width: nat,
) -> Option<Seq<Cell>> {
    or(
        ends(left, repository + clients + prefix + clock, width),
        or(
            ends(left, repository + clients + prefix, width),
            or(ends(left, repository + prefix, width), ends(left, prefix, width)),
        ),
    )
}

fn detailed_cells(
    left: &[Cell],
    repository: &[Cell],
    clients: &[Cell],
    prefix: &[Cell],
    clock: &[Cell],
    width: usize,
) -> (row: Option<Vec<Cell>>)
    ensures
        row_view(row) == detailed_row(
            left@,
            repository@,
            clients@,
            prefix@,
            clock@,
            width as nat,
        ),
        row matches Some(cells) ==> cells@.len() == width,
{
    let mut right = join3(repository, clients, prefix);
    let three = copy_cells(right.as_slice());
    push_cells(&mut right, clock);
    let row = fit_ends(left, right.as_slice(), width);
    if row.is_some() {
        return row;
    }
    let row = fit_ends(left, three.as_slice(), width);
    if row.is_some() {
        return row;
    }
    let mut two = copy_cells(repository);
    push_cells(&mut two, prefix);
    let row = fit_ends(left, two.as_slice(), width);
    if row.is_some() {
        return row;
    }
    fit_ends(left, prefix, width)
}

/// Inactive tabs yielding around the active one.
pub open spec fn windowed_row(
    session: Seq<Cell>,
    tabs: Seq<TabSummary>,
    attention: Seq<Cell>,
    prefix: Seq<Cell>,
    first: nat,
    last: nat,
    active: nat,
    width: nat,
) -> Option<Seq<Cell>>
    decreases last - first,
{
    or(
        ends(session + status_tabs(tabs, first, last) + attention, prefix, width),
        match narrower(first, last, active) {
            Some((a, b)) => windowed_row(session, tabs, attention, prefix, a, b, active, width),
            None => None,
        },
    )
}

fn windowed_cells(
    session: &[Cell],
    tabs: &[TabSummary],
    attention: &[Cell],
    prefix: &[Cell],
    active: usize,
    width: usize,
) -> (row: Option<Vec<Cell>>)
    ensures
        row_view(row) == windowed_row(
            session@,
            tabs@,
            attention@,
            prefix@,
            0,
            tabs@.len(),
            active as nat,
            width as nat,
        ),
        row matches Some(cells) ==> cells@.len() == width,
{
    let mut window: (usize, usize) = (0, tabs.len());
    let mut open: bool = true;
    while open
        invariant
            window.0 <= window.1 <= tabs@.len(),
            open ==> windowed_row(
                session@,
                tabs@,
                attention@,
                prefix@,
                0,
                tabs@.len(),
                active as nat,
                width as nat,
            ) == windowed_row(
                session@,
                tabs@,
                attention@,
                prefix@,
                window.0 as nat,
                window.1 as nat,
                active as nat,
                width as nat,
            ),
            !open ==> windowed_row(
                session@,
                tabs@,
                attention@,
                prefix@,
                0,
                tabs@.len(),
                active as nat,
                width as nat,
            ) is None,
        decreases window.1 - window.0, (if open { 1int } else { 0int }),
    {
        let chips = status_tabs_cells(tabs, window);
        let left = join3(session, chips.as_slice(), attention);
        let row = fit_ends(left.as_slice(), prefix, width);
        if row.is_some() {
            return row;
        }
        match narrower_window(window, active) {
            Some(next) => {
                window = next;
            },
            None => {
                open = false;
            },
        }
    }
    None
}

/// The compact rows, each shortening one more field.
pub open spec fn compact_row(
    session: Seq<Cell>,
    tab: Seq<Cell>,
    attention: Seq<Cell>,
    count: Seq<Cell>,
    prefix: Seq<Cell>,
    chord: Seq<Cell>,
    width: nat,
) -> Option<Seq<Cell>> {
    let session_mark = plain(seq!['s'], primary(), CellAttrs::bold());
    let tab_mark = plain(seq!['>'], accent(), CellAttrs::bold());
    let attention_mark = plain(seq!['!'], warning(), CellAttrs::bold());
    or(
        ends(session + tab + attention, prefix, width),
        or(
            ends(session_mark + tab + attention, prefix, width),
            or(
                ends(session_mark + tab + count, prefix, width),
                or(
                    ends(session_mark + tab + count, chord, width),
                    ends(session_mark + tab_mark + attention_mark, chord, width),
                ),
            ),
        ),
    )
}

fn mark_cells(mark: char, fg: Color) -> (cells: Vec<Cell>)
    ensures
        cells@ == plain(seq![mark], fg, CellAttrs::bold()),
{
    let mut cells: Vec<Cell> = Vec::new();
    push_glyph(&mut cells, mark, fg, CellAttrs::bold());
    assert(cells@ =~= plain(seq![mark], fg, CellAttrs::bold()));
    cells
}

fn compact_cells(
    session: &[Cell],
    tab: &[Cell],
    attention: &[Cell],
    count: &[Cell],
    prefix: &[Cell],
    chord: &[Cell],
    width: usize,
) -> (row: Option<Vec<Cell>>)
    ensures
        row_view(row) == compact_row(
            session@,
            tab@,
            attention@,
            count@,
            prefix@,
            chord@,
            width as nat,
        ),
        row matches Some(cells) ==> cells@.len() == width,
{
    let session_mark = mark_cells('s', primary());
    let left = join3(session, tab, attention);
    let row = fit_ends(left.as_slice(), prefix, width);
    if row.is_some() {
        return row;
    }
    let left = join3(session_mark.as_slice(), tab, attention);
    let row = fit_ends(left.as_slice(), prefix, width);
    if row.is_some() {
        return row;
    }
    let left = join3(session_mark.as_slice(), tab, count);
    let row = fit_ends(left.as_slice(), prefix, width);
    if row.is_some() {
        return row;
    }
    let row = fit_ends(left.as_slice(), chord, width);
    if row.is_some() {
        return row;
    }
    let tab_mark = mark_cells('>', accent());
    let attention_mark = mark_cells('!', warning());
    let left = join3(session_mark.as_slice(), tab_mark.as_slice(), attention_mark.as_slice());
    fit_ends(left.as_slice(), chord, width)
}

/// The four markers every required field keeps, cut or padded to the width.
pub open spec fn minimal_marks(hint: &PrefixHint, width: nat) -> Seq<Cell> {
    exactly(
        plain(seq!['s'], primary(), CellAttrs::bold()) + plain(
            seq!['>'],
            accent(),
            CellAttrs::bold(),
        ) + plain(seq!['!'], warning(), CellAttrs::bold()) + plain(
            seq![hint.last_char()],
            primary(),
            CellAttrs::none(),
        ),
        width,
        chrome_blank(),
    )
}

/// The minimal status row in the reference palette: the first of these that
/// fits.
pub open spec fn minimal_reference(bar: StatusBar, width: nat) -> Seq<Cell> {
    let tabs = bar.tabs@;
    let session = minimal_session(bar.session);
    let attention = flanked(attention_field(bar.queue));
    let prefix = flanked(bar.hint.chord());
    let left = session + status_tabs(tabs, 0, tabs.len()) + attention;
    let row = or(
        guided_row(bar.hint, left, width),
        or(
            detailed_row(
                left,
                repository_field(bar.repository),
                client_field(bar.clients),
                prefix,
                clock_field(bar.clock),
                width,
            ),
            or(
                windowed_row(
                    session,
                    tabs,
                    attention,
                    prefix,
                    0,
                    tabs.len(),
                    active_of(tabs),
                    width,
                ),
                compact_row(
                    session,
                    active_status_tab(tabs, false),
                    attention,
                    attention_count(bar.queue),
                    prefix,
                    bar.hint.chord(),
                    width,
                ),
            ),
        ),
    );
    match row {
        Some(cells) => cells,
        None => minimal_marks(bar.hint, width),
    }
}

fn minimal_status_bar_cells(bar: StatusBar<'_>, width: usize) -> (cells: Vec<Cell>)
    ensures
        cells@ == minimal_reference(bar, width as nat),
        cells@.len() == width,
{
    let session = minimal_session_cells(bar.session);
    let attention = status_attention_cells(bar.queue);
    let attention = flank(attention.as_slice());
    let chord = bar.hint.prefix_cells();
    let prefix = flank(chord.as_slice());
    let tabs = status_tabs_cells(bar.tabs, (0, bar.tabs.len()));
    let left = join3(session.as_slice(), tabs.as_slice(), attention.as_slice());
    if let Some(cells) = guided_cells(bar.hint, left.as_slice(), width) {
        return cells;
    }
    let repository = repository_field_cells(bar.repository);
    let clients = client_cells(bar.clients);
    let clock = clock_cells(bar.clock);
    if let Some(cells) = detailed_cells(
        left.as_slice(),
        repository.as_slice(),
        clients.as_slice(),
        prefix.as_slice(),
        clock.as_slice(),
        width,
    ) {
        return cells;
    }
    let active: usize = active_tab(bar.tabs);
    if let Some(cells) = windowed_cells(
        session.as_slice(),
        bar.tabs,
        attention.as_slice(),
        prefix.as_slice(),
        active,
        width,
    ) {
        return cells;
    }
    let tab = active_status_tab_cells(bar.tabs, false);
    let count = attention_count_cells(bar.queue);
    if let Some(cells) = compact_cells(
        session.as_slice(),
        tab.as_slice(),
        attention.as_slice(),
        count.as_slice(),
        prefix.as_slice(),
        chord.as_slice(),
        width,
    ) {
        return cells;
    }
    let session_mark = mark_cells('s', primary());
    let tab_mark = mark_cells('>', accent());
    let attention_mark = mark_cells('!', warning());
    let mut cells = join3(
        session_mark.as_slice(),
        tab_mark.as_slice(),
        attention_mark.as_slice(),
    );
    push_glyph(&mut cells, bar.hint.mark(), primary(), CellAttrs::none());
    to_width(&mut cells, width, chrome_blank());
    cells
}

// The powerline composition.

/// `cell` over another background.
pub open spec fn over(cell: Cell, background: Color) -> Cell {
    Cell { bg: background, ..cell }
}

/// A blank of one background.
pub open spec fn blank_over(background: Color) -> Cell {
    Cell { ch: ' ', fg: Color::Default, bg: background, attrs: CellAttrs::none() }
}

/// `cells` over one background, with a blank at an end that has none.
pub open spec fn powerline_part(cells: Seq<Cell>, background: Color) -> Seq<Cell> {
    if cells.len() == 0 {
        cells
    } else {
        let recoloured = cells.map_values(|cell: Cell| over(cell, background));
        let front = if cells[0].ch != ' ' {
            seq![blank_over(background)] + recoloured
        } else {
            recoloured
        };
        if cells.last().ch != ' ' {
            front.push(blank_over(background))
        } else {
            front
        }
    }
}

fn powerline_segment(cells: &[Cell], background: Color) -> (part: Vec<Cell>)
    ensures
        part@ == powerline_part(cells@, background),
{
    let mut part: Vec<Cell> = Vec::new();
    if cells.len() == 0 {
        assert(part@ =~= cells@);
        return part;
    }
    let blank = Cell { ch: ' ', fg: Color::Default, bg: background, attrs: CellAttrs::none() };
    assert(blank == blank_over(background));
    if cells[0].ch != ' ' {
        part.push(blank);
    }
    let ghost front = part@;
    for i in 0..cells.len()
        invariant
            part@ == front + cells@.take(i as int).map_values(|cell: Cell| over(cell, background)),
    {
        let cell = cells[i];
        part.push(Cell { ch: cell.ch, fg: cell.fg, bg: background, attrs: cell.attrs });
        assert(cells@.take(i + 1) =~= cells@.take(i as int).push(cells@[i as int]));
        assert(cells@.take(i + 1).map_values(|cell: Cell| over(cell, background)) =~= cells@.take(
            i as int,
        ).map_values(|cell: Cell| over(cell, background)).push(over(cells@[i as int], background)));
    }
    assert(cells@.take(cells@.len() as int) =~= cells@);
    if cells[cells.len() - 1].ch != ' ' {
        part.push(blank);
    }
    assert(part@ =~= powerline_part(cells@, background));
    part
}

/// `part` behind `group`, with a separator between the two backgrounds where
/// separators are drawn. An empty part adds nothing.
pub open spec fn grouped(group: Seq<Cell>, part: Seq<Cell>, separators: bool) -> Seq<Cell> {
    if part.len() == 0 {
        group
    } else if separators && group.len() > 0 {
        group.push(
            Cell {
                ch: '\u{e0b0}',
                fg: group.last().bg,
                bg: part[0].bg,
                attrs: CellAttrs::none(),
            },
        ) + part
    } else {
        group + part
    }
}

fn push_powerline(group: &mut Vec<Cell>, part: &[Cell], separators: bool)
    ensures
        final(group)@ == grouped(old(group)@, part@, separators),
{
    if part.len() == 0 {
        return;
    }
    if separators && group.len() > 0 {
        let previous: Color = group[group.len() - 1].bg;
        group.push(
            Cell { ch: '\u{e0b0}', fg: previous, bg: part[0].bg, attrs: CellAttrs::none() },
        );
    }
    push_cells(group, part);
}

/// One powerline row, or nothing where it does not fit: four fields on the
/// left, two on the right.
pub open spec fn powerline_candidate(
    mode: Seq<Cell>,
    session: Seq<Cell>,
    tab: Seq<Cell>,
    detail: Seq<Cell>,
    clients: Seq<Cell>,
    clock: Seq<Cell>,
    separators: bool,
    width: nat,
) -> Option<Seq<Cell>> {
    let left = grouped(
        grouped(grouped(grouped(seq![], mode, separators), session, separators), tab, separators),
        detail,
        separators,
    );
    let right = grouped(grouped(seq![], clients, separators), clock, separators);
    ends(left, right, width)
}

fn fit_powerline_row(
    mode: &[Cell],
    session: &[Cell],
    tab: &[Cell],
    detail: &[Cell],
    clients: &[Cell],
    clock: &[Cell],
    separators: bool,
    width: usize,
) -> (row: Option<Vec<Cell>>)
    ensures
        row_view(row) == powerline_candidate(
            mode@,
            session@,
            tab@,
            detail@,
            clients@,
            clock@,
            separators,
            width as nat,
        ),
        row matches Some(cells) ==> cells@.len() == width,
{
    let mut left: Vec<Cell> = Vec::new();
    push_powerline(&mut left, mode, separators);
    push_powerline(&mut left, session, separators);
    push_powerline(&mut left, tab, separators);
    push_powerline(&mut left, detail, separators);
    let mut right: Vec<Cell> = Vec::new();
    push_powerline(&mut right, clients, separators);
    push_powerline(&mut right, clock, separators);
    fit_ends(left.as_slice(), right.as_slice(), width)
}

/// The client count and effective size of a powerline row.
pub open spec fn powerline_client_text(
    clients: Option<u16>,
    effective: Option<Size>,
    compact: bool,
) -> Seq<char> {
    let count = match clients {
        Some(count) => if compact {
            decimal(count as nat).push('c')
        } else {
            plural(count as nat, "client"@)
        },
        None => seq![],
    };
    match effective {
        Some(size) => count + (if clients is Some {
            if compact {
                seq![' ']
            } else {
                " · "@
            }
        } else {
            seq![]
        }) + (if compact {
            seq![]
        } else {
            "min "@
        }) + decimal(size.cols as nat) + seq!['x'] + decimal(size.rows as nat),
        None => count,
    }
}

/// The client field of a powerline row, where anything is known of it.
pub open spec fn powerline_clients(
    clients: Option<u16>,
    effective: Option<Size>,
    compact: bool,
) -> Seq<Cell> {
    if clients is None && effective is None {
        seq![]
    } else {
        segment(
            powerline_client_text(clients, effective, compact),
            muted(),
            raised_surface(),
            CellAttrs::none(),
        )
    }
}

fn powerline_client_cells(clients: Option<u16>, effective: Option<Size>, compact: bool) -> (cells:
    Vec<Cell>)
    ensures
        cells@ == powerline_clients(clients, effective, compact),
{
    if clients.is_none() && effective.is_none() {
        return Vec::new();
    }
    let mut text: Vec<char> = Vec::new();
    if let Some(count) = clients {
        if compact {
            text = decimal_chars(count as u64);
            text.push('c');
        } else {
            text = plural_chars(count as usize, "client");
        }
    }
    if let Some(size) = effective {
        if clients.is_some() {
            if compact {
                text.push(' ');
            } else {
                let dot = chars_of(" · ");
                push_all(&mut text, dot.as_slice());
            }
        }
        if !compact {
            let min = chars_of("min ");
            push_all(&mut text, min.as_slice());
        }
        let cols = decimal_chars(size.cols as u64);
        push_all(&mut text, cols.as_slice());
        text.push('x');
        let rows = decimal_chars(size.rows as u64);
        push_all(&mut text, rows.as_slice());
    }
    assert(text@ =~= powerline_client_text(clients, effective, compact));
    segment_cells(text.as_slice(), muted(), raised_surface(), CellAttrs::none())
}

/// The detail field at its widest: the repository, or attention where there is
/// no repository answer.
pub open spec fn detail_full(bar: StatusBar) -> Seq<Cell> {
    match bar.repository {
        Some(repository) => powerline_part(flanked(repository_text(repository)), surface()),
        None => powerline_part(flanked(attention_field(bar.queue)), surface()),
    }
}

/// The detail field in its short form.
pub open spec fn detail_short(bar: StatusBar) -> Seq<Cell> {
    match bar.repository {
        Some(repository) => powerline_part(
            plain("git"@, success(), CellAttrs::bold()) + (if repository.changes > 0 {
                plain(
                    seq![' ', '+'] + decimal(repository.changes as nat),
                    warning(),
                    CellAttrs::none(),
                )
            } else {
                seq![]
            }),
            surface(),
        ),
        None => powerline_part(attention_count(bar.queue), surface()),
    }
}

/// The detail field as one marker.
pub open spec fn detail_mark(bar: StatusBar) -> Seq<Cell> {
    match bar.repository {
        Some(_) => powerline_part(plain(seq!['g'], success(), CellAttrs::bold()), surface()),
        None => powerline_part(plain(seq!['!'], warning(), CellAttrs::bold()), surface()),
    }
}

fn detail_full_cells(bar: StatusBar<'_>) -> (cells: Vec<Cell>)
    ensures
        cells@ == detail_full(bar),
{
    match bar.repository {
        Some(repository) => {
            let cells = repository_cells(repository);
            powerline_segment(cells.as_slice(), surface())
        },
        None => {
            let cells = status_attention_cells(bar.queue);
            let cells = flank(cells.as_slice());
            powerline_segment(cells.as_slice(), surface())
        },
    }
}

fn detail_short_cells(bar: StatusBar<'_>) -> (cells: Vec<Cell>)
    ensures
        cells@ == detail_short(bar),
{
    match bar.repository {
        Some(repository) => {
            let mut cells: Vec<Cell> = Vec::new();
            push_str(&mut cells, "git", success(), CellAttrs::bold());
            if repository.changes > 0 {
                let mut text: Vec<char> = Vec::new();
                text.push(' ');
                text.push('+');
                let count = decimal_chars(repository.changes as u64);
                push_all(&mut text, count.as_slice());
                assert(text@ =~= seq![' ', '+'] + decimal(repository.changes as nat));
                push_chars(&mut cells, text.as_slice(), warning(), surface(), CellAttrs::none());
            }
            assert(cells@ =~= plain("git"@, success(), CellAttrs::bold()) + (if repository.changes
                > 0 {
                plain(
                    seq![' ', '+'] + decimal(repository.changes as nat),
                    warning(),
                    CellAttrs::none(),
                )
            } else {
                seq![]
            }));
            powerline_segment(cells.as_slice(), surface())
        },
        None => {
            let cells = attention_count_cells(bar.queue);
            powerline_segment(cells.as_slice(), surface())
        },
    }
}

fn detail_mark_cells(bar: StatusBar<'_>) -> (cells: Vec<Cell>)
    ensures
        cells@ == detail_mark(bar),
{
    let mark = match bar.repository {
        Some(_) => mark_cells('g', success()),
        None => mark_cells('!', warning()),
    };
    powerline_segment(mark.as_slice(), surface())
}

/// The clock field of a powerline row.
pub open spec fn powerline_clock(clock: Option<&str>) -> Seq<Cell> {
    match named(clock) {
        Some(text) => segment(text, surface(), accent(), CellAttrs::bold()),
        None => seq![],
    }
}

fn powerline_clock_cells(clock: Option<&str>) -> (cells: Vec<Cell>)
    ensures
        cells@ == powerline_clock(clock),
{
    match nonempty(clock) {
        Some(text) => {
            let chars = chars_of(text);
            segment_cells(chars.as_slice(), surface(), accent(), CellAttrs::bold())
        },
        None => Vec::new(),
    }
}

/// The rows with every left field at its widest, giving up the clock, then the
/// client detail.
pub open spec fn powerline_wide(bar: StatusBar, width: nat) -> Option<Seq<Cell>> {
    let mode = segment("NORMAL"@, surface(), accent(), CellAttrs::bold());
    let session = segment(session_text(bar.session), primary(), border(), CellAttrs::bold());
    let tab = powerline_part(active_status_tab(bar.tabs@, true), raised_surface());
    let detail = detail_full(bar);
    let full = powerline_clients(bar.clients, bar.effective_size, false);
    let short = powerline_clients(bar.clients, bar.effective_size, true);
    let clock = powerline_clock(bar.clock);
    let sep = bar.powerline_separators;
    or(
        powerline_candidate(mode, session, tab, detail, full, clock, sep, width),
        or(
            powerline_candidate(mode, session, tab, detail, full, seq![], sep, width),
            or(
                powerline_candidate(mode, session, tab, detail, short, seq![], sep, width),
                powerline_candidate(mode, session, tab, detail, seq![], seq![], sep, width),
            ),
        ),
    )
}

fn powerline_wide_cells(bar: StatusBar<'_>, width: usize) -> (row: Option<Vec<Cell>>)
    ensures
        row_view(row) == powerline_wide(bar, width as nat),
        row matches Some(cells) ==> cells@.len() == width,
{
    let sep: bool = bar.powerline_separators;
    let normal = chars_of("NORMAL");
    let mode = segment_cells(normal.as_slice(), surface(), accent(), CellAttrs::bold());
    let name = session_chars(bar.session);
    let session = segment_cells(name.as_slice(), primary(), border(), CellAttrs::bold());
    let tab = active_status_tab_cells(bar.tabs, true);
    let tab = powerline_segment(tab.as_slice(), raised_surface());
    let detail = detail_full_cells(bar);
    let full = powerline_client_cells(bar.clients, bar.effective_size, false);
    let clock = powerline_clock_cells(bar.clock);
    let nothing: Vec<Cell> = Vec::new();
    assert(nothing@ =~= seq![]);
    let row = fit_powerline_row(
        mode.as_slice(),
        session.as_slice(),
        tab.as_slice(),
        detail.as_slice(),
        full.as_slice(),
        clock.as_slice(),
        sep,
        width,
    );
    if row.is_some() {
        return row;
    }
    let row = fit_powerline_row(
        mode.as_slice(),
        session.as_slice(),
        tab.as_slice(),
        detail.as_slice(),
        full.as_slice(),
        nothing.as_slice(),
        sep,
        width,
    );
    if row.is_some() {
        return row;
    }
    let short = powerline_client_cells(bar.clients, bar.effective_size, true);
    let row = fit_powerline_row(
        mode.as_slice(),
        session.as_slice(),
        tab.as_slice(),
        detail.as_slice(),
        short.as_slice(),
        nothing.as_slice(),
        sep,
        width,
    );
    if row.is_some() {
        return row;
    }
    fit_powerline_row(
        mode.as_slice(),
        session.as_slice(),
        tab.as_slice(),
        detail.as_slice(),
        nothing.as_slice(),
        nothing.as_slice(),
        sep,
        width,
    )
}

/// The rows without a right side, each reducing one more left field.
pub open spec fn powerline_narrow(bar: StatusBar, width: nat) -> Option<Seq<Cell>> {
    let mode = segment("NORMAL"@, surface(), accent(), CellAttrs::bold());
    let mode_mark = powerline_part(plain(seq!['N'], surface(), CellAttrs::bold()), accent());
    let session = segment(session_text(bar.session), primary(), border(), CellAttrs::bold());
    let session_mark = powerline_part(plain(seq!['s'], primary(), CellAttrs::bold()), border());
    let tab = powerline_part(active_status_tab(bar.tabs@, true), raised_surface());
    let tab_short = powerline_part(active_status_tab(bar.tabs@, false), raised_surface());
    let tab_mark = powerline_part(plain(seq!['>'], accent(), CellAttrs::bold()), raised_surface());
    let detail = detail_short(bar);
    let sep = bar.powerline_separators;
    let no = Seq::<Cell>::empty();
    or(
        powerline_candidate(mode, session, tab, detail, no, no, sep, width),
        or(
            powerline_candidate(mode, session, tab_short, detail, no, no, sep, width),
            or(
                powerline_candidate(mode, session_mark, tab_short, detail, no, no, sep, width),
                or(
                    powerline_candidate(mode, session_mark, tab_mark, detail, no, no, sep, width),
                    powerline_candidate(
                        mode_mark,
                        session_mark,
                        tab_mark,
                        detail_mark(bar),
                        no,
                        no,
                        sep,
                        width,
                    ),
                ),
            ),
        ),
    )
}

fn left_only(
    mode: &[Cell],
    session: &[Cell],
    tab: &[Cell],
    detail: &[Cell],
    separators: bool,
    width: usize,
) -> (row: Option<Vec<Cell>>)
    ensures
        row_view(row) == powerline_candidate(
            mode@,
            session@,
            tab@,
            detail@,
            seq![],
            seq![],
            separators,
            width as nat,
        ),
        row matches Some(cells) ==> cells@.len() == width,
{
    let nothing: Vec<Cell> = Vec::new();
    assert(nothing@ =~= seq![]);
    fit_powerline_row(
        mode,
        session,
        tab,
        detail,
        nothing.as_slice(),
        nothing.as_slice(),
        separators,
        width,
    )
}

fn powerline_narrow_cells(bar: StatusBar<'_>, width: usize) -> (row: Option<Vec<Cell>>)
    ensures
        row_view(row) == powerline_narrow(bar, width as nat),
        row matches Some(cells) ==> cells@.len() == width,
{
    let sep: bool = bar.powerline_separators;
    let normal = chars_of("NORMAL");
    let mode = segment_cells(normal.as_slice(), surface(), accent(), CellAttrs::bold());
    let name = session_chars(bar.session);
    let session = segment_cells(name.as_slice(), primary(), border(), CellAttrs::bold());
    let tab = active_status_tab_cells(bar.tabs, true);
    let tab = powerline_segment(tab.as_slice(), raised_surface());
    let detail = detail_short_cells(bar);
    let row = left_only(
        mode.as_slice(),
        session.as_slice(),
        tab.as_slice(),
        detail.as_slice(),
        sep,
        width,
    );
    if row.is_some() {
        return row;
    }
    let short = active_status_tab_cells(bar.tabs, false);
    let short = powerline_segment(short.as_slice(), raised_surface());
    let row = left_only(
        mode.as_slice(),
        session.as_slice(),
        short.as_slice(),
        detail.as_slice(),
        sep,
        width,
    );
    if row.is_some() {
        return row;
    }
    let session_mark = mark_cells('s', primary());
    let session_mark = powerline_segment(session_mark.as_slice(), border());
    let row = left_only(
        mode.as_slice(),
        session_mark.as_slice(),
        short.as_slice(),
        detail.as_slice(),
        sep,
        width,
    );
    if row.is_some() {
        return row;
    }
    let tab_mark = mark_cells('>', accent());
    let tab_mark = powerline_segment(tab_mark.as_slice(), raised_surface());
    let row = left_only(
        mode.as_slice(),
        session_mark.as_slice(),
        tab_mark.as_slice(),
        detail.as_slice(),
        sep,
        width,
    );
    if row.is_some() {
        return row;
    }
    let mode_mark = mark_cells('N', surface());
    let mode_mark = powerline_segment(mode_mark.as_slice(), accent());
    let detail_mark = detail_mark_cells(bar);
    left_only(
        mode_mark.as_slice(),
        session_mark.as_slice(),
        tab_mark.as_slice(),
        detail_mark.as_slice(),
        sep,
        width,
    )
}

/// One marker per left field, cut or padded to the width.
pub open spec fn powerline_marks(bar: StatusBar, width: nat) -> Seq<Cell> {
    exactly(
        plain(seq!['N'], accent(), CellAttrs::bold()) + plain(
            seq!['s'],
            primary(),
            CellAttrs::bold(),
        ) + plain(seq!['>'], accent(), CellAttrs::bold()) + (if bar.repository is Some {
            plain(seq!['g'], success(), CellAttrs::bold())
        } else {
            plain(seq!['!'], warning(), CellAttrs::bold())
        }),
        width,
        chrome_blank(),
    )
}

/// The powerline status row in the reference palette: the first of these that
/// fits.
pub open spec fn powerline_reference(bar: StatusBar, width: nat) -> Seq<Cell> {
    match or(powerline_wide(bar, width), powerline_narrow(bar, width)) {
        Some(cells) => cells,
        None => powerline_marks(bar, width),
    }
}

fn powerline_status_bar_cells(bar: StatusBar<'_>, width: usize) -> (cells: Vec<Cell>)
    ensures
        cells@ == powerline_reference(bar, width as nat),
        cells@.len() == width,
{
    if let Some(cells) = powerline_wide_cells(bar, width) {
        return cells;
    }
    if let Some(cells) = powerline_narrow_cells(bar, width) {
        return cells;
    }
    let mode = mark_cells('N', accent());
    let session = mark_cells('s', primary());
    let tab = mark_cells('>', accent());
    let detail = if bar.repository.is_some() {
        mark_cells('g', success())
    } else {
        mark_cells('!', warning())
    };
    let mut cells = join3(mode.as_slice(), session.as_slice(), tab.as_slice());
    push_cells(&mut cells, detail.as_slice());
    to_width(&mut cells, width, chrome_blank());
    cells
}

/// The status row.
pub open spec fn status_bar(bar: StatusBar, width: nat, options: ChromeOptions) -> Seq<Cell> {
    options.theme.mapped_cells(
        match bar.mode {
            StatusMode::Minimal => minimal_reference(bar, width),
            StatusMode::Powerline => powerline_reference(bar, width),
        },
    )
}

/// Builds the configured always-on status composition, exactly `width` cells
/// wide.
pub fn status_bar_cells(bar: StatusBar<'_>, width: u16, options: ChromeOptions) -> (cells: Vec<
    Cell,
>)
    ensures
        cells@ == status_bar(bar, width as nat, options),
        cells@.len() == width,
{
    let cells = match bar.mode {
        StatusMode::Minimal => minimal_status_bar_cells(bar, width as usize),
        StatusMode::Powerline => powerline_status_bar_cells(bar, width as usize),
    };
    options.theme.map_storm_cells(cells)
}

/// Positions the always-on status row.
pub fn status_bar_span(at: Point, bar: StatusBar<'_>, width: u16, options: ChromeOptions) -> (span:
    Span)
    ensures
        span@ == (SpanView { at, cells: status_bar(bar, width as nat, options) }),
{
    Span::new(at, status_bar_cells(bar, width, options))
}

/// The header an attention queue row is drawn as: the row under the keyboard
/// cursor is a focused one.
pub open spec fn queue_header(entry: &QueueEntry, selected: bool) -> PaneChromeView {
    PaneChromeView {
        index: entry.index,
        title: entry.title@,
        task: None,
        attention: entry.attention,
        focused: selected,
        zoomed: false,
    }
}

/// One row of the attention queue overlay, exactly `width` cells wide.
pub fn queue_row_cells(entry: &QueueEntry, selected: bool, width: u16) -> (cells: Vec<Cell>)
    ensures
        cells@ == header_row(
            queue_header(entry, selected),
            width as nat,
            ChromeOptions::no_dim(),
        ),
        cells@.len() == width,
{
    let chrome = PaneChrome::new(entry.index, entry.title.as_str()).attention(
        entry.attention,
    ).focused(selected);
    header_cells(&chrome, width, ChromeOptions::no_dim())
}

/// One queue row as a positioned span.
pub fn queue_row_span(at: Point, entry: &QueueEntry, selected: bool, width: u16) -> (span: Span)
    ensures
        span@ == (SpanView {
            at,
            cells: header_row(
                queue_header(entry, selected),
                width as nat,
                ChromeOptions::no_dim(),
            ),
        }),
{
    Span::new(at, queue_row_cells(entry, selected, width))
}

} // verus!
