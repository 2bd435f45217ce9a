//! The top tab row: a session badge, the ordered tab chips, and right-aligned
//! workspace metadata.

use vstd::prelude::*;

use crate::cells::{
    cut, exactly, fit_row, fitted, or, painted, push_cells, push_char, push_chars, push_styled,
    styled, text_of, to_width,
};
use crate::chrome::ChromeOptions;
use crate::palette::{accent, chrome_blank, muted, plain, push_glyph, push_str, raised_surface, surface};
use crate::proto::{Cell, CellAttrs, Color, Point, TabSummary};
use crate::renderer::{Span, SpanView};
use crate::text::{chars_of, decimal, decimal_chars, push_all};

verus! {

/// Everything the top row describes about one workspace. A field nothing
/// authoritative was received for is absent rather than a placeholder.
#[derive(Clone, Copy, Debug, PartialEq, Eq)]
pub struct TabBar<'a> {
    pub tabs: &'a [TabSummary],
    pub session: Option<&'a str>,
    pub clients: Option<u16>,
    pub panes: Option<usize>,
}

impl<'a> TabBar<'a> {
    /// A bar over one tab ordering, with no workspace metadata yet.
    #[verifier::allow_in_spec]
    pub fn new(tabs: &'a [TabSummary]) -> TabBar<'a>
        returns
            (TabBar { tabs, session: None, clients: None, panes: None }),
    {
        TabBar { tabs, session: None, clients: None, panes: None }
    }

    /// Names the session the badge draws.
    #[verifier::allow_in_spec]
    pub fn session(self, name: &'a str) -> TabBar<'a>
        returns
            (TabBar { session: Some(name), ..self }),
    {
        TabBar { session: Some(name), ..self }
    }

    /// Sets the attached-client count the right-side metadata may show.
    #[verifier::allow_in_spec]
    pub fn clients(self, clients: u16) -> TabBar<'a>
        returns
            (TabBar { clients: Some(clients), ..self }),
    {
        TabBar { clients: Some(clients), ..self }
    }

    /// Sets the visible pane count the right-side metadata may show.
    #[verifier::allow_in_spec]
    pub fn panes(self, panes: usize) -> TabBar<'a>
        returns
            (TabBar { panes: Some(panes), ..self }),
    {
        TabBar { panes: Some(panes), ..self }
    }

    /// The tab ordering this bar was built over.
    #[verifier::allow_in_spec]
    pub fn tabs(&self) -> &'a [TabSummary]
        returns
            (self.tabs),
    {
        self.tabs
    }

    /// The session's name, where there is one to show.
    pub open spec fn name(self) -> Option<Seq<char>> {
        named(self.session)
    }

    /// The right-side metadata at its widest.
    pub open spec fn metadata_full(self) -> Seq<Cell> {
        let panes = match self.panes {
            Some(panes) => plain(plural(panes as nat, "pane"@), muted(), CellAttrs::none()),
            None => seq![],
        };
        let clients = match self.clients {
            Some(clients) => plain(plural(clients as nat, "client"@), muted(), CellAttrs::none()),
            None => seq![],
        };
        if self.panes is Some && self.clients is Some {
            panes + plain("  "@, muted(), CellAttrs::none()) + clients
        } else {
            panes + clients
        }
    }

    /// The right-side metadata in its compact form.
    pub open spec fn metadata_short(self) -> Seq<Cell> {
        let panes = match self.panes {
            Some(panes) => plain(decimal(panes as nat).push('p'), muted(), CellAttrs::none()),
            None => seq![],
        };
        let clients = match self.clients {
            Some(clients) => plain(decimal(clients as nat).push('c'), muted(), CellAttrs::none()),
            None => seq![],
        };
        if self.panes is Some && self.clients is Some {
            panes + plain(seq![' '], muted(), CellAttrs::none()) + clients
        } else {
            panes + clients
        }
    }

    fn metadata_full_cells(&self) -> (cells: Vec<Cell>)
        ensures
            cells@ == self.metadata_full(),
    {
        let mut cells: Vec<Cell> = Vec::new();
        if let Some(panes) = self.panes {
            let text = plural_chars(panes, "pane");
            push_chars(&mut cells, text.as_slice(), muted(), surface(), CellAttrs::none());
        }
        if let Some(clients) = self.clients {
            if self.panes.is_some() {
                push_str(&mut cells, "  ", muted(), CellAttrs::none());
            }
            let text = plural_chars(clients as usize, "client");
            push_chars(&mut cells, text.as_slice(), muted(), surface(), CellAttrs::none());
        }
        assert(cells@ =~= self.metadata_full());
        cells
    }

    fn metadata_short_cells(&self) -> (cells: Vec<Cell>)
        ensures
            cells@ == self.metadata_short(),
    {
        let mut cells: Vec<Cell> = Vec::new();
        if let Some(panes) = self.panes {
            let mut text = decimal_chars(panes as u64);
            text.push('p');
            push_chars(&mut cells, text.as_slice(), muted(), surface(), CellAttrs::none());
        }
        if let Some(clients) = self.clients {
            if self.panes.is_some() {
                push_glyph(&mut cells, ' ', muted(), CellAttrs::none());
            }
            let mut text = decimal_chars(clients as u64);
            text.push('c');
            push_chars(&mut cells, text.as_slice(), muted(), surface(), CellAttrs::none());
        }
        assert(cells@ =~= self.metadata_short());
        cells
    }
}

/// A name, where it is given and not empty.
pub open spec fn named(name: Option<&str>) -> Option<Seq<char>> {
    match name {
        Some(text) => if text@.len() == 0 {
            None
        } else {
            Some(text@)
        },
        None => None,
    }
}

/// A name, where it is given and not empty.
pub fn nonempty<'a>(name: Option<&'a str>) -> (found: Option<&'a str>)
    ensures
        found is Some <==> named(name) is Some,
        found matches Some(text) ==> named(name) == Some(text@) && name == Some(text),
{
    match name {
        Some(text) => {
            if text.unicode_len() == 0 {
                None
            } else {
                Some(text)
            }
        },
        None => None,
    }
}

/// `1 pane` or `2 panes`.
pub open spec fn plural(count: nat, noun: Seq<char>) -> Seq<char> {
    if count == 1 {
        decimal(count).push(' ') + noun
    } else {
        (decimal(count).push(' ') + noun).push('s')
    }
}

/// Writes a count with its noun.
pub fn plural_chars(count: usize, noun: &str) -> (chars: Vec<char>)
    ensures
        chars@ == plural(count as nat, noun@),
{
    let mut chars = decimal_chars(count as u64);
    chars.push(' ');
    let word = chars_of(noun);
    push_all(&mut chars, word.as_slice());
    if count != 1 {
        chars.push('s');
    }
    chars
}

/// The first active tab, or the first tab where none is.
pub open spec fn active_of(tabs: Seq<TabSummary>) -> nat {
    match first_active(tabs, 0) {
        Some(at) => at,
        None => 0,
    }
}

/// The first active tab from a position on.
pub open spec fn first_active(tabs: Seq<TabSummary>, from: nat) -> Option<nat>
    decreases tabs.len() - from,
{
    if from >= tabs.len() {
        None
    } else if tabs[from as int].active {
        Some(from)
    } else {
        first_active(tabs, from + 1)
    }
}

/// Finds the active tab.
pub fn active_tab(tabs: &[TabSummary]) -> (active: usize)
    ensures
        active == active_of(tabs@),
        tabs@.len() > 0 ==> active < tabs@.len(),
        tabs@.len() == 0 ==> active == 0,
{
    let mut i: usize = 0;
    while i < tabs.len()
        invariant
            i <= tabs.len(),
            first_active(tabs@, 0) == first_active(tabs@, i as nat),
        decreases tabs.len() - i,
    {
        if tabs[i].active {
            return i;
        }
        i = i + 1;
    }
    0
}

/// The next narrower contiguous window around `active`: inactive tabs are given
/// up from the far right first, then the far left. Nothing at one tab.
pub open spec fn narrower(first: nat, last: nat, active: nat) -> Option<(nat, nat)> {
    if last <= first + 1 {
        None
    } else if last - 1 != active {
        Some((first, (last - 1) as nat))
    } else if first != active {
        Some((first + 1, last))
    } else {
        None
    }
}

/// Narrows a window by one tab.
pub fn narrower_window(window: (usize, usize), active: usize) -> (next: Option<(usize, usize)>)
    ensures
        next is Some <==> narrower(window.0 as nat, window.1 as nat, active as nat) is Some,
        next matches Some(found) ==> narrower(window.0 as nat, window.1 as nat, active as nat)
            == Some((found.0 as nat, found.1 as nat)) && found.0 <= found.1 <= window.1 && found.1
            - found.0 < window.1 - window.0,
{
    let (first, last) = window;
    if last <= first || last - first <= 1 {
        return None;
    }
    if last - 1 != active {
        Some((first, last - 1))
    } else if first != active {
        Some((first + 1, last))
    } else {
        None
    }
}

/// A narrowing row never hides the tab the user is on, and never skips past a
/// tab between those it shows.
pub proof fn narrowing_keeps_the_active_tab(first: nat, last: nat, active: nat)
    requires
        first <= active < last,
    ensures
        narrower(first, last, active) matches Some((a, b)) ==> a <= active < b && first <= a && b
            <= last && b - a == last - first - 1,
        narrower(first, last, active) is None <==> last == first + 1,
{
}

/// The narrowest window reached from one.
pub open spec fn narrowest(first: nat, last: nat, active: nat) -> (nat, nat)
    decreases last - first,
{
    match narrower(first, last, active) {
        Some((a, b)) => narrowest(a, b, active),
        None => (first, last),
    }
}

/// One tab chip's leading marker and one-based bar position.
pub open spec fn chip_prefix(active: bool, index: nat) -> Seq<char> {
    seq![
        if active {
            '>'
        } else {
            ' '
        },
    ] + decimal(index).push(' ')
}

/// One tab chip with `title`. The active one is raised, accented, bold and
/// underlined.
pub open spec fn chip(active: bool, index: nat, title: Seq<char>) -> Seq<Cell> {
    let (fg, bg, attrs) = if active {
        (accent(), raised_surface(), CellAttrs::bold().union(CellAttrs::underline()))
    } else {
        (muted(), surface(), CellAttrs::none())
    };
    painted(chip_prefix(active, index), fg, bg, attrs) + painted(title, fg, bg, attrs)
}

fn chip_prefix_chars(tab: &TabSummary, index: usize) -> (chars: Vec<char>)
    ensures
        chars@ == chip_prefix(tab.active, index as nat),
{
    let mut chars: Vec<char> = Vec::new();
    chars.push(
        if tab.active {
            '>'
        } else {
            ' '
        },
    );
    let number = decimal_chars(index as u64);
    push_all(&mut chars, number.as_slice());
    chars.push(' ');
    assert(chars@ =~= chip_prefix(tab.active, index as nat));
    chars
}

fn push_chip(cells: &mut Vec<Cell>, tab: &TabSummary, index: usize, title: &[char])
    ensures
        final(cells)@ == old(cells)@ + chip(tab.active, index as nat, title@),
{
    let prefix = chip_prefix_chars(tab, index);
    let (fg, bg, attrs): (Color, Color, CellAttrs) = if tab.active {
        (accent(), raised_surface(), CellAttrs::bold().union(CellAttrs::underline()))
    } else {
        (muted(), surface(), CellAttrs::none())
    };
    push_chars(cells, prefix.as_slice(), fg, bg, attrs);
    push_chars(cells, title, fg, bg, attrs);
    assert(cells@ =~= old(cells)@ + chip(tab.active, index as nat, title@));
}

/// The chips of the tabs from `first` up to `last`, a space apart.
pub open spec fn chips(tabs: Seq<TabSummary>, first: nat, last: nat) -> Seq<Cell>
    decreases last,
{
    if last <= first || last == 0 {
        seq![]
    } else {
        let tab = tabs[last - 1];
        chips(tabs, first, (last - 1) as nat) + (if last - 1 > first {
            plain(seq![' '], muted(), CellAttrs::none())
        } else {
            seq![]
        }) + chip(tab.active, last, tab.title@)
    }
}

fn push_chips(cells: &mut Vec<Cell>, tabs: &[TabSummary], first: usize, last: usize)
    requires
        first <= last <= tabs@.len(),
    ensures
        final(cells)@ == old(cells)@ + chips(tabs@, first as nat, last as nat),
{
    let mut i: usize = first;
    assert(cells@ =~= old(cells)@ + chips(tabs@, first as nat, first as nat));
    while i < last
        invariant
            first <= i <= last <= tabs@.len(),
            cells@ == old(cells)@ + chips(tabs@, first as nat, i as nat),
        decreases last - i,
    {
        if i > first {
            push_glyph(cells, ' ', muted(), CellAttrs::none());
        }
        let title = chars_of(tabs[i].title.as_str());
        push_chip(cells, &tabs[i], i + 1, title.as_slice());
        i = i + 1;
        assert(cells@ =~= old(cells)@ + chips(tabs@, first as nat, i as nat));
    }
}

/// The session badge: a name on the accent, padded on both sides. Nothing where
/// there is no name.
pub open spec fn badge(name: Option<Seq<char>>) -> Seq<Cell> {
    match name {
        Some(text) => painted(
            seq![' '] + text + seq![' '],
            surface(),
            accent(),
            CellAttrs::bold(),
        ),
        None => seq![],
    }
}

fn badge_cells(name: Option<&str>) -> (cells: Vec<Cell>)
    ensures
        cells@ == badge(
            match name {
                Some(text) => Some(text@),
                None => None,
            },
        ),
{
    let mut cells: Vec<Cell> = Vec::new();
    if let Some(text) = name {
        push_char(&mut cells, ' ', surface(), accent(), CellAttrs::bold());
        push_styled(&mut cells, text, surface(), accent(), CellAttrs::bold());
        push_char(&mut cells, ' ', surface(), accent(), CellAttrs::bold());
        assert(cells@ =~= painted(
            seq![' '] + text@ + seq![' '],
            surface(),
            accent(),
            CellAttrs::bold(),
        ));
    }
    cells
}

/// One candidate row, or nothing when that combination does not fit.
pub open spec fn tab_candidate(
    badge: Seq<Cell>,
    tabs: Seq<TabSummary>,
    first: nat,
    last: nat,
    metadata: Seq<Cell>,
    width: nat,
) -> Option<Seq<Cell>> {
    fitted(
        badge + chips(tabs, first, last),
        if metadata.len() == 0 {
            0
        } else {
            1
        },
        metadata,
        width,
        chrome_blank(),
    )
}

fn fit_tab_row(
    badge: &[Cell],
    tabs: &[TabSummary],
    first: usize,
    last: usize,
    metadata: &[Cell],
    width: usize,
) -> (row: Option<Vec<Cell>>)
    requires
        first <= last <= tabs@.len(),
    ensures
        row is Some <==> tab_candidate(
            badge@,
            tabs@,
            first as nat,
            last as nat,
            metadata@,
            width as nat,
        ) is Some,
        row matches Some(cells) ==> tab_candidate(
            badge@,
            tabs@,
            first as nat,
            last as nat,
            metadata@,
            width as nat,
        ) == Some(cells@) && cells@.len() == width,
{
    let mut left: Vec<Cell> = Vec::new();
    push_cells(&mut left, badge);
    push_chips(&mut left, tabs, first, last);
    assert(left@ =~= badge@ + chips(tabs@, first as nat, last as nat));
    let gap: usize = if metadata.len() == 0 {
        0
    } else {
        1
    };
    fit_row(left.as_slice(), gap, metadata, width, chrome_blank())
}

/// The widest window around the active tab that fits behind `badge`.
pub open spec fn by_window(
    badge: Seq<Cell>,
    tabs: Seq<TabSummary>,
    first: nat,
    last: nat,
    active: nat,
    width: nat,
) -> Option<Seq<Cell>>
    decreases last - first,
{
    or(
        tab_candidate(badge, tabs, first, last, seq![], width),
        match narrower(first, last, active) {
            Some((a, b)) => by_window(badge, tabs, a, b, active, width),
            None => None,
        },
    )
}

/// The active chip alone, with its title cut into whatever is left.
pub open spec fn lone_chip(tabs: Seq<TabSummary>, width: nat) -> Seq<Cell> {
    let active = active_of(tabs);
    if tabs.len() == 0 {
        exactly(seq![], width, chrome_blank())
    } else {
        let tab = tabs[active as int];
        let prefix = chip_prefix(tab.active, active + 1);
        let budget = if width < prefix.len() {
            0
        } else {
            (width - prefix.len()) as nat
        };
        exactly(chip(tab.active, active + 1, cut(tab.title@, budget)), width, chrome_blank())
    }
}

/// The one character a session badge reduces to.
pub open spec fn small_badge(name: Option<Seq<char>>) -> Seq<Cell> {
    match name {
        Some(_) => badge(Some("s"@)),
        None => seq![],
    }
}

/// The tab row in the reference palette: the first of these that fits.
///
/// Right-side metadata drops to its compact form and then goes; inactive tabs
/// yield around the active one; the badge reduces to its glyph and then goes;
/// and last the active chip's title is cut.
pub open spec fn tab_row_reference(bar: TabBar, width: nat) -> Seq<Cell> {
    let tabs = bar.tabs@;
    let n = tabs.len();
    let wide = badge(bar.name());
    let active = active_of(tabs);
    let (first, last) = narrowest(0, n, active);
    let row = or(
        tab_candidate(wide, tabs, 0, n, bar.metadata_full(), width),
        or(
            tab_candidate(wide, tabs, 0, n, bar.metadata_short(), width),
            or(
                by_window(wide, tabs, 0, n, active, width),
                or(
                    tab_candidate(small_badge(bar.name()), tabs, first, last, seq![], width),
                    tab_candidate(seq![], tabs, first, last, seq![], width),
                ),
            ),
        ),
    );
    match row {
        Some(cells) => cells,
        None => lone_chip(tabs, width),
    }
}

/// The tab row.
pub open spec fn tab_row(bar: TabBar, width: nat, options: ChromeOptions) -> Seq<Cell> {
    options.theme.mapped_cells(tab_row_reference(bar, width))
}

/// Builds the session-aware top tab row, exactly `width` cells wide.
pub fn tab_row_cells(bar: TabBar<'_>, width: u16, options: ChromeOptions) -> (cells: Vec<Cell>)
    ensures
        cells@ == tab_row(bar, width as nat, options),
        cells@.len() == width,
{
    let cells = tab_row_unmapped(bar, width as usize);
    options.theme.map_storm_cells(cells)
}

fn tab_row_unmapped(bar: TabBar<'_>, width: usize) -> (cells: Vec<Cell>)
    ensures
        cells@ == tab_row_reference(bar, width as nat),
        cells@.len() == width,
{
    let tabs = bar.tabs;
    let active: usize = active_tab(tabs);
    let name = nonempty(bar.session);
    let wide = badge_cells(name);
    assert(wide@ =~= badge(bar.name()));
    let full = bar.metadata_full_cells();
    if let Some(cells) = fit_tab_row(wide.as_slice(), tabs, 0, tabs.len(), full.as_slice(), width) {
        return cells;
    }
    let short = bar.metadata_short_cells();
    if let Some(cells) = fit_tab_row(wide.as_slice(), tabs, 0, tabs.len(), short.as_slice(), width) {
        return cells;
    }
    let nothing: Vec<Cell> = Vec::new();
    assert(nothing@ =~= seq![]);
    let mut window: (usize, usize) = (0, tabs.len());
    let mut narrowed: bool = false;
    let ghost n = tabs@.len();
    while !narrowed
        invariant
            nothing@ == Seq::<Cell>::empty(),
            tabs == bar.tabs,
            n == tabs@.len(),
            active == active_of(tabs@),
            wide@ == badge(bar.name()),
            window.0 <= window.1 <= tabs@.len(),
            narrowest(0, n, active as nat) == narrowest(
                window.0 as nat,
                window.1 as nat,
                active as nat,
            ),
            tab_candidate(wide@, tabs@, 0, n, bar.metadata_full(), width as nat) is None,
            tab_candidate(wide@, tabs@, 0, n, bar.metadata_short(), width as nat) is None,
            !narrowed ==> by_window(wide@, tabs@, 0, n, active as nat, width as nat) == by_window(
                wide@,
                tabs@,
                window.0 as nat,
                window.1 as nat,
                active as nat,
                width as nat,
            ),
            narrowed ==> by_window(wide@, tabs@, 0, n, active as nat, width as nat) is None,
            narrowed ==> narrower(window.0 as nat, window.1 as nat, active as nat) is None,
        decreases window.1 - window.0, (if narrowed { 0int } else { 1int }),
    {
        if let Some(cells) = fit_tab_row(
            wide.as_slice(),
            tabs,
            window.0,
            window.1,
            nothing.as_slice(),
            width,
        ) {
            return cells;
        }
        match narrower_window(window, active) {
            Some(next) => {
                window = next;
            },
            None => {
                narrowed = true;
            },
        }
    }
    if let Some(_) = name {
        let small = badge_cells(Some("s"));
        assert(small@ =~= small_badge(bar.name()));
        if let Some(cells) = fit_tab_row(
            small.as_slice(),
            tabs,
            window.0,
            window.1,
            nothing.as_slice(),
            width,
        ) {
            return cells;
        }
    }
    if let Some(cells) = fit_tab_row(
        nothing.as_slice(),
        tabs,
        window.0,
        window.1,
        nothing.as_slice(),
        width,
    ) {
        return cells;
    }
    lone_chip_cells(tabs, active, width)
}

fn lone_chip_cells(tabs: &[TabSummary], active: usize, width: usize) -> (cells: Vec<Cell>)
    requires
        active == active_of(tabs@),
        tabs@.len() > 0 ==> active < tabs@.len(),
    ensures
        cells@ == lone_chip(tabs@, width as nat),
        cells@.len() == width,
{
    let mut cells: Vec<Cell> = Vec::new();
    if tabs.len() > 0 {
        let tab = &tabs[active];
        let prefix = chip_prefix_chars(tab, active + 1);
        let budget: usize = if width < prefix.len() {
            0
        } else {
            width - prefix.len()
        };
        let mut title = chars_of(tab.title.as_str());
        if title.len() > budget {
            title.truncate(budget);
        }
        assert(title@ =~= cut(tab.title@, budget as nat));
        push_chip(&mut cells, tab, active + 1, title.as_slice());
        assert(cells@ =~= chip(tab.active, (active + 1) as nat, title@));
    }
    to_width(&mut cells, width, chrome_blank());
    cells
}

/// Positions a tab row.
pub fn tab_row_span(at: Point, bar: TabBar<'_>, width: u16, options: ChromeOptions) -> (span: Span)
    ensures
        span@ == (SpanView { at, cells: tab_row(bar, width as nat, options) }),
{
    Span::new(at, tab_row_cells(bar, width, options))
}

/// The cell that marks the tab the user is on.
pub open spec fn active_mark() -> Cell {
    styled('>', accent(), raised_surface(), CellAttrs::bold().union(CellAttrs::underline()))
}

proof fn chips_show_the_active(tabs: Seq<TabSummary>, first: nat, last: nat, active: nat)
    requires
        first <= active < last <= tabs.len(),
        tabs[active as int].active,
    ensures
        chips(tabs, first, last).contains(active_mark()),
    decreases last,
{
    let tab = tabs[last - 1];
    let rest = chips(tabs, first, (last - 1) as nat);
    let gap = if last - 1 > first {
        plain(seq![' '], muted(), CellAttrs::none())
    } else {
        seq![]
    };
    let own = chip(tab.active, last, tab.title@);
    let all = chips(tabs, first, last);
    assert(all =~= rest + gap + own);
    if active == last - 1 {
        assert(own[0] == active_mark());
        assert(all[(rest.len() + gap.len()) as int] == own[0]);
    } else {
        chips_show_the_active(tabs, first, (last - 1) as nat, active);
        let i = choose|i: int| 0 <= i < rest.len() && rest[i] == active_mark();
        assert(all[i] == rest[i]);
    }
}

proof fn candidate_shows_the_active(
    badge: Seq<Cell>,
    tabs: Seq<TabSummary>,
    first: nat,
    last: nat,
    metadata: Seq<Cell>,
    width: nat,
    active: nat,
)
    requires
        first <= active < last <= tabs.len(),
        tabs[active as int].active,
    ensures
        tab_candidate(badge, tabs, first, last, metadata, width) matches Some(row)
            ==> row.contains(active_mark()),
{
    chips_show_the_active(tabs, first, last, active);
    let shown = chips(tabs, first, last);
    let i = choose|i: int| 0 <= i < shown.len() && shown[i] == active_mark();
    if let Some(row) = tab_candidate(badge, tabs, first, last, metadata, width) {
        assert(row[badge.len() + i] == shown[i]);
    }
}

proof fn window_shows_the_active(
    badge: Seq<Cell>,
    tabs: Seq<TabSummary>,
    first: nat,
    last: nat,
    active: nat,
    width: nat,
)
    requires
        first <= active < last <= tabs.len(),
        tabs[active as int].active,
    ensures
        by_window(badge, tabs, first, last, active, width) matches Some(row) ==> row.contains(
            active_mark(),
        ),
        narrowest(first, last, active).0 <= active < narrowest(first, last, active).1 <= last,
    decreases last - first,
{
    candidate_shows_the_active(badge, tabs, first, last, seq![], width, active);
    narrowing_keeps_the_active_tab(first, last, active);
    if let Some((a, b)) = narrower(first, last, active) {
        window_shows_the_active(badge, tabs, a, b, active, width);
    }
}

proof fn first_active_is_active(tabs: Seq<TabSummary>, from: nat)
    ensures
        first_active(tabs, from) matches Some(at) ==> from <= at < tabs.len()
            && tabs[at as int].active,
    decreases tabs.len() - from,
{
    if from < tabs.len() && !tabs[from as int].active {
        first_active_is_active(tabs, from + 1);
    }
}

/// However narrow the row, the tab the user is on shows its marker.
pub proof fn the_active_tab_stays_marked(bar: TabBar, width: nat, options: ChromeOptions)
    requires
        first_active(bar.tabs@, 0) is Some,
        width > 0,
    ensures
        tab_row(bar, width, options).contains(options.theme.mapped_cell(active_mark())),
{
    let tabs = bar.tabs@;
    let n = tabs.len();
    let active = active_of(tabs);
    first_active_is_active(tabs, 0);
    let wide = badge(bar.name());
    let (first, last) = narrowest(0, n, active);
    candidate_shows_the_active(wide, tabs, 0, n, bar.metadata_full(), width, active);
    candidate_shows_the_active(wide, tabs, 0, n, bar.metadata_short(), width, active);
    window_shows_the_active(wide, tabs, 0, n, active, width);
    candidate_shows_the_active(
        small_badge(bar.name()),
        tabs,
        first,
        last,
        seq![],
        width,
        active,
    );
    candidate_shows_the_active(seq![], tabs, first, last, seq![], width, active);
    let row = tab_row_reference(bar, width);
    assert(row.contains(active_mark())) by {
        let lone = lone_chip(tabs, width);
        assert(lone[0] == active_mark());
    }
    let i = choose|i: int| 0 <= i < row.len() && row[i] == active_mark();
    assert(tab_row(bar, width, options)[i] == options.theme.mapped_cell(row[i]));
}

/// How one tab reads: a marker where the user is on it, its position counted from
/// one, and its title.
pub open spec fn tab_says(tab: TabSummary, position: nat) -> Seq<char> {
    seq![
        if tab.active {
            '>'
        } else {
            ' '
        },
    ] + decimal(position) + seq![' '] + tab.title@
}

/// How the tabs from one on read: each one, a space apart.
pub open spec fn tabs_say(tabs: Seq<TabSummary>, first: nat, last: nat) -> Seq<char>
    decreases last - first,
{
    if first >= last {
        seq![]
    } else if first + 1 == last {
        tab_says(tabs[first as int], first + 1)
    } else {
        tab_says(tabs[first as int], first + 1) + seq![' '] + tabs_say(tabs, first + 1, last)
    }
}

/// How a session's badge reads.
pub open spec fn badge_says(session: Option<&str>) -> Seq<char> {
    match session {
        Some(name) => if name@.len() > 0 {
            seq![' '] + name@ + seq![' ']
        } else {
            seq![]
        },
        None => seq![],
    }
}

/// How a count with its noun reads.
pub open spec fn counted(count: nat, noun: Seq<char>) -> Seq<char> {
    decimal(count) + seq![' '] + noun + (if count == 1 {
        seq![]
    } else {
        seq!['s']
    })
}

/// How what is known of the workspace reads, in full and in short.
pub open spec fn workspace_says(bar: TabBar, short: bool) -> Seq<char> {
    let panes = match bar.panes {
        Some(panes) => if short {
            decimal(panes as nat) + seq!['p']
        } else {
            counted(panes as nat, seq!['p', 'a', 'n', 'e'])
        },
        None => seq![],
    };
    let clients = match bar.clients {
        Some(clients) => if short {
            decimal(clients as nat) + seq!['c']
        } else {
            counted(clients as nat, seq!['c', 'l', 'i', 'e', 'n', 't'])
        },
        None => seq![],
    };
    let gap = if bar.panes is Some && bar.clients is Some {
        if short {
            seq![' ']
        } else {
            seq![' ', ' ']
        }
    } else {
        seq![]
    };
    panes + gap + clients
}

/// Two ends of a row with blanks between.
pub open spec fn apart(left: Seq<char>, right: Seq<char>, width: nat) -> Seq<char> {
    left + Seq::new((width - left.len() - right.len()) as nat, |i: int| ' ') + right
}

proof fn tabs_say_from_the_back(tabs: Seq<TabSummary>, first: nat, last: nat)
    requires
        first < last,
    ensures
        tabs_say(tabs, first, (last + 1) as nat) == tabs_say(tabs, first, last) + seq![' ']
            + tab_says(tabs[last as int], last + 1),
    decreases last - first,
{
    let own = tab_says(tabs[last as int], last + 1);
    reveal_with_fuel(tabs_say, 3);
    if first + 1 < last {
        tabs_say_from_the_back(tabs, first + 1, last);
        let head = tab_says(tabs[first as int], first + 1);
        assert(tabs_say(tabs, first, (last + 1) as nat) =~= head + seq![' '] + (tabs_say(
            tabs,
            first + 1,
            last,
        ) + seq![' '] + own));
    }
    assert(tabs_say(tabs, first, (last + 1) as nat) =~= tabs_say(tabs, first, last) + seq![' ']
        + own);
}

pub(crate) proof fn chips_read_as_tabs(tabs: Seq<TabSummary>, first: nat, last: nat)
    requires
        first <= last <= tabs.len(),
    ensures
        text_of(chips(tabs, first, last)) == tabs_say(tabs, first, last),
    decreases last,
{
    if first < last {
        let tab = tabs[last - 1];
        chips_read_as_tabs(tabs, first, (last - 1) as nat);
        let own = chip(tab.active, last, tab.title@);
        assert(text_of(own) =~= tab_says(tab, last));
        let rest = chips(tabs, first, (last - 1) as nat);
        if last - 1 > first {
            tabs_say_from_the_back(tabs, first, (last - 1) as nat);
            assert(text_of(chips(tabs, first, last)) =~= text_of(rest) + seq![' '] + text_of(own));
        } else {
            assert(rest =~= seq![]);
            reveal_with_fuel(tabs_say, 2);
            assert(text_of(chips(tabs, first, last)) =~= text_of(own));
        }
    } else {
        assert(text_of(chips(tabs, first, last)) =~= tabs_say(tabs, first, last));
    }
}

proof fn the_parts_read_as_said(bar: TabBar)
    ensures
        text_of(badge(bar.name())) == badge_says(bar.session),
        text_of(bar.metadata_full()) == workspace_says(bar, false),
        text_of(bar.metadata_short()) == workspace_says(bar, true),
        text_of(chips(bar.tabs@, 0, bar.tabs@.len())) == tabs_say(bar.tabs@, 0, bar.tabs@.len()),
{
    reveal_strlit("pane");
    reveal_strlit("client");
    reveal_strlit("  ");
    assert("pane"@ =~= seq!['p', 'a', 'n', 'e']);
    assert("client"@ =~= seq!['c', 'l', 'i', 'e', 'n', 't']);
    assert("  "@ =~= seq![' ', ' ']);
    chips_read_as_tabs(bar.tabs@, 0, bar.tabs@.len());
    assert(text_of(badge(bar.name())) =~= badge_says(bar.session));
    if let Some(panes) = bar.panes {
        assert(plural(panes as nat, "pane"@) =~= counted(panes as nat, "pane"@));
    }
    if let Some(clients) = bar.clients {
        assert(plural(clients as nat, "client"@) =~= counted(clients as nat, "client"@));
    }
    assert(text_of(bar.metadata_full()) =~= workspace_says(bar, false));
    assert(text_of(bar.metadata_short()) =~= workspace_says(bar, true));
}

/// A row with room reads as documented: the session, every tab in order, and what
/// is known of the workspace at the right end. That is what yields first, to its
/// short form and then altogether, before any tab does.
#[verifier::rlimit(40)]
pub proof fn a_tab_row_reads_as_documented(bar: TabBar, width: nat, options: ChromeOptions)
    ensures
        ({
            let tabs = bar.tabs@;
            let left = badge_says(bar.session) + tabs_say(tabs, 0, tabs.len());
            let full = workspace_says(bar, false);
            let short = workspace_says(bar, true);
            let gap = |said: Seq<char>|
                if said.len() == 0 {
                    0nat
                } else {
                    1nat
                };
            let text = text_of(tab_row(bar, width, options));
            if left.len() + gap(full) + full.len() <= width {
                text == apart(left, full, width)
            } else if left.len() + gap(short) + short.len() <= width {
                text == apart(left, short, width)
            } else if left.len() <= width {
                text == apart(left, seq![], width)
            } else {
                true
            }
        }),
{
    the_parts_read_as_said(bar);
    let tabs = bar.tabs@;
    let row = tab_row_reference(bar, width);
    let wide = badge(bar.name());
    let all = chips(tabs, 0, tabs.len());
    let left = badge_says(bar.session) + tabs_say(tabs, 0, tabs.len());
    assert(text_of(wide + all) =~= left);
    assert(text_of(wide).len() == wide.len());
    assert(text_of(all).len() == all.len());
    assert(text_of(bar.metadata_full()).len() == bar.metadata_full().len());
    assert(text_of(bar.metadata_short()).len() == bar.metadata_short().len());
    assert(text_of(tab_row(bar, width, options)) =~= text_of(row));
    let full = workspace_says(bar, false);
    let short = workspace_says(bar, true);
    if left.len() + (if full.len() == 0 {
        0nat
    } else {
        1nat
    }) + full.len() <= width {
        assert(text_of(row) =~= apart(left, full, width));
    } else if left.len() + (if short.len() == 0 {
        0nat
    } else {
        1nat
    }) + short.len() <= width {
        assert(text_of(row) =~= apart(left, short, width));
    } else if left.len() <= width {
        assert(text_of(row) =~= apart(left, seq![], width));
    }
}

/// The tab the user is on is the first one marked as such, or the first of all
/// where none is.
pub proof fn the_first_marked_tab_is_the_one(tabs: Seq<TabSummary>, i: int)
    ensures
        0 <= i < tabs.len() && tabs[i].active && (forall|j: int|
            0 <= j < i ==> !(#[trigger] tabs[j]).active) ==> active_of(tabs) == i,
        (forall|j: int| 0 <= j < tabs.len() ==> !(#[trigger] tabs[j]).active) ==> active_of(tabs)
            == 0,
{
    first_active_is_first(tabs, 0, i);
}

proof fn first_active_is_first(tabs: Seq<TabSummary>, from: nat, i: int)
    ensures
        from <= i < tabs.len() && tabs[i].active && (forall|j: int|
            from <= j < i ==> !(#[trigger] tabs[j]).active) ==> first_active(tabs, from) == Some(
            i as nat,
        ),
        (forall|j: int| from <= j < tabs.len() ==> !(#[trigger] tabs[j]).active) ==> first_active(
            tabs,
            from,
        ) is None,
    decreases tabs.len() - from,
{
    if from < tabs.len() {
        first_active_is_first(tabs, from + 1, i);
    }
}

/// Whether some cells stand somewhere in a row, one behind the other.
pub open spec fn stands_in(row: Seq<Cell>, part: Seq<Cell>) -> bool {
    exists|at: int|
        0 <= at <= row.len() - part.len() && #[trigger] row.subrange(at, at + part.len()) == part
}

proof fn standing_in_a_part(row: Seq<Cell>, from: int, part: Seq<Cell>, own: Seq<Cell>)
    requires
        0 <= from <= row.len() - part.len(),
        row.subrange(from, from + part.len()) == part,
        stands_in(part, own),
    ensures
        stands_in(row, own),
{
    let at = choose|at: int|
        0 <= at <= part.len() - own.len() && #[trigger] part.subrange(at, at + own.len()) == own;
    assert(row.subrange(from + at, from + at + own.len()) =~= own) by {
        assert(row.subrange(from, from + part.len()).subrange(at, at + own.len())
            =~= row.subrange(from + at, from + at + own.len()));
    }
}

proof fn chips_hold_each_chip(tabs: Seq<TabSummary>, first: nat, last: nat, i: nat)
    requires
        first <= i < last <= tabs.len(),
    ensures
        stands_in(chips(tabs, first, last), chip(tabs[i as int].active, i + 1, tabs[i as int].title@)),
    decreases last,
{
    let tab = tabs[last - 1];
    let rest = chips(tabs, first, (last - 1) as nat);
    let gap = if last - 1 > first {
        plain(seq![' '], muted(), CellAttrs::none())
    } else {
        seq![]
    };
    let last_chip = chip(tab.active, last, tab.title@);
    let all = chips(tabs, first, last);
    assert(all =~= rest + gap + last_chip);
    let own = chip(tabs[i as int].active, i + 1, tabs[i as int].title@);
    if i == last - 1 {
        let at = (rest.len() + gap.len()) as int;
        assert(all.subrange(at, at + own.len()) =~= own);
    } else {
        chips_hold_each_chip(tabs, first, (last - 1) as nat, i);
        assert(all.subrange(0, rest.len() as int) =~= rest);
        standing_in_a_part(all, 0, rest, own);
    }
}

proof fn candidate_holds_each_chip(
    badge: Seq<Cell>,
    tabs: Seq<TabSummary>,
    first: nat,
    last: nat,
    metadata: Seq<Cell>,
    width: nat,
    i: nat,
)
    requires
        first <= i < last <= tabs.len(),
    ensures
        tab_candidate(badge, tabs, first, last, metadata, width) matches Some(row) ==> stands_in(
            row,
            chip(tabs[i as int].active, i + 1, tabs[i as int].title@),
        ),
{
    chips_hold_each_chip(tabs, first, last, i);
    if let Some(row) = tab_candidate(badge, tabs, first, last, metadata, width) {
        let shown = chips(tabs, first, last);
        let from = badge.len() as int;
        assert(row.subrange(from, from + shown.len()) =~= shown);
        standing_in_a_part(
            row,
            from,
            shown,
            chip(tabs[i as int].active, i + 1, tabs[i as int].title@),
        );
    }
}

proof fn window_holds_the_active_chip(
    badge: Seq<Cell>,
    tabs: Seq<TabSummary>,
    first: nat,
    last: nat,
    active: nat,
    width: nat,
)
    requires
        first <= active < last <= tabs.len(),
    ensures
        by_window(badge, tabs, first, last, active, width) matches Some(row) ==> stands_in(
            row,
            chip(tabs[active as int].active, active + 1, tabs[active as int].title@),
        ),
        narrowest(first, last, active) == (active, active + 1),
    decreases last - first,
{
    candidate_holds_each_chip(badge, tabs, first, last, seq![], width, active);
    narrowing_keeps_the_active_tab(first, last, active);
    if let Some((a, b)) = narrower(first, last, active) {
        window_holds_the_active_chip(badge, tabs, a, b, active, width);
    }
}

/// The tab the user is on is shown whole, marker, position and title, in any row
/// that has room for it, and cut from its end in one that has not.
#[verifier::rlimit(40)]
pub proof fn the_active_tab_is_shown_whole(bar: TabBar, width: nat, i: nat)
    requires
        i < bar.tabs@.len(),
        bar.tabs@[i as int].active,
        forall|j: int| 0 <= j < i ==> !(#[trigger] bar.tabs@[j]).active,
    ensures
        ({
            let tab = bar.tabs@[i as int];
            let says = tab_says(tab, i + 1);
            let style = |ch: char|
                styled(
                    ch,
                    accent(),
                    raised_surface(),
                    CellAttrs { bold: true, underline: true, ..CellAttrs::none() },
                );
            let row = tab_row_reference(bar, width);
            &&& says.len() <= width ==> stands_in(row, says.map_values(|ch: char| style(ch)))
            &&& says.len() > width && row.len() == width ==> row == says.take(
                width as int,
            ).map_values(|ch: char| style(ch)) || stands_in(
                row,
                says.map_values(|ch: char| style(ch)),
            )
        }),
{
    let tabs = bar.tabs@;
    let n = tabs.len();
    let tab = tabs[i as int];
    the_first_marked_tab_is_the_one(tabs, i as int);
    let wide = badge(bar.name());
    let own = chip(true, i + 1, tab.title@);
    let says = tab_says(tab, i + 1);
    let style = |ch: char|
        styled(
            ch,
            accent(),
            raised_surface(),
            CellAttrs { bold: true, underline: true, ..CellAttrs::none() },
        );
    assert(own =~= says.map_values(|ch: char| style(ch)));
    candidate_holds_each_chip(wide, tabs, 0, n, bar.metadata_full(), width, i);
    candidate_holds_each_chip(wide, tabs, 0, n, bar.metadata_short(), width, i);
    window_holds_the_active_chip(wide, tabs, 0, n, i, width);
    candidate_holds_each_chip(small_badge(bar.name()), tabs, i, i + 1, seq![], width, i);
    candidate_holds_each_chip(seq![], tabs, i, i + 1, seq![], width, i);
    let row = tab_row_reference(bar, width);
    let alone = chips(tabs, i, i + 1);
    reveal_with_fuel(chips, 2);
    assert(alone =~= own);
    if says.len() <= width {
        assert(Seq::<Cell>::empty() + alone =~= own);
        assert(tab_candidate(seq![], tabs, i, i + 1, seq![], width) is Some);
    } else {
        let lone = lone_chip(tabs, width);
        assert(lone =~= says.take(width as int).map_values(|ch: char| style(ch)));
    }
}

} // verus!
