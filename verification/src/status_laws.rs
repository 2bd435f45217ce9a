//! How the status row reads, in either composition and at every width that has
//! room for more than its markers.

use vstd::prelude::*;

use crate::attention::{decimal_is_not_empty, summary, EntryView};
use crate::cells::text_of;
use crate::chrome::ChromeOptions;
use crate::palette::surface;
use crate::proto::{Cell, CellAttrs, TabSummary};
use crate::status_bar::{
    active_status_tab, attention_field, client_field, clock_field, detail_full, detailed_row, ends,
    flanked, grouped, guided_row, minimal_marks, minimal_reference, minimal_session,
    powerline_client_text, powerline_clients, powerline_clock, powerline_reference, powerline_wide,
    repository_field, repository_text, segment, session_text, status_bar, status_tab, status_tabs,
    PrefixHint, RepositoryStatus, StatusBar, StatusMode,
};
use crate::tabs::{active_of, apart, counted};
use crate::text::decimal;

verus! {

/// A field with a space on each side.
pub open spec fn padded(text: Seq<char>) -> Seq<char> {
    seq![' '] + text + seq![' ']
}

/// How the session reads.
pub open spec fn session_says(session: Option<&str>) -> Seq<char> {
    match session {
        Some(name) => if name@.len() > 0 {
            seq!['s', ' '] + name@
        } else {
            seq!['s']
        },
        None => seq!['s'],
    }
}

/// How one tab reads in the status row.
pub open spec fn tab_reads(tab: TabSummary, position: nat, titled: bool) -> Seq<char> {
    seq![
        ' ',
        if tab.active {
            '>'
        } else {
            ' '
        },
    ] + decimal(position) + (if titled && tab.title@.len() > 0 {
        seq![' '] + tab.title@
    } else {
        seq![]
    }) + seq![' ']
}

/// How the first tabs read, one behind the other.
pub open spec fn tabs_read(tabs: Seq<TabSummary>, count: nat) -> Seq<char>
    decreases count,
{
    if count == 0 {
        seq![]
    } else {
        tabs_read(tabs, (count - 1) as nat) + tab_reads(tabs[count - 1], count, true)
    }
}

/// How what is waiting reads: the tally, or an explicit zero.
pub open spec fn waiting_says(entries: Seq<EntryView>) -> Seq<char> {
    if summary(entries).len() == 0 {
        seq!['0', '!']
    } else {
        text_of(summary(entries))
    }
}

/// How the prefix reads: in brackets while its chord is awaited.
pub open spec fn prefix_says(hint: &PrefixHint) -> Seq<char> {
    if hint.pending {
        seq!['['] + hint.prefix@ + seq![']']
    } else {
        hint.prefix@
    }
}

/// How the first clues read behind the prefix.
pub open spec fn clues_say(clues: nat) -> Seq<char> {
    (if clues > 0 {
        seq![' ', 's', 'p', 'l', 'i', 't', ' ', '%']
    } else {
        seq![]
    }) + (if clues > 1 {
        seq![' ', 's', 't', 'a', 'c', 'k', ' ', '"']
    } else {
        seq![]
    }) + (if clues > 2 {
        seq![' ', 'h', 'e', 'l', 'p', ' ', '?']
    } else {
        seq![]
    })
}

/// How a repository reads: its branch and how much changed, as far as known.
pub open spec fn repository_says(repository: &RepositoryStatus) -> Seq<char> {
    seq!['g', 'i', 't'] + (match repository.branch {
        Some(branch) => if branch@.len() > 0 {
            seq![' '] + branch@
        } else {
            seq![]
        },
        None => seq![],
    }) + (if repository.changes > 0 {
        seq![' ', '+'] + decimal(repository.changes as nat)
    } else {
        seq![]
    })
}

/// The optional fields, each with its padding and nothing where it is not known.
pub open spec fn repository_part(bar: StatusBar) -> Seq<char> {
    match bar.repository {
        Some(repository) => padded(repository_says(repository)),
        None => seq![],
    }
}

pub open spec fn clients_part(bar: StatusBar) -> Seq<char> {
    match bar.clients {
        Some(clients) => padded(counted(clients as nat, seq!['c', 'l', 'i', 'e', 'n', 't'])),
        None => seq![],
    }
}

pub open spec fn clock_part(bar: StatusBar) -> Seq<char> {
    match bar.clock {
        Some(clock) => if clock@.len() > 0 {
            padded(clock@)
        } else {
            seq![]
        },
        None => seq![],
    }
}

/// What always stands at the left of the minimal row.
pub open spec fn left_says(bar: StatusBar) -> Seq<char> {
    padded(session_says(bar.session)) + tabs_read(bar.tabs@, bar.tabs@.len()) + padded(
        waiting_says(bar.queue@.entries),
    )
}

/// A row of two ends, where both fit.
pub open spec fn row_of(left: Seq<char>, right: Seq<char>, width: nat) -> Option<Seq<char>> {
    if left.len() + right.len() <= width {
        Some(apart(left, right, width))
    } else {
        None
    }
}

/// The text of a row that fits.
pub open spec fn text_of_row(row: Option<Seq<Cell>>) -> Option<Seq<char>> {
    match row {
        Some(cells) => Some(text_of(cells)),
        None => None,
    }
}

pub(crate) proof fn ends_read(left: Seq<Cell>, right: Seq<Cell>, width: nat)
    ensures
        text_of_row(ends(left, right, width)) == row_of(text_of(left), text_of(right), width),
{
    assert(text_of(left).len() == left.len());
    assert(text_of(right).len() == right.len());
    if left.len() + right.len() <= width {
        assert(text_of(ends(left, right, width)->0) =~= apart(
            text_of(left),
            text_of(right),
            width,
        ));
    }
}

pub(crate) proof fn status_tab_reads(tab: TabSummary, position: nat, titled: bool)
    ensures
        text_of(status_tab(tab.active, tab.title@, position, titled)) == tab_reads(
            tab,
            position,
            titled,
        ),
{
    assert(text_of(status_tab(tab.active, tab.title@, position, titled)) =~= tab_reads(
        tab,
        position,
        titled,
    ));
}

proof fn status_tabs_read(tabs: Seq<TabSummary>, count: nat)
    requires
        count <= tabs.len(),
    ensures
        text_of(status_tabs(tabs, 0, count)) == tabs_read(tabs, count),
    decreases count,
{
    if count > 0 {
        status_tabs_read(tabs, (count - 1) as nat);
        status_tab_reads(tabs[count - 1], count, true);
        assert(text_of(status_tabs(tabs, 0, count)) =~= tabs_read(tabs, count));
    } else {
        assert(text_of(status_tabs(tabs, 0, count)) =~= tabs_read(tabs, count));
    }
}

pub(crate) proof fn flanked_reads(cells: Seq<Cell>)
    ensures
        text_of(flanked(cells)) == padded(text_of(cells)),
{
    assert(text_of(flanked(cells)) =~= padded(text_of(cells)));
}

pub(crate) proof fn left_reads(bar: StatusBar)
    ensures
        text_of(
            minimal_session(bar.session) + status_tabs(bar.tabs@, 0, bar.tabs@.len()) + flanked(
                attention_field(bar.queue),
            ),
        ) == left_says(bar),
{
    let session = minimal_session(bar.session);
    let tabs = status_tabs(bar.tabs@, 0, bar.tabs@.len());
    let attention = flanked(attention_field(bar.queue));
    status_tabs_read(bar.tabs@, bar.tabs@.len());
    flanked_reads(attention_field(bar.queue));
    assert(session_text(bar.session) =~= session_says(bar.session));
    assert(text_of(session) =~= padded(session_says(bar.session)));
    assert(text_of(attention_field(bar.queue)) =~= waiting_says(bar.queue@.entries));
    assert(text_of(session + tabs + attention) =~= left_says(bar));
}

pub(crate) proof fn guide_reads(hint: &PrefixHint, clues: nat)
    ensures
        text_of(flanked(hint.guide(clues))) == padded(prefix_says(hint) + clues_say(clues)),
        text_of(flanked(hint.chord())) == padded(prefix_says(hint)),
{
    reveal_strlit("split");
    reveal_strlit("stack");
    reveal_strlit("help");
    assert("split"@ =~= seq!['s', 'p', 'l', 'i', 't']);
    assert("stack"@ =~= seq!['s', 't', 'a', 'c', 'k']);
    assert("help"@ =~= seq!['h', 'e', 'l', 'p']);
    assert(text_of(hint.chord()) =~= prefix_says(hint));
    assert(text_of(hint.guide(clues)) =~= prefix_says(hint) + clues_say(clues));
    flanked_reads(hint.guide(clues));
    flanked_reads(hint.chord());
}

proof fn repository_reads(repository: &RepositoryStatus)
    ensures
        text_of(repository_text(repository)) == repository_says(repository),
{
    reveal_strlit("git");
    assert("git"@ =~= seq!['g', 'i', 't']);
    assert(text_of(repository_text(repository)) =~= repository_says(repository));
}

proof fn details_read(bar: StatusBar)
    ensures
        text_of(repository_field(bar.repository)) == repository_part(bar),
        text_of(client_field(bar.clients)) == clients_part(bar),
        text_of(clock_field(bar.clock)) == clock_part(bar),
{
    reveal_strlit("client");
    assert("client"@ =~= seq!['c', 'l', 'i', 'e', 'n', 't']);
    if let Some(repository) = bar.repository {
        repository_reads(repository);
        flanked_reads(repository_text(repository));
    } else {
        assert(text_of(repository_field(bar.repository)) =~= seq![]);
    }
    assert(text_of(client_field(bar.clients)) =~= clients_part(bar));
    assert(text_of(clock_field(bar.clock)) =~= clock_part(bar));
}

pub(crate) proof fn joined_reads(a: Seq<Cell>, b: Seq<Cell>)
    ensures
        text_of(a + b) == text_of(a) + text_of(b),
{
    assert(text_of(a + b) =~= text_of(a) + text_of(b));
}

/// The minimal row reads as documented: session, tabs and what is waiting at the
/// left; at the right first-attach guidance, giving up its clues from the end, or
/// what is known of repository, clients and clock around the prefix, giving up
/// the clock first, then the clients, then the repository.
#[verifier::rlimit(40)]
pub proof fn the_minimal_row_reads_as_documented(bar: StatusBar, width: nat, options: ChromeOptions)
    requires
        bar.mode == StatusMode::Minimal,
    ensures
        ({
            let left = left_says(bar);
            let prefix = padded(prefix_says(bar.hint));
            let guided = bar.hint.guide || bar.hint.pending;
            let clued = |clues: nat|
                row_of(left, padded(prefix_says(bar.hint) + clues_say(clues)), width);
            let all = row_of(
                left,
                repository_part(bar) + clients_part(bar) + prefix + clock_part(bar),
                width,
            );
            let unclocked = row_of(left, repository_part(bar) + clients_part(bar) + prefix, width);
            let alone = row_of(left, repository_part(bar) + prefix, width);
            let bare = row_of(left, prefix, width);
            let text = text_of(status_bar(bar, width, options));
            if guided && clued(3) is Some {
                Some(text) == clued(3)
            } else if guided && clued(2) is Some {
                Some(text) == clued(2)
            } else if guided && clued(1) is Some {
                Some(text) == clued(1)
            } else if all is Some {
                Some(text) == all
            } else if unclocked is Some {
                Some(text) == unclocked
            } else if alone is Some {
                Some(text) == alone
            } else if bare is Some {
                Some(text) == bare
            } else {
                true
            }
        }),
{
    let left_cells = minimal_session(bar.session) + status_tabs(bar.tabs@, 0, bar.tabs@.len())
        + flanked(attention_field(bar.queue));
    left_reads(bar);
    guide_reads(bar.hint, 3);
    guide_reads(bar.hint, 2);
    guide_reads(bar.hint, 1);
    details_read(bar);
    let repository = repository_field(bar.repository);
    let clients = client_field(bar.clients);
    let prefix = flanked(bar.hint.chord());
    let clock = clock_field(bar.clock);
    joined_reads(repository, clients);
    joined_reads(repository + clients, prefix);
    joined_reads(repository + clients + prefix, clock);
    joined_reads(repository, prefix);
    ends_read(left_cells, flanked(bar.hint.guide(3)), width);
    ends_read(left_cells, flanked(bar.hint.guide(2)), width);
    ends_read(left_cells, flanked(bar.hint.guide(1)), width);
    ends_read(left_cells, repository + clients + prefix + clock, width);
    ends_read(left_cells, repository + clients + prefix, width);
    ends_read(left_cells, repository + prefix, width);
    ends_read(left_cells, prefix, width);
    let reference = minimal_reference(bar, width);
    assert(text_of(status_bar(bar, width, options)) =~= text_of(reference));
    let first = guided_row(bar.hint, left_cells, width);
    let second = detailed_row(left_cells, repository, clients, prefix, clock, width);
    if first is Some {
        assert(reference == first->0);
    } else if second is Some {
        assert(reference == second->0);
    }
}

/// Where only the markers have room, they are what is left of the minimal row.
pub proof fn the_minimal_row_keeps_its_markers(bar: StatusBar, width: nat, options: ChromeOptions)
    requires
        bar.mode == StatusMode::Minimal,
        width < 4,
    ensures
        status_bar(bar, width, options).len() == width,
        forall|i: int|
            0 <= i < width ==> (#[trigger] status_bar(bar, width, options)[i]).ch == seq![
                's',
                '>',
                '!',
            ][i] || bar.hint.prefix@.len() == 0,
{
    let reference = minimal_reference(bar, width);
    let session = minimal_session(bar.session);
    assert(session.len() >= 3);
    let attention = flanked(attention_field(bar.queue));
    assert(attention.len() >= 3);
    nothing_narrow_fits(bar, width);
}

proof fn nothing_narrow_fits(bar: StatusBar, width: nat)
    requires
        width < 4,
    ensures
        bar.hint.prefix@.len() > 0 ==> minimal_reference(bar, width) == minimal_marks(
            bar.hint,
            width,
        ),
        minimal_reference(bar, width).len() == width,
{
    let tabs = bar.tabs@;
    let session = minimal_session(bar.session);
    let attention = flanked(attention_field(bar.queue));
    assert(session.len() >= 3);
    assert(attention.len() >= 2);
    windows_do_not_fit(
        session,
        tabs,
        attention,
        flanked(bar.hint.chord()),
        0,
        tabs.len(),
        active_of(tabs),
        width,
    );
    decimal_is_not_empty(bar.queue@.entries.len());
    decimal_is_not_empty(active_of(tabs) + 1);
}

proof fn windows_do_not_fit(
    session: Seq<Cell>,
    tabs: Seq<TabSummary>,
    attention: Seq<Cell>,
    prefix: Seq<Cell>,
    first: nat,
    last: nat,
    active: nat,
    width: nat,
)
    requires
        session.len() + attention.len() > width,
    ensures
        crate::status_bar::windowed_row(
            session,
            tabs,
            attention,
            prefix,
            first,
            last,
            active,
            width,
        ) is None,
    decreases last - first,
{
    if let Some((a, b)) = crate::tabs::narrower(first, last, active) {
        windows_do_not_fit(session, tabs, attention, prefix, a, b, active, width);
    }
}

/// How the active tab reads in the powerline row.
pub open spec fn active_reads(tabs: Seq<TabSummary>) -> Seq<char> {
    if tabs.len() == 0 {
        seq![' ', '>', ' ']
    } else {
        tab_reads(tabs[active_of(tabs) as int], active_of(tabs) + 1, true)
    }
}

/// How the clients read in the powerline row, in full and in short, with the size
/// they share where it is known.
pub open spec fn powerline_clients_say(bar: StatusBar, short: bool) -> Seq<char> {
    if bar.clients is None && bar.effective_size is None {
        seq![]
    } else {
        let count = match bar.clients {
            Some(clients) => if short {
                decimal(clients as nat) + seq!['c']
            } else {
                counted(clients as nat, seq!['c', 'l', 'i', 'e', 'n', 't'])
            },
            None => seq![],
        };
        let gap = if bar.clients is Some && bar.effective_size is Some {
            if short {
                seq![' ']
            } else {
                seq![' ', '·', ' ']
            }
        } else {
            seq![]
        };
        let size = match bar.effective_size {
            Some(size) => (if short {
                seq![]
            } else {
                seq!['m', 'i', 'n', ' ']
            }) + decimal(size.cols as nat) + seq!['x'] + decimal(size.rows as nat),
            None => seq![],
        };
        padded(count + gap + size)
    }
}

/// What stands at the left of the powerline row.
pub open spec fn powerline_left(bar: StatusBar) -> Seq<char> {
    let between = if bar.powerline_separators {
        seq!['\u{e0b0}']
    } else {
        seq![]
    };
    let detail = match bar.repository {
        Some(repository) => padded(repository_says(repository)),
        None => padded(waiting_says(bar.queue@.entries)),
    };
    seq![' ', 'N', 'O', 'R', 'M', 'A', 'L', ' '] + between + padded(session_says(bar.session))
        + between + active_reads(bar.tabs@) + between + detail
}

/// What stands at the right of the powerline row.
pub open spec fn powerline_right(bar: StatusBar, clients: Seq<char>, clock: Seq<char>) -> Seq<char> {
    let between = if bar.powerline_separators && clients.len() > 0 && clock.len() > 0 {
        seq!['\u{e0b0}']
    } else {
        seq![]
    };
    clients + between + clock
}

pub(crate) proof fn grouping_reads(group: Seq<Cell>, part: Seq<Cell>, separators: bool)
    ensures
        text_of(grouped(group, part, separators)) == text_of(group) + (if separators && group.len()
            > 0 && part.len() > 0 {
            seq!['\u{e0b0}']
        } else {
            seq![]
        }) + text_of(part),
{
    assert(text_of(grouped(group, part, separators)) =~= text_of(group) + (if separators
        && group.len() > 0 && part.len() > 0 {
        seq!['\u{e0b0}']
    } else {
        seq![]
    }) + text_of(part));
}

#[verifier::rlimit(40)]
pub(crate) proof fn powerline_left_reads(bar: StatusBar)
    ensures
        ({
            let mode = segment(
                "NORMAL"@,
                surface(),
                crate::palette::accent(),
                CellAttrs::bold(),
            );
            let session = segment(
                session_text(bar.session),
                crate::palette::primary(),
                crate::palette::border(),
                CellAttrs::bold(),
            );
            let tab = crate::status_bar::powerline_part(
                active_status_tab(bar.tabs@, true),
                crate::palette::raised_surface(),
            );
            let sep = bar.powerline_separators;
            let left = grouped(
                grouped(grouped(grouped(seq![], mode, sep), session, sep), tab, sep),
                detail_full(bar),
                sep,
            );
            text_of(left) == powerline_left(bar)
        }),
{
    reveal_strlit("NORMAL");
    assert("NORMAL"@ =~= seq!['N', 'O', 'R', 'M', 'A', 'L']);
    let none = Seq::<Cell>::empty();
    let mode = segment("NORMAL"@, surface(), crate::palette::accent(), CellAttrs::bold());
    let session = segment(
        session_text(bar.session),
        crate::palette::primary(),
        crate::palette::border(),
        CellAttrs::bold(),
    );
    let tab = crate::status_bar::powerline_part(
        active_status_tab(bar.tabs@, true),
        crate::palette::raised_surface(),
    );
    let detail = detail_full(bar);
    let sep = bar.powerline_separators;
    assert(text_of(mode) =~= seq![' ', 'N', 'O', 'R', 'M', 'A', 'L', ' ']);
    assert(session_text(bar.session) =~= session_says(bar.session));
    assert(text_of(session) =~= padded(session_says(bar.session)));
    if bar.tabs@.len() > 0 {
        let at = active_of(bar.tabs@);
        status_tab_reads(bar.tabs@[at as int], at + 1, true);
        let own = active_status_tab(bar.tabs@, true);
        assert(text_of(own)[0] == ' ');
        assert(own[0].ch == ' ');
        assert(text_of(own).last() == ' ');
        assert(own.last().ch == text_of(own).last());
        assert(text_of(tab) =~= text_of(own));
    } else {
        assert(text_of(tab) =~= seq![' ', '>', ' ']);
    }
    assert(text_of(tab) == active_reads(bar.tabs@));
    match bar.repository {
        Some(repository) => {
            repository_reads(repository);
            flanked_reads(repository_text(repository));
            assert(text_of(detail) =~= text_of(flanked(repository_text(repository))));
        },
        None => {
            flanked_reads(attention_field(bar.queue));
            assert(text_of(attention_field(bar.queue)) =~= waiting_says(bar.queue@.entries));
            assert(text_of(detail) =~= text_of(flanked(attention_field(bar.queue))));
        },
    }
    let one = grouped(none, mode, sep);
    let two = grouped(one, session, sep);
    let three = grouped(two, tab, sep);
    grouping_reads(none, mode, sep);
    grouping_reads(one, session, sep);
    grouping_reads(two, tab, sep);
    grouping_reads(three, detail, sep);
    assert(text_of(one).len() == one.len());
    assert(text_of(two).len() == two.len());
    assert(text_of(three).len() == three.len());
    assert(text_of(tab).len() == tab.len());
    assert(text_of(detail).len() == detail.len());
    assert(text_of(grouped(three, detail, sep)) =~= powerline_left(bar));
}

proof fn powerline_right_reads(bar: StatusBar, clients: Seq<Cell>, clock: Seq<Cell>)
    ensures
        text_of(
            grouped(
                grouped(seq![], clients, bar.powerline_separators),
                clock,
                bar.powerline_separators,
            ),
        ) == powerline_right(bar, text_of(clients), text_of(clock)),
{
    let sep = bar.powerline_separators;
    let none = Seq::<Cell>::empty();
    let one = grouped(none, clients, sep);
    grouping_reads(none, clients, sep);
    grouping_reads(one, clock, sep);
    assert(text_of(clients).len() == clients.len());
    assert(text_of(clock).len() == clock.len());
    assert(text_of(none) =~= seq![]);
    assert(text_of(grouped(one, clock, sep)) =~= powerline_right(
        bar,
        text_of(clients),
        text_of(clock),
    ));
}

proof fn powerline_clients_read(bar: StatusBar, short: bool)
    ensures
        text_of(powerline_clients(bar.clients, bar.effective_size, short)) == powerline_clients_say(
            bar,
            short,
        ),
{
    reveal_strlit("client");
    reveal_strlit(" · ");
    reveal_strlit("min ");
    assert("client"@ =~= seq!['c', 'l', 'i', 'e', 'n', 't']);
    assert(" · "@ =~= seq![' ', '·', ' ']);
    assert("min "@ =~= seq!['m', 'i', 'n', ' ']);
    let cells = powerline_clients(bar.clients, bar.effective_size, short);
    if bar.clients is None && bar.effective_size is None {
        assert(text_of(cells) =~= seq![]);
    } else {
        let said = powerline_client_text(bar.clients, bar.effective_size, short);
        assert(text_of(cells) =~= padded(said));
        assert(padded(said) =~= powerline_clients_say(bar, short));
    }
}

/// The powerline row reads as documented: mode, session, the active tab and the
/// repository, or what is waiting where there is none; at the right the clients
/// with their shared size, and the clock. The clock goes first, then the clients
/// shorten, and then go.
#[verifier::rlimit(40)]
pub proof fn the_powerline_row_reads_as_documented(
    bar: StatusBar,
    width: nat,
    options: ChromeOptions,
)
    requires
        bar.mode == StatusMode::Powerline,
    ensures
        ({
            let left = powerline_left(bar);
            let full = powerline_clients_say(bar, false);
            let short = powerline_clients_say(bar, true);
            let all = row_of(left, powerline_right(bar, full, clock_part(bar)), width);
            let unclocked = row_of(left, powerline_right(bar, full, seq![]), width);
            let shortened = row_of(left, powerline_right(bar, short, seq![]), width);
            let alone = row_of(left, seq![], width);
            let text = text_of(status_bar(bar, width, options));
            if all is Some {
                Some(text) == all
            } else if unclocked is Some {
                Some(text) == unclocked
            } else if shortened is Some {
                Some(text) == shortened
            } else if alone is Some {
                Some(text) == alone
            } else {
                true
            }
        }),
{
    powerline_left_reads(bar);
    powerline_clients_read(bar, false);
    powerline_clients_read(bar, true);
    let none = Seq::<Cell>::empty();
    let full = powerline_clients(bar.clients, bar.effective_size, false);
    let short = powerline_clients(bar.clients, bar.effective_size, true);
    let clock = powerline_clock(bar.clock);
    assert(text_of(none) =~= seq![]);
    assert(text_of(clock) =~= clock_part(bar));
    powerline_right_reads(bar, full, clock);
    powerline_right_reads(bar, full, none);
    powerline_right_reads(bar, short, none);
    powerline_right_reads(bar, none, none);
    let mode = segment("NORMAL"@, surface(), crate::palette::accent(), CellAttrs::bold());
    let session = segment(
        session_text(bar.session),
        crate::palette::primary(),
        crate::palette::border(),
        CellAttrs::bold(),
    );
    let tab = crate::status_bar::powerline_part(
        active_status_tab(bar.tabs@, true),
        crate::palette::raised_surface(),
    );
    let sep = bar.powerline_separators;
    let left = grouped(
        grouped(grouped(grouped(seq![], mode, sep), session, sep), tab, sep),
        detail_full(bar),
        sep,
    );
    ends_read(left, grouped(grouped(none, full, sep), clock, sep), width);
    ends_read(left, grouped(grouped(none, full, sep), none, sep), width);
    ends_read(left, grouped(grouped(none, short, sep), none, sep), width);
    ends_read(left, grouped(grouped(none, none, sep), none, sep), width);
    assert(powerline_right(bar, seq![], seq![]) =~= seq![]);
    let reference = powerline_reference(bar, width);
    assert(text_of(status_bar(bar, width, options)) =~= text_of(reference));
    let wide = powerline_wide(bar, width);
    if wide is Some {
        assert(reference == wide->0);
    }
}

} // verus!
