//! How the status row and the tab row shorten where they have no room for all they
//! say, and in what colours their fields are drawn.

use vstd::prelude::*;

use crate::cells::{or, text_of};
use crate::chrome::ChromeOptions;
use crate::palette::{
    accent, border, info, muted, plain, primary, raised_surface, success, surface, warning,
};
use crate::proto::{Cell, CellAttrs, TabSummary};
use crate::status_bar::{
    active_status_tab, attention_count, attention_field, client_field, clock_field, clue,
    compact_row, detail_mark, detail_short, detailed_row, ends, flanked, grouped, guided_row,
    minimal_marks, minimal_reference, minimal_session, powerline_candidate, powerline_marks,
    powerline_narrow, powerline_part, powerline_reference, powerline_wide, repository_field,
    repository_text, segment, session_text, status_bar, status_tab, status_tabs, windowed_row,
    PrefixHint, RepositoryStatus, StatusBar, StatusMode,
};
use crate::status_laws::{
    ends_read, flanked_reads, grouping_reads, guide_reads, joined_reads, padded, powerline_left,
    powerline_left_reads, prefix_says, row_of, session_says, status_tab_reads, tab_reads,
    text_of_row, waiting_says,
};
use crate::tabs::{
    active_of, apart, badge, badge_says, by_window, chip, chips, chips_read_as_tabs, lone_chip,
    narrower, narrowest, small_badge, tab_candidate, tab_row, tab_row_reference, tab_says,
    tabs_say, TabBar,
};
use crate::text::decimal;

verus! {

// The minimal row.

/// The tabs that are left once `given` of them were given up: first those at the
/// right of the one the user is on, from the far end, and then those at its left.
pub open spec fn tabs_left(tabs: nat, active: nat, given: nat) -> (nat, nat) {
    if given + active < tabs {
        (0, (tabs - given) as nat)
    } else {
        ((given + active + 1 - tabs) as nat, active + 1)
    }
}

/// How the tabs from one up to another read.
pub open spec fn tabs_between(tabs: Seq<TabSummary>, first: nat, last: nat) -> Seq<char>
    decreases last,
{
    if last <= first || last == 0 {
        seq![]
    } else {
        tabs_between(tabs, first, (last - 1) as nat) + tab_reads(tabs[last - 1], last, true)
    }
}

proof fn tabs_between_read(tabs: Seq<TabSummary>, first: nat, last: nat)
    requires
        last <= tabs.len(),
    ensures
        text_of(status_tabs(tabs, first, last)) == tabs_between(tabs, first, last),
    decreases last,
{
    if last > first {
        tabs_between_read(tabs, first, (last - 1) as nat);
        status_tab_reads(tabs[last - 1], last, true);
        assert(text_of(status_tabs(tabs, first, last)) =~= tabs_between(tabs, first, last));
    } else {
        assert(text_of(status_tabs(tabs, first, last)) =~= tabs_between(tabs, first, last));
    }
}

/// The minimal row with some of its tabs given up, where it fits.
pub open spec fn row_without(bar: StatusBar, given: nat, width: nat) -> Option<Seq<char>> {
    let tabs = bar.tabs@;
    let (first, last) = tabs_left(tabs.len(), active_of(tabs), given);
    row_of(
        padded(session_says(bar.session)) + tabs_between(
            tabs,
            first,
            if tabs.len() == 0 {
                0
            } else {
                last
            },
        ) + padded(waiting_says(bar.queue@.entries)),
        padded(prefix_says(bar.hint)),
        width,
    )
}

proof fn session_reads(bar: StatusBar)
    ensures
        text_of(minimal_session(bar.session)) == padded(session_says(bar.session)),
        text_of(flanked(attention_field(bar.queue))) == padded(waiting_says(bar.queue@.entries)),
        session_text(bar.session) == session_says(bar.session),
{
    assert(session_text(bar.session) =~= session_says(bar.session));
    assert(text_of(minimal_session(bar.session)) =~= padded(session_says(bar.session)));
    flanked_reads(attention_field(bar.queue));
    assert(text_of(attention_field(bar.queue)) =~= waiting_says(bar.queue@.entries));
}

proof fn window_reads(bar: StatusBar, first: nat, last: nat, width: nat)
    requires
        last <= bar.tabs@.len(),
    ensures
        text_of_row(
            ends(
                minimal_session(bar.session) + status_tabs(bar.tabs@, first, last) + flanked(
                    attention_field(bar.queue),
                ),
                flanked(bar.hint.chord()),
                width,
            ),
        ) == row_of(
            padded(session_says(bar.session)) + tabs_between(bar.tabs@, first, last) + padded(
                waiting_says(bar.queue@.entries),
            ),
            padded(prefix_says(bar.hint)),
            width,
        ),
{
    let session = minimal_session(bar.session);
    let tabs = status_tabs(bar.tabs@, first, last);
    let attention = flanked(attention_field(bar.queue));
    session_reads(bar);
    tabs_between_read(bar.tabs@, first, last);
    guide_reads(bar.hint, 1);
    joined_reads(session, tabs);
    joined_reads(session + tabs, attention);
    ends_read(session + tabs + attention, flanked(bar.hint.chord()), width);
}

/// Windows narrow one tab at a time, and the row is the first that fits.
proof fn windows_narrow(bar: StatusBar, given: nat, until: nat, width: nat)
    requires
        bar.tabs@.len() > 0,
        active_of(bar.tabs@) < bar.tabs@.len(),
        given <= until <= bar.tabs@.len(),
        given < bar.tabs@.len(),
        forall|k: nat| given <= k < until ==> (#[trigger] row_without(bar, k, width)) is None,
        until < bar.tabs@.len() ==> row_without(bar, until, width) is Some,
    ensures
        ({
            let tabs = bar.tabs@;
            let (first, last) = tabs_left(tabs.len(), active_of(tabs), given);
            let row = text_of_row(
                windowed_row(
                    minimal_session(bar.session),
                    tabs,
                    flanked(attention_field(bar.queue)),
                    flanked(bar.hint.chord()),
                    first,
                    last,
                    active_of(tabs),
                    width,
                ),
            );
            if until < tabs.len() {
                row == row_without(bar, until, width)
            } else {
                row is None
            }
        }),
    decreases bar.tabs@.len() - given,
{
    let tabs = bar.tabs@;
    let active = active_of(tabs);
    let (first, last) = tabs_left(tabs.len(), active, given);
    window_reads(bar, first, last, width);
    if given < until {
        assert(row_without(bar, given, width) is None);
        if given + 1 < tabs.len() {
            assert(narrower(first, last, active) == Some(tabs_left(tabs.len(), active, given + 1)));
            windows_narrow(bar, given + 1, until, width);
        } else {
            assert(narrower(first, last, active) is None);
        }
    }
}

proof fn active_is_a_tab(tabs: Seq<TabSummary>, from: nat)
    requires
        from <= tabs.len(),
    ensures
        crate::tabs::first_active(tabs, from) matches Some(at) ==> at < tabs.len(),
    decreases tabs.len() - from,
{
    if from < tabs.len() {
        active_is_a_tab(tabs, from + 1);
    }
}

/// How the tab the user is on reads by its position alone.
pub open spec fn short_tab(tabs: Seq<TabSummary>) -> Seq<char> {
    if tabs.len() == 0 {
        seq!['>']
    } else {
        tab_reads(tabs[active_of(tabs) as int], active_of(tabs) + 1, false)
    }
}

proof fn short_tab_reads(tabs: Seq<TabSummary>)
    ensures
        text_of(active_status_tab(tabs, false)) == short_tab(tabs),
{
    if tabs.len() > 0 {
        active_is_a_tab(tabs, 0);
        status_tab_reads(tabs[active_of(tabs) as int], active_of(tabs) + 1, false);
    } else {
        assert(text_of(active_status_tab(tabs, false)) =~= seq!['>']);
    }
}

proof fn count_reads(bar: StatusBar)
    ensures
        text_of(attention_count(bar.queue)) == decimal(bar.queue@.entries.len()) + seq!['!'],
{
    assert(text_of(attention_count(bar.queue)) =~= decimal(bar.queue@.entries.len()) + seq!['!']);
}

proof fn longer_rows_do_not_fit(bar: StatusBar, width: nat)
    requires
        row_without(bar, 0, width) is None,
    ensures
        ({
            let left = minimal_session(bar.session) + status_tabs(
                bar.tabs@,
                0,
                bar.tabs@.len(),
            ) + flanked(attention_field(bar.queue));
            let prefix = flanked(bar.hint.chord());
            &&& guided_row(bar.hint, left, width) is None
            &&& detailed_row(
                left,
                repository_field(bar.repository),
                client_field(bar.clients),
                prefix,
                clock_field(bar.clock),
                width,
            ) is None
            &&& bar.tabs@.len() == 0 ==> windowed_row(
                minimal_session(bar.session),
                bar.tabs@,
                flanked(attention_field(bar.queue)),
                prefix,
                0,
                0,
                active_of(bar.tabs@),
                width,
            ) is None
        }),
{
    active_is_a_tab(bar.tabs@, 0);
    let left = minimal_session(bar.session) + status_tabs(bar.tabs@, 0, bar.tabs@.len()) + flanked(
        attention_field(bar.queue),
    );
    let prefix = flanked(bar.hint.chord());
    window_reads(bar, 0, bar.tabs@.len(), width);
    assert(ends(left, prefix, width) is None);
    assert(left.len() + prefix.len() > width);
}

#[verifier::rlimit(40)]
proof fn compact_reads(bar: StatusBar, width: nat)
    ensures
        ({
            let prefix = padded(prefix_says(bar.hint));
            let chord = prefix_says(bar.hint);
            let tab = short_tab(bar.tabs@);
            let waiting = padded(waiting_says(bar.queue@.entries));
            let count = decimal(bar.queue@.entries.len()) + seq!['!'];
            let untitled = row_of(padded(session_says(bar.session)) + tab + waiting, prefix, width);
            let unnamed = row_of(seq!['s'] + tab + waiting, prefix, width);
            let counted = row_of(seq!['s'] + tab + count, prefix, width);
            let unpadded = row_of(seq!['s'] + tab + count, chord, width);
            let marked = row_of(seq!['s', '>', '!'], chord, width);
            text_of_row(
                compact_row(
                    minimal_session(bar.session),
                    active_status_tab(bar.tabs@, false),
                    flanked(attention_field(bar.queue)),
                    attention_count(bar.queue),
                    flanked(bar.hint.chord()),
                    bar.hint.chord(),
                    width,
                ),
            ) == or(untitled, or(unnamed, or(counted, or(unpadded, marked))))
        }),
{
    let session = minimal_session(bar.session);
    let tab = active_status_tab(bar.tabs@, false);
    let attention = flanked(attention_field(bar.queue));
    let count = attention_count(bar.queue);
    let prefix = flanked(bar.hint.chord());
    let chord = bar.hint.chord();
    session_reads(bar);
    short_tab_reads(bar.tabs@);
    count_reads(bar);
    guide_reads(bar.hint, 1);
    let s = plain(seq!['s'], primary(), CellAttrs::bold());
    let t = plain(seq!['>'], accent(), CellAttrs::bold());
    let a = plain(seq!['!'], warning(), CellAttrs::bold());
    assert(text_of(s) =~= seq!['s']);
    assert(text_of(s + t + a) =~= seq!['s', '>', '!']);
    assert(text_of(chord) =~= prefix_says(bar.hint));
    joined_reads(session, tab);
    joined_reads(session + tab, attention);
    joined_reads(s, tab);
    joined_reads(s + tab, attention);
    joined_reads(s + tab, count);
    ends_read(session + tab + attention, prefix, width);
    ends_read(s + tab + attention, prefix, width);
    ends_read(s + tab + count, prefix, width);
    ends_read(s + tab + count, chord, width);
    ends_read(s + t + a, chord, width);
}

proof fn minimal_marks_are_left(bar: StatusBar, width: nat)
    ensures
        ({
            let text = text_of(minimal_marks(bar.hint, width));
            let marks = seq!['s', '>', '!', bar.hint.last_char()];
            &&& text.len() == width
            &&& forall|i: int|
                0 <= i < width ==> (#[trigger] text[i]) == if i < 4 {
                    marks[i]
                } else {
                    ' '
                }
        }),
{
}

/// Where the minimal row has no room for all its tabs, it gives them up one at a
/// time around the one the user is on, and shows as many as fit. Where not even
/// that one fits with its title, the row shortens field by field: the title, the
/// session, what is waiting, the spaces round the prefix, and at last everything
/// but a mark for each.
#[verifier::rlimit(40)]
pub proof fn the_minimal_row_shortens_as_documented(
    bar: StatusBar,
    given: nat,
    width: nat,
    options: ChromeOptions,
)
    requires
        bar.mode == StatusMode::Minimal,
        0 < given,
        given <= bar.tabs@.len() || given == 1,
        forall|k: nat| k < given ==> (#[trigger] row_without(bar, k, width)) is None,
        given < bar.tabs@.len() ==> row_without(bar, given, width) is Some,
    ensures
        ({
            let text = text_of(status_bar(bar, width, options));
            let prefix = padded(prefix_says(bar.hint));
            let chord = prefix_says(bar.hint);
            let tab = short_tab(bar.tabs@);
            let waiting = padded(waiting_says(bar.queue@.entries));
            let count = decimal(bar.queue@.entries.len()) + seq!['!'];
            let untitled = row_of(padded(session_says(bar.session)) + tab + waiting, prefix, width);
            let unnamed = row_of(seq!['s'] + tab + waiting, prefix, width);
            let counted = row_of(seq!['s'] + tab + count, prefix, width);
            let unpadded = row_of(seq!['s'] + tab + count, chord, width);
            let marked = row_of(seq!['s', '>', '!'], chord, width);
            let marks = seq!['s', '>', '!', bar.hint.last_char()];
            if given < bar.tabs@.len() {
                Some(text) == row_without(bar, given, width)
            } else if untitled is Some {
                Some(text) == untitled
            } else if unnamed is Some {
                Some(text) == unnamed
            } else if counted is Some {
                Some(text) == counted
            } else if unpadded is Some {
                Some(text) == unpadded
            } else if marked is Some {
                Some(text) == marked
            } else {
                &&& text.len() == width
                &&& forall|i: int|
                    0 <= i < width ==> (#[trigger] text[i]) == if i < 4 {
                        marks[i]
                    } else {
                        ' '
                    }
            }
        }),
{
    let tabs = bar.tabs@;
    let session = minimal_session(bar.session);
    let attention = flanked(attention_field(bar.queue));
    let prefix = flanked(bar.hint.chord());
    let chord = bar.hint.chord();
    let count = attention_count(bar.queue);
    let tab = active_status_tab(tabs, false);
    assert(row_without(bar, 0, width) is None);
    longer_rows_do_not_fit(bar, width);
    active_is_a_tab(tabs, 0);
    let reference = minimal_reference(bar, width);
    assert(text_of(status_bar(bar, width, options)) =~= text_of(reference));
    let windows = windowed_row(
        session,
        tabs,
        attention,
        prefix,
        0,
        tabs.len(),
        active_of(tabs),
        width,
    );
    if tabs.len() > 0 {
        windows_narrow(bar, 0, given, width);
    }
    if given < tabs.len() {
        assert(reference == windows->0);
    } else {
        assert(windows is None);
        compact_reads(bar, width);
        minimal_marks_are_left(bar, width);
        let compact = compact_row(session, tab, attention, count, prefix, chord, width);
        assert(reference == if compact is Some {
            compact->0
        } else {
            minimal_marks(bar.hint, width)
        });
    }
}

// The powerline row.

/// What stands in the powerline row where its fields are shortened.
pub open spec fn powerline_row(
    bar: StatusBar,
    mode: Seq<char>,
    session: Seq<char>,
    tab: Seq<char>,
    detail: Seq<char>,
    width: nat,
) -> Option<Seq<char>> {
    let between = if bar.powerline_separators {
        seq!['\u{e0b0}']
    } else {
        seq![]
    };
    row_of(
        mode + between + session + between + tab + between + detail,
        seq![],
        width,
    )
}

/// The short detail: that there is a repository and how much changed in it, or how
/// much is waiting where there is none.
pub open spec fn short_detail(bar: StatusBar) -> Seq<char> {
    padded(
        match bar.repository {
            Some(repository) => seq!['g', 'i', 't'] + (if repository.changes > 0 {
                seq![' ', '+'] + decimal(repository.changes as nat)
            } else {
                seq![]
            }),
            None => decimal(bar.queue@.entries.len()) + seq!['!'],
        },
    )
}

/// How the tab the user is on reads in the powerline row.
pub open spec fn powerline_tab(tabs: Seq<TabSummary>, titled: bool) -> Seq<char> {
    if tabs.len() == 0 {
        seq![' ', '>', ' ']
    } else {
        tab_reads(tabs[active_of(tabs) as int], active_of(tabs) + 1, titled)
    }
}

proof fn powerline_tab_reads(tabs: Seq<TabSummary>, titled: bool)
    ensures
        text_of(powerline_part(active_status_tab(tabs, titled), raised_surface()))
            == powerline_tab(tabs, titled),
{
    let own = active_status_tab(tabs, titled);
    let part = powerline_part(own, raised_surface());
    if tabs.len() > 0 {
        active_is_a_tab(tabs, 0);
        let at = active_of(tabs);
        status_tab_reads(tabs[at as int], at + 1, titled);
        assert(text_of(own)[0] == ' ');
        assert(own[0].ch == ' ');
        assert(text_of(own).last() == ' ');
        assert(own.last().ch == text_of(own).last());
        assert(text_of(part) =~= text_of(own));
    } else {
        assert(text_of(part) =~= seq![' ', '>', ' ']);
    }
}

proof fn digits_are_no_spaces(value: nat)
    ensures
        decimal(value).len() > 0,
        forall|i: int| 0 <= i < decimal(value).len() ==> (#[trigger] decimal(value)[i]) != ' ',
    decreases value,
{
    if value >= 10 {
        digits_are_no_spaces(value / 10);
    }
}

proof fn short_detail_reads(bar: StatusBar)
    ensures
        text_of(detail_short(bar)) == short_detail(bar),
        text_of(detail_mark(bar)) == padded(
            if bar.repository is Some {
                seq!['g']
            } else {
                seq!['!']
            },
        ),
{
    reveal_strlit("git");
    assert("git"@ =~= seq!['g', 'i', 't']);
    match bar.repository {
        Some(repository) => {
            digits_are_no_spaces(repository.changes as nat);
            let cells = plain("git"@, success(), CellAttrs::bold()) + (if repository.changes > 0 {
                plain(
                    seq![' ', '+'] + decimal(repository.changes as nat),
                    warning(),
                    CellAttrs::none(),
                )
            } else {
                seq![]
            });
            let says = seq!['g', 'i', 't'] + (if repository.changes > 0 {
                seq![' ', '+'] + decimal(repository.changes as nat)
            } else {
                seq![]
            });
            assert(text_of(cells) =~= says);
            assert(cells[0].ch == text_of(cells)[0]);
            assert(cells.last().ch == text_of(cells)[cells.len() - 1]);
            assert(text_of(powerline_part(cells, surface())) =~= padded(says));
        },
        None => {
            count_reads(bar);
            digits_are_no_spaces(bar.queue@.entries.len());
            let cells = attention_count(bar.queue);
            assert(cells[0].ch == text_of(cells)[0]);
            assert(cells.last().ch == text_of(cells)[cells.len() - 1]);
            assert(text_of(powerline_part(cells, surface())) =~= padded(text_of(cells)));
        },
    }
    let g = plain(seq!['g'], success(), CellAttrs::bold());
    let a = plain(seq!['!'], warning(), CellAttrs::bold());
    assert(text_of(powerline_part(g, surface())) =~= padded(seq!['g']));
    assert(text_of(powerline_part(a, surface())) =~= padded(seq!['!']));
}

proof fn candidate_reads(
    bar: StatusBar,
    mode: Seq<Cell>,
    session: Seq<Cell>,
    tab: Seq<Cell>,
    detail: Seq<Cell>,
    width: nat,
)
    requires
        text_of(mode).len() > 0,
        text_of(session).len() > 0,
        text_of(tab).len() > 0,
        text_of(detail).len() > 0,
    ensures
        text_of_row(
            powerline_candidate(
                mode,
                session,
                tab,
                detail,
                seq![],
                seq![],
                bar.powerline_separators,
                width,
            ),
        ) == powerline_row(
            bar,
            text_of(mode),
            text_of(session),
            text_of(tab),
            text_of(detail),
            width,
        ),
{
    let sep = bar.powerline_separators;
    let none = Seq::<Cell>::empty();
    let one = grouped(none, mode, sep);
    let two = grouped(one, session, sep);
    let three = grouped(two, tab, sep);
    let left = grouped(three, detail, sep);
    let right = grouped(grouped(none, none, sep), none, sep);
    grouping_reads(none, mode, sep);
    grouping_reads(one, session, sep);
    grouping_reads(two, tab, sep);
    grouping_reads(three, detail, sep);
    let between = if sep {
        seq!['\u{e0b0}']
    } else {
        seq![]
    };
    assert(text_of(left) =~= text_of(mode) + between + text_of(session) + between + text_of(tab)
        + between + text_of(detail));
    assert(text_of(right) =~= seq![]);
    ends_read(left, right, width);
}

proof fn marks_read(bar: StatusBar)
    ensures
        ({
            let mode = segment("NORMAL"@, surface(), accent(), CellAttrs::bold());
            let session = segment(session_text(bar.session), primary(), border(), CellAttrs::bold());
            let mark = |ch: char| seq![' ', ch, ' '];
            &&& text_of(mode) == seq![' ', 'N', 'O', 'R', 'M', 'A', 'L', ' ']
            &&& text_of(session) == padded(session_says(bar.session))
            &&& text_of(
                powerline_part(plain(seq!['N'], surface(), CellAttrs::bold()), accent()),
            ) == mark('N')
            &&& text_of(
                powerline_part(plain(seq!['s'], primary(), CellAttrs::bold()), border()),
            ) == mark('s')
            &&& text_of(
                powerline_part(plain(seq!['>'], accent(), CellAttrs::bold()), raised_surface()),
            ) == mark('>')
            &&& text_of(detail_mark(bar)) == mark(
                if bar.repository is Some {
                    'g'
                } else {
                    '!'
                },
            )
        }),
{
    reveal_strlit("NORMAL");
    assert("NORMAL"@ =~= seq!['N', 'O', 'R', 'M', 'A', 'L']);
    session_reads(bar);
    short_detail_reads(bar);
    let mode = segment("NORMAL"@, surface(), accent(), CellAttrs::bold());
    let session = segment(session_text(bar.session), primary(), border(), CellAttrs::bold());
    assert(text_of(mode) =~= seq![' ', 'N', 'O', 'R', 'M', 'A', 'L', ' ']);
    assert(text_of(session) =~= padded(session_says(bar.session)));
    assert(text_of(powerline_part(plain(seq!['N'], surface(), CellAttrs::bold()), accent()))
        =~= seq![' ', 'N', ' ']);
    assert(text_of(powerline_part(plain(seq!['s'], primary(), CellAttrs::bold()), border()))
        =~= seq![' ', 's', ' ']);
    assert(text_of(powerline_part(plain(seq!['>'], accent(), CellAttrs::bold()), raised_surface()))
        =~= seq![' ', '>', ' ']);
    assert(padded(seq!['g']) =~= seq![' ', 'g', ' ']);
    assert(padded(seq!['!']) =~= seq![' ', '!', ' ']);
}

proof fn nothing_wide_fits(bar: StatusBar, width: nat)
    requires
        powerline_left(bar).len() > width,
    ensures
        powerline_wide(bar, width) is None,
{
    powerline_left_reads(bar);
}

proof fn marks_are_left(bar: StatusBar, width: nat)
    ensures
        ({
            let text = text_of(powerline_marks(bar, width));
            let marks = seq![
                'N',
                's',
                '>',
                if bar.repository is Some {
                    'g'
                } else {
                    '!'
                },
            ];
            &&& text.len() == width
            &&& forall|i: int|
                0 <= i < width ==> (#[trigger] text[i]) == if i < 4 {
                    marks[i]
                } else {
                    ' '
                }
        }),
{
}

/// Where the powerline row has no room for its fields in full, it shortens them in
/// turn: the detail, the tab's title, the session, the tab, and at last everything
/// to a mark for each.
#[verifier::rlimit(40)]
pub proof fn the_powerline_row_shortens_as_documented(
    bar: StatusBar,
    width: nat,
    options: ChromeOptions,
)
    requires
        bar.mode == StatusMode::Powerline,
        powerline_left(bar).len() > width,
    ensures
        ({
            let text = text_of(status_bar(bar, width, options));
            let normal = seq![' ', 'N', 'O', 'R', 'M', 'A', 'L', ' '];
            let session = padded(session_says(bar.session));
            let mark = |ch: char| seq![' ', ch, ' '];
            let detail = short_detail(bar);
            let last = if bar.repository is Some {
                'g'
            } else {
                '!'
            };
            let first = powerline_row(
                bar,
                normal,
                session,
                powerline_tab(bar.tabs@, true),
                detail,
                width,
            );
            let untitled = powerline_row(
                bar,
                normal,
                session,
                powerline_tab(bar.tabs@, false),
                detail,
                width,
            );
            let unnamed = powerline_row(
                bar,
                normal,
                mark('s'),
                powerline_tab(bar.tabs@, false),
                detail,
                width,
            );
            let unnumbered = powerline_row(bar, normal, mark('s'), mark('>'), detail, width);
            let marked = powerline_row(bar, mark('N'), mark('s'), mark('>'), mark(last), width);
            let marks = seq!['N', 's', '>', last];
            if first is Some {
                Some(text) == first
            } else if untitled is Some {
                Some(text) == untitled
            } else if unnamed is Some {
                Some(text) == unnamed
            } else if unnumbered is Some {
                Some(text) == unnumbered
            } else if marked is Some {
                Some(text) == marked
            } else {
                &&& text.len() == width
                &&& forall|i: int|
                    0 <= i < width ==> (#[trigger] text[i]) == if i < 4 {
                        marks[i]
                    } else {
                        ' '
                    }
            }
        }),
{
    marks_read(bar);
    powerline_tab_reads(bar.tabs@, true);
    powerline_tab_reads(bar.tabs@, false);
    short_detail_reads(bar);
    nothing_wide_fits(bar, width);
    let mode = segment("NORMAL"@, surface(), accent(), CellAttrs::bold());
    let mode_mark = powerline_part(plain(seq!['N'], surface(), CellAttrs::bold()), accent());
    let session = segment(session_text(bar.session), primary(), border(), CellAttrs::bold());
    let session_mark = powerline_part(plain(seq!['s'], primary(), CellAttrs::bold()), border());
    let tab = powerline_part(active_status_tab(bar.tabs@, true), raised_surface());
    let tab_short = powerline_part(active_status_tab(bar.tabs@, false), raised_surface());
    let tab_mark = powerline_part(plain(seq!['>'], accent(), CellAttrs::bold()), raised_surface());
    candidate_reads(bar, mode, session, tab, detail_short(bar), width);
    candidate_reads(bar, mode, session, tab_short, detail_short(bar), width);
    candidate_reads(bar, mode, session_mark, tab_short, detail_short(bar), width);
    candidate_reads(bar, mode, session_mark, tab_mark, detail_short(bar), width);
    candidate_reads(bar, mode_mark, session_mark, tab_mark, detail_mark(bar), width);
    let reference = powerline_reference(bar, width);
    assert(text_of(status_bar(bar, width, options)) =~= text_of(reference));
    let narrow = powerline_narrow(bar, width);
    assert(reference == if narrow is Some {
        narrow->0
    } else {
        powerline_marks(bar, width)
    });
    marks_are_left(bar, width);
}

// Colours.

/// The count of what is waiting warns where anything is, and is muted where
/// nothing is.
pub proof fn what_is_waiting_warns(bar: StatusBar, i: int)
    requires
        0 <= i < attention_count(bar.queue).len(),
    ensures
        attention_count(bar.queue)[i].fg == (if bar.queue@.entries.len() > 0 {
            warning()
        } else {
            muted()
        }),
        attention_count(bar.queue)[i].attrs.bold,
{
}

/// The prefix is lit while its chord is awaited and plain otherwise; behind it
/// each clue is muted and ends in a lit key.
pub proof fn a_pending_prefix_is_lit(hint: PrefixHint, word: Seq<char>, key: char, i: int)
    ensures
        0 <= i < hint.chord().len() ==> hint.chord()[i].fg == (if hint.pending {
            accent()
        } else {
            primary()
        }) && hint.chord()[i].attrs.bold == hint.pending,
        ({
            let cells = clue(word, key);
            &&& cells.len() == word.len() + 3
            &&& cells.last().ch == key && cells.last().fg == accent() && cells.last().attrs.bold
            &&& 0 <= i < cells.len() - 1 ==> cells[i].fg == muted() && !cells[i].attrs.bold
        }),
{
}

/// A repository is told in the colour of success, its branch in the colour of
/// text, and what changed in it as a warning.
pub proof fn a_repository_is_told_in_its_colours(repository: RepositoryStatus, i: int)
    requires
        0 <= i < repository_text(&repository).len(),
    ensures
        ({
            let cell = repository_text(&repository)[i];
            let branch = match repository.branch {
                Some(name) => name@.len() as int,
                None => 0,
            };
            let end = if branch > 0 {
                4 + branch
            } else {
                3
            };
            &&& i < 3 ==> cell.fg == success() && cell.attrs.bold
            &&& branch > 0 && 4 <= i < end ==> cell.fg == primary() && !cell.attrs.bold
            &&& i > end ==> cell.fg == warning() && !cell.attrs.bold
            &&& cell.bg == surface()
        }),
{
    reveal_strlit("git");
}

/// The tab the user is on is raised, bold and underlined, its mark lit, its
/// position told in the colour of information and its title in that of text. Any
/// other is flat and muted.
pub proof fn the_active_tab_stands_out(active: bool, title: Seq<char>, index: nat, titled: bool, i: int)
    requires
        0 <= i < status_tab(active, title, index, titled).len(),
    ensures
        ({
            let cell = status_tab(active, title, index, titled)[i];
            let end = 2 + decimal(index).len();
            &&& cell.bg == (if active {
                raised_surface()
            } else {
                surface()
            })
            &&& cell.attrs.bold == active && cell.attrs.underline == active
            &&& !active ==> cell.fg == muted()
            &&& active && i == 1 ==> cell.fg == accent()
            &&& active && 2 <= i < end ==> cell.fg == info()
            &&& active && titled && end < i < end + 1 + title.len() ==> cell.fg == primary()
        }),
{
}

/// A tab of the tab row is muted where the user is not on it, and the session is
/// told on the accent colour.
pub proof fn other_tabs_recede(index: nat, title: Seq<char>, name: Seq<char>, i: int)
    ensures
        0 <= i < chip(false, index, title).len() ==> {
            let cell = chip(false, index, title)[i];
            cell.fg == muted() && cell.bg == surface() && !cell.attrs.bold && !cell.attrs.underline
        },
        0 <= i < badge(Some(name)).len() ==> {
            let cell = badge(Some(name))[i];
            cell.fg == surface() && cell.bg == accent() && cell.attrs.bold
        },
{
}

// The tab row.

/// The tab row with some of its tabs given up, where it fits.
pub open spec fn tabs_without(bar: TabBar, given: nat, width: nat) -> Option<Seq<char>> {
    let tabs = bar.tabs@;
    let (first, last) = tabs_left(tabs.len(), active_of(tabs), given);
    row_of(badge_says(bar.session) + tabs_say(tabs, first, last), seq![], width)
}

proof fn tab_window_reads(bar: TabBar, front: Seq<Cell>, first: nat, last: nat, width: nat)
    requires
        first <= last <= bar.tabs@.len(),
    ensures
        text_of_row(tab_candidate(front, bar.tabs@, first, last, seq![], width)) == row_of(
            text_of(front) + tabs_say(bar.tabs@, first, last),
            seq![],
            width,
        ),
{
    let shown = chips(bar.tabs@, first, last);
    chips_read_as_tabs(bar.tabs@, first, last);
    joined_reads(front, shown);
    assert(text_of(front + shown).len() == (front + shown).len());
    let row = tab_candidate(front, bar.tabs@, first, last, seq![], width);
    if (front + shown).len() <= width {
        assert(text_of(row->0) =~= apart(text_of(front + shown), seq![], width));
    }
}

proof fn tab_windows_narrow(bar: TabBar, given: nat, until: nat, width: nat)
    requires
        active_of(bar.tabs@) < bar.tabs@.len(),
        given <= until <= bar.tabs@.len(),
        given < bar.tabs@.len(),
        forall|k: nat| given <= k < until ==> (#[trigger] tabs_without(bar, k, width)) is None,
        until < bar.tabs@.len() ==> tabs_without(bar, until, width) is Some,
        text_of(badge(bar.name())) == badge_says(bar.session),
    ensures
        ({
            let tabs = bar.tabs@;
            let (first, last) = tabs_left(tabs.len(), active_of(tabs), given);
            let row = text_of_row(
                by_window(badge(bar.name()), tabs, first, last, active_of(tabs), width),
            );
            &&& if until < tabs.len() {
                row == tabs_without(bar, until, width)
            } else {
                row is None
            }
            &&& narrowest(first, last, active_of(tabs)) == (active_of(tabs), active_of(tabs) + 1)
        }),
    decreases bar.tabs@.len() - given,
{
    let tabs = bar.tabs@;
    let active = active_of(tabs);
    let (first, last) = tabs_left(tabs.len(), active, given);
    tab_window_reads(bar, badge(bar.name()), first, last, width);
    if given + 1 < tabs.len() {
        assert(narrower(first, last, active) == Some(tabs_left(tabs.len(), active, given + 1)));
        if given < until {
            assert(tabs_without(bar, given, width) is None);
            tab_windows_narrow(bar, given + 1, until, width);
        } else {
            narrowing_ends_at_the_active_tab(tabs.len(), active, given);
        }
    } else {
        assert(narrower(first, last, active) is None);
        if given < until {
            assert(tabs_without(bar, given, width) is None);
        }
    }
}

proof fn narrowing_ends_at_the_active_tab(tabs: nat, active: nat, given: nat)
    requires
        active < tabs,
        given < tabs,
    ensures
        ({
            let (first, last) = tabs_left(tabs, active, given);
            narrowest(first, last, active) == (active, active + 1)
        }),
    decreases tabs - given,
{
    let (first, last) = tabs_left(tabs, active, given);
    if given + 1 < tabs {
        assert(narrower(first, last, active) == Some(tabs_left(tabs, active, given + 1)));
        narrowing_ends_at_the_active_tab(tabs, active, given + 1);
    } else {
        assert(narrower(first, last, active) is None);
    }
}

/// Where the tab row has no room for all its tabs, it gives them up one at a time
/// around the one the user is on, and shows as many as fit. Where not even that
/// one fits, the session shrinks to a letter, then goes, and at last the tab is cut
/// at its end.
#[verifier::rlimit(40)]
pub proof fn the_tab_row_shortens_as_documented(
    bar: TabBar,
    given: nat,
    width: nat,
    options: ChromeOptions,
)
    requires
        0 < given <= bar.tabs@.len(),
        forall|k: nat| k < given ==> (#[trigger] tabs_without(bar, k, width)) is None,
        given < bar.tabs@.len() ==> tabs_without(bar, given, width) is Some,
    ensures
        ({
            let text = text_of(tab_row(bar, width, options));
            let own = tab_says(bar.tabs@[active_of(bar.tabs@) as int], active_of(bar.tabs@) + 1);
            let letter = if badge_says(bar.session).len() > 0 {
                seq![' ', 's', ' ']
            } else {
                seq![]
            };
            let lettered = row_of(letter + own, seq![], width);
            let alone = row_of(own, seq![], width);
            if given < bar.tabs@.len() {
                Some(text) == tabs_without(bar, given, width)
            } else if lettered is Some {
                Some(text) == lettered
            } else if alone is Some {
                Some(text) == alone
            } else {
                text == own.take(width as int)
            }
        }),
{
    let tabs = bar.tabs@;
    active_is_a_tab(tabs, 0);
    let active = active_of(tabs);
    let wide = badge(bar.name());
    assert(text_of(wide) =~= badge_says(bar.session));
    let reference = tab_row_reference(bar, width);
    assert(text_of(tab_row(bar, width, options)) =~= text_of(reference));
    assert(tabs_without(bar, 0, width) is None);
    tab_window_reads(bar, wide, 0, tabs.len(), width);
    assert((wide + chips(tabs, 0, tabs.len())).len() > width);
    tab_windows_narrow(bar, 0, given, width);
    let windows = by_window(wide, tabs, 0, tabs.len(), active, width);
    if given < tabs.len() {
        assert(reference == windows->0);
    } else {
        reveal_strlit("s");
        let small = small_badge(bar.name());
        let letter = if badge_says(bar.session).len() > 0 {
            seq![' ', 's', ' ']
        } else {
            seq![]
        };
        assert(text_of(small) =~= letter);
        let none = Seq::<Cell>::empty();
        assert(text_of(none) =~= seq![]);
        let own = tab_says(tabs[active as int], active + 1);
        reveal_with_fuel(tabs_say, 2);
        assert(tabs_say(tabs, active, active + 1) == own);
        tab_window_reads(bar, small, active, active + 1, width);
        tab_window_reads(bar, none, active, active + 1, width);
        assert(Seq::<char>::empty() + own =~= own);
        let first = tab_candidate(small, tabs, active, active + 1, seq![], width);
        let second = tab_candidate(none, tabs, active, active + 1, seq![], width);
        if first is Some {
            assert(reference == first->0);
        } else if second is Some {
            assert(reference == second->0);
        } else {
            assert(reference == lone_chip(tabs, width));
            assert(own.len() > width);
            assert(text_of(reference) =~= own.take(width as int));
        }
    }
}

} // verus!
