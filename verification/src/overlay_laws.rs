//! What each overlay lists, what its keys do, and how its rows read.

use vstd::prelude::*;
use vstd::utf8::encode_utf8;

use crate::cells::text_of;
use crate::commands::{
    action_rows, found, hits, hits_are_positions, is_white_space, lowercase, palette_of,
    palette_rows, read_terms, searched, terms, CommandOutcome, CommandView, PaletteView,
    PALETTE_ACTIONS, PALETTE_LABELS,
};
use crate::key_laws::{insertions, insertions_from_the_front, typed_text_is_inserted};
use crate::keymap::{first_bound, Binding, Keymap};
use crate::keys::{OverlayAction, PaletteAction, QueueAction};
use crate::launch::{launchable, Profile};
use crate::live::{named_rows, Edges, LiveView};
use crate::live_overlay::{edits_applied, keyed};
use crate::overlay::{
    counted, first_where_found, hint_row, opened, overlay_box, placed, query_row, shown_rows,
    title_row, window_of, KindView, OutcomeView, OverlayView, SessionView, WaitingView,
};
use crate::panes::lookup;
use crate::proto::{command_message, Action, Cell, ClientMessageView, Point, Size};
use crate::routing::{typed, RouteOutcomeView, RoutedView};
use crate::rows::{
    extras_cells, extras_len, fixed_len, kept, kept_of, row_line, row_start, title_budget,
    FieldView, RowView,
};
use crate::settings::config_list;
use crate::text::{decimal, occurs, occurs_at};
use crate::theme::Theme;
use crate::time::Instant;

verus! {

// The cursor of a list.

/// Moving goes one row at a time and stops at either end; it changes nothing but
/// where the cursor is.
pub proof fn moving_moves_the_cursor_alone(overlay: OverlayView)
    requires
        overlay.in_range(),
    ensures
        ({
            let last = if overlay.kind.len() == 0 {
                0int
            } else {
                overlay.kind.len() - 1
            };
            let at = |selected: int, moved: OverlayView|
                moved.selected == selected && moved.kind == overlay.kind;
            let down = if overlay.selected < last {
                overlay.selected as int + 1
            } else {
                last
            };
            let up = if overlay.selected > 0 {
                overlay.selected as int - 1
            } else {
                0
            };
            &&& at(down, overlay.applied(OverlayAction::Next).0)
            &&& at(up, overlay.applied(OverlayAction::Prev).0)
            &&& at(0, overlay.applied(OverlayAction::First).0)
            &&& at(last, overlay.applied(OverlayAction::Last).0)
            &&& at(down, overlay.queue_applied(QueueAction::Next).0)
            &&& at(up, overlay.queue_applied(QueueAction::Prev).0)
            &&& overlay.applied(OverlayAction::Next).1 is Open
            &&& overlay.applied(OverlayAction::Prev).1 is Open
            &&& overlay.applied(OverlayAction::First).1 is Open
            &&& overlay.applied(OverlayAction::Last).1 is Open
            &&& overlay.queue_applied(QueueAction::Next).1 is Open
            &&& overlay.queue_applied(QueueAction::Prev).1 is Open
            &&& overlay.kind is Palette ==> {
                &&& at(down, overlay.palette_applied(PaletteAction::Next).0)
                &&& at(up, overlay.palette_applied(PaletteAction::Prev).0)
                &&& at(0, overlay.palette_applied(PaletteAction::First).0)
                &&& at(last, overlay.palette_applied(PaletteAction::Last).0)
            }
        }),
{
}

/// What is typed at a list, as the client then sends it: confirming a session
/// names that session's own socket to switch to, and sends nothing.
pub proof fn confirming_a_session_switches_to_it(
    state: LiveView,
    keymap: Keymap,
    pending: bool,
    entries: Seq<SessionView>,
    selected: nat,
    edges: Edges,
    now: Instant,
)
    requires
        selected < entries.len(),
        state.overlay == Some(OverlayView { kind: KindView::Sessions(entries), selected }),
    ensures
        typed(state, keymap, pending, seq![0x0du8], edges, now).2 == (RoutedView {
            send: seq![],
            outcome: RouteOutcomeView::Switch(entries[selected as int].socket),
            chrome: None,
        }),
        !typed(state, keymap, pending, seq![0x0du8], edges, now).1,
{
    crate::key_laws::a_list_has_its_own_keys(seq![0x0du8]);
}

/// Confirming a waiting pane focuses that pane and closes the list; acknowledging
/// it acknowledges that pane and leaves the list open.
pub proof fn a_waiting_pane_is_focused_or_acknowledged(
    state: LiveView,
    keymap: Keymap,
    pending: bool,
    entries: Seq<WaitingView>,
    selected: nat,
    edges: Edges,
    now: Instant,
)
    requires
        selected < entries.len(),
        state.overlay == Some(OverlayView { kind: KindView::Attention(entries), selected }),
    ensures
        ({
            let pane = entries[selected as int].pane;
            let sending = |action: Action|
                RoutedView {
                    send: seq![command_message(action)],
                    outcome: RouteOutcomeView::Continue,
                    chrome: None,
                };
            let focused = typed(state, keymap, pending, seq![0x0du8], edges, now);
            let acked = typed(state, keymap, pending, seq![0x61u8], edges, now);
            &&& focused.2 == sending(Action::FocusPane(pane))
            &&& focused.0.overlay is None
            &&& acked.2 == sending(Action::AcknowledgeAttention(pane))
            &&& acked.0.overlay == state.overlay
        }),
{
    crate::key_laws::a_list_has_its_own_keys(seq![0x0du8]);
    crate::key_laws::a_list_has_its_own_keys(seq![0x61u8]);
}

/// Confirming a profile asks for that profile, closes the launcher and remembers
/// what was asked for, which panes there were, and when.
pub proof fn confirming_a_profile_launches_it(
    state: LiveView,
    keymap: Keymap,
    pending: bool,
    profiles: Seq<Profile>,
    selected: nat,
    edges: Edges,
    now: Instant,
)
    requires
        selected < launchable(profiles).len(),
        state.overlay == Some(
            OverlayView { kind: KindView::Launcher(launchable(profiles)), selected },
        ),
        now.nanos + 2_000_000_000 <= u64::MAX,
    ensures
        ({
            let profile = launchable(profiles)[selected as int].profile;
            let (after, held, routed) = typed(state, keymap, pending, seq![0x0du8], edges, now);
            &&& routed == (RoutedView {
                send: seq![ClientMessageView::Launch(profile)],
                outcome: RouteOutcomeView::Continue,
                chrome: None,
            })
            &&& after.overlay is None
            &&& after.launch matches Some(notice) && notice.profile == profile && !notice.refused
                && notice.until.nanos == now.nanos + 2_000_000_000 && forall|i: int|
                0 <= i < state.panes.len() ==> notice.before.contains((#[trigger] state.panes[i]).0)
        }),
{
    crate::key_laws::a_list_has_its_own_keys(seq![0x0du8]);
}

/// Leaving closes any list and sends nothing.
pub proof fn leaving_closes_a_list(
    state: LiveView,
    keymap: Keymap,
    pending: bool,
    overlay: OverlayView,
    edges: Edges,
    now: Instant,
)
    requires
        state.overlay == Some(overlay),
    ensures
        ({
            let (after, held, routed) = typed(state, keymap, pending, seq![0x1bu8], edges, now);
            &&& after == (LiveView { overlay: None, resize: None, ..state })
            &&& !held
            &&& routed == (RoutedView {
                send: seq![],
                outcome: RouteOutcomeView::Continue,
                chrome: None,
            })
        }),
{
    crate::key_laws::a_list_has_its_own_keys(seq![0x1bu8]);
    crate::key_laws::the_palette_has_its_own_keys();
    let edits = seq![PaletteAction::Dismiss];
    assert(edits_applied(overlay, edits) == (
        if overlay.kind is Palette {
            (overlay, OutcomeView::Dismissed)
        } else {
            edits_applied(overlay, edits)
        }
    ));
}

// The palette.

/// A query finds exactly the commands it matches, in their own order.
pub proof fn every_match_is_listed(commands: Seq<CommandView>, query: Seq<char>, count: nat, at: nat)
    requires
        count <= commands.len(),
    ensures
        hits(commands, query, count).contains(at) <==> at < count && found(
            commands[at as int].haystack,
            query,
        ),
    decreases count,
{
    hits_are_positions(commands, query, count);
    if count > 0 {
        every_match_is_listed(commands, query, (count - 1) as nat, at);
        let rest = hits(commands, query, (count - 1) as nat);
        let all = hits(commands, query, count);
        if rest.contains(at) {
            let k = choose|k: int| 0 <= k < rest.len() && rest[k] == at;
            assert(all[k] == at);
        }
        if all.contains(at) {
            let k = choose|k: int| 0 <= k < all.len() && all[k] == at;
            if k < rest.len() {
                assert(rest[k] == at);
            }
        }
        if at == count - 1 && found(commands[at as int].haystack, query) {
            assert(all[rest.len() as int] == at);
        }
    }
}

/// A command matches where each word of the query stands somewhere in what it
/// says, both in lower case.
pub proof fn every_word_has_to_stand_in_it(haystack: Seq<char>, query: Seq<char>)
    ensures
        found(haystack, query) <==> forall|i: int|
            0 <= i < terms(query).len() ==> stands_somewhere(
                haystack,
                lowercase(#[trigger] terms(query)[i]),
            ),
{
    let words = terms(query);
    let parts = crate::commands::lowered(words);
    if found(haystack, query) {
        assert forall|i: int| 0 <= i < words.len() implies stands_somewhere(
            haystack,
            lowercase(#[trigger] words[i]),
        ) by {
            assert(parts[i] == lowercase(words[i]));
            assert(occurs(haystack, parts[i]));
            let at = choose|at: int| occurs_at(haystack, parts[i], at);
            assert(haystack.subrange(at, at + parts[i].len()) == parts[i]);
        }
    }
    if forall|i: int|
        0 <= i < words.len() ==> stands_somewhere(haystack, lowercase(#[trigger] words[i])) {
        assert forall|i: int| 0 <= i < parts.len() implies occurs(haystack, #[trigger] parts[i]) by {
            assert(parts[i] == lowercase(words[i]));
            assert(stands_somewhere(haystack, lowercase(words[i])));
            let at = choose|at: int|
                0 <= at <= haystack.len() - parts[i].len() && #[trigger] haystack.subrange(
                    at,
                    at + parts[i].len(),
                ) == parts[i];
            assert(occurs_at(haystack, parts[i], at));
        }
    }
}

/// Whether a text stands somewhere in another.
pub open spec fn stands_somewhere(haystack: Seq<char>, needle: Seq<char>) -> bool {
    exists|at: int|
        0 <= at <= haystack.len() - needle.len() && #[trigger] haystack.subrange(
            at,
            at + needle.len(),
        ) == needle
}

/// The words of a query are its runs of anything but white space: a run is a word,
/// and white space parts the words before it from those behind it.
pub proof fn white_space_parts_words(before: Seq<char>, space: char, word: Seq<char>)
    requires
        is_white_space(space),
        word.len() > 0,
        forall|i: int| 0 <= i < word.len() ==> !is_white_space(#[trigger] word[i]),
    ensures
        terms(word) == seq![word],
        terms(before.push(space)) == terms(before),
        terms(before.push(space) + word) == terms(before).push(word),
        terms(Seq::<char>::empty()).len() == 0,
{
    assert(before.push(space).drop_last() =~= before);
    assert(read_terms(before.push(space)).0 =~= terms(before));
    assert(read_terms(before.push(space)).1 =~= seq![]);
    assert(terms(before.push(space)) =~= terms(before));
    words_are_read(before.push(space), word);
    let none = Seq::<char>::empty();
    words_are_read(none, word);
    assert(none + word =~= word);
    assert(read_terms(none).0 =~= seq![]);
    assert(terms(word) =~= seq![word]);
    assert(terms(before.push(space) + word) =~= terms(before).push(word));
}

proof fn words_are_read(start: Seq<char>, word: Seq<char>)
    requires
        read_terms(start).1.len() == 0,
        forall|i: int| 0 <= i < word.len() ==> !is_white_space(#[trigger] word[i]),
    ensures
        read_terms(start + word) == (read_terms(start).0, word),
    decreases word.len(),
{
    if word.len() == 0 {
        assert(start + word =~= start);
        assert(read_terms(start).1 =~= word);
    } else {
        let front = word.drop_last();
        assert forall|i: int| 0 <= i < front.len() implies !is_white_space(#[trigger] front[i]) by {
            assert(front[i] == word[i]);
        }
        words_are_read(start, front);
        assert((start + word).drop_last() =~= start + front);
        assert((start + word).last() == word[word.len() - 1]);
        assert(!is_white_space(word[word.len() - 1]));
        assert(front.push(word.last()) =~= word);
    }
}

/// White space is what separates words anywhere: the blanks, tabs and line ends of
/// ASCII, and nothing printable of it.
pub proof fn white_space_is_no_letter(ch: char)
    requires
        (ch as u32) < 0x80,
    ensures
        is_white_space(ch) <==> (ch == ' ' || ch == '\t' || ch == '\n' || ch == '\r' || ch as u32
            == 0x0b || ch as u32 == 0x0c),
{
}

/// Typing into the palette appends to its query, backspace takes the last
/// character of it away, and clearing leaves none. No key of these leaves the
/// palette or changes what it searches.
#[verifier::rlimit(40)]
pub proof fn typing_edits_the_query(
    palette: PaletteView,
    selected: nat,
    text: Seq<char>,
)
    requires
        forall|i: int|
            0 <= i < text.len() ==> 0x20 <= (#[trigger] text[i]) as u32 && text[i] as u32 != 0x7f,
    ensures
        ({
            let overlay = OverlayView { kind: KindView::Palette(palette), selected };
            let asked = |query: Seq<char>| PaletteView { query, ..palette };
            let after = |keys: Seq<u8>| keyed(overlay, keys)->0;
            &&& after(encode_utf8(text)).1 is Open
            &&& after(encode_utf8(text)).0.kind == KindView::Palette(asked(palette.query + text))
            &&& after(seq![0x7fu8]).1 is Open
            &&& after(seq![0x7fu8]).0.kind == KindView::Palette(
                asked(
                    if palette.query.len() == 0 {
                        palette.query
                    } else {
                        palette.query.take(palette.query.len() - 1)
                    },
                ),
            )
            &&& after(seq![0x15u8]).1 is Open
            &&& after(seq![0x15u8]).0.kind == KindView::Palette(asked(Seq::<char>::empty()))
        }),
{
    let overlay = OverlayView { kind: KindView::Palette(palette), selected };
    typed_text_is_inserted(text);
    inserting_appends(palette, selected, text);
    crate::key_laws::the_palette_has_its_own_keys();
    reveal_strlit("");
    assert(""@ =~= Seq::<char>::empty());
    one_edit(overlay, PaletteAction::Backspace);
    one_edit(overlay, PaletteAction::Clear);
    if palette.query.len() > 0 {
        assert(palette.query.drop_last() =~= palette.query.take(palette.query.len() - 1));
    }
}

proof fn one_edit(overlay: OverlayView, edit: PaletteAction)
    requires
        overlay.palette_applied(edit).1 is Open,
    ensures
        edits_applied(overlay, seq![edit]) == (
            overlay.palette_applied(edit).0,
            OutcomeView::Open,
        ),
{
    reveal_with_fuel(edits_applied, 2);
    assert(seq![edit].drop_first() =~= Seq::<PaletteAction>::empty());
}

proof fn inserting_appends(palette: PaletteView, selected: nat, text: Seq<char>)
    ensures
        ({
            let overlay = OverlayView { kind: KindView::Palette(palette), selected };
            let (after, outcome) = edits_applied(overlay, insertions(text));
            &&& outcome is Open
            &&& after.kind == KindView::Palette(
                PaletteView { query: palette.query + text, ..palette },
            )
        }),
    decreases text.len(),
{
    let overlay = OverlayView { kind: KindView::Palette(palette), selected };
    if text.len() == 0 {
        assert(insertions(text) =~= Seq::<PaletteAction>::empty());
        assert(palette.query + text =~= palette.query);
    } else {
        let rest = text.drop_first();
        insertions_from_the_front(text);
        let edits = insertions(text);
        assert(edits[0] == PaletteAction::Insert(text[0]));
        assert(edits.drop_first() =~= insertions(rest));
        let next = overlay.palette_applied(PaletteAction::Insert(text[0])).0;
        let asked = PaletteView { query: palette.query.push(text[0]), ..palette };
        assert(next.kind == KindView::Palette(asked));
        inserting_appends(asked, next.selected, rest);
        assert(palette.query.push(text[0]) + rest =~= palette.query + text);
    }
}

/// Confirming runs what the row under the cursor says: its action, sent as the
/// bound chord would send it, or its surface, opened in place of the palette.
#[verifier::rlimit(40)]
pub proof fn confirming_runs_the_row(
    state: LiveView,
    keymap: Keymap,
    pending: bool,
    palette: PaletteView,
    selected: nat,
    edges: Edges,
    now: Instant,
)
    requires
        selected < palette.matches().len(),
        state.overlay == Some(OverlayView { kind: KindView::Palette(palette), selected }),
    ensures
        ({
            let row = palette.commands[palette.matches()[selected as int] as int];
            let (after, held, routed) = typed(state, keymap, pending, seq![0x0du8], edges, now);
            match row.outcome {
                CommandOutcome::Run(action) => {
                    &&& after.overlay is None
                    &&& routed == (RoutedView {
                        send: seq![command_message(action)],
                        outcome: if action == Action::DetachClient {
                            RouteOutcomeView::Detach
                        } else {
                            RouteOutcomeView::Continue
                        },
                        chrome: None,
                    })
                },
                CommandOutcome::Open(surface) => {
                    &&& routed == (RoutedView {
                        send: seq![],
                        outcome: RouteOutcomeView::Continue,
                        chrome: None,
                    })
                    &&& match state.surface(surface) {
                        Some(kind) => after.overlay == Some(OverlayView { kind, selected: 0 }),
                        None => after.overlay == state.overlay,
                    }
                },
            }
        }),
{
    crate::key_laws::the_palette_has_its_own_keys();
    let overlay = OverlayView { kind: KindView::Palette(palette), selected };
    let edits = seq![PaletteAction::Confirm];
    assert(edits_applied(overlay, edits) == overlay.palette_applied(PaletteAction::Confirm)) by {
        assert(!(overlay.palette_applied(PaletteAction::Confirm).1 is Open));
    }
    let still = LiveView { resize: None, ..state };
    assert(still.overlay == state.overlay);
}

/// Whether a row is the one of an action: its name, the first chord bound to it,
/// and that it runs that action.
pub open spec fn is_action_row(row: CommandView, action: Action, binding: Binding) -> bool {
    &&& row.key == binding.spelling@
    &&& row.note == binding.name@
    &&& row.outcome == CommandOutcome::Run(action)
    &&& row.haystack == lowercase(row.key + seq![' '] + row.label + seq![' '] + row.note)
}

proof fn listed_actions_have_rows(bindings: Seq<Binding>, count: nat, i: int, binding: Binding)
    requires
        0 <= i < count <= 14,
        first_bound(bindings, PALETTE_ACTIONS[i]) == Some(binding),
    ensures
        exists|k: int|
            0 <= k < action_rows(bindings, count).len() && is_action_row(
                #[trigger] action_rows(bindings, count)[k],
                PALETTE_ACTIONS[i],
                binding,
            ) && action_rows(bindings, count)[k].label == PALETTE_LABELS[i]@,
    decreases count,
{
    let all = action_rows(bindings, count);
    let rest = action_rows(bindings, (count - 1) as nat);
    if i < count - 1 {
        listed_actions_have_rows(bindings, (count - 1) as nat, i, binding);
        let k = choose|k: int|
            0 <= k < rest.len() && is_action_row(
                #[trigger] rest[k],
                PALETTE_ACTIONS[i],
                binding,
            ) && rest[k].label == PALETTE_LABELS[i]@;
        assert(all[k] == rest[k]);
    } else {
        let row = all[rest.len() as int];
        assert(searched(row.key, row.label, row.note) =~= row.key + seq![' '] + row.label + seq![
            ' ',
        ] + row.note);
        assert(is_action_row(row, PALETTE_ACTIONS[i], binding));
    }
}

/// The palette lists every action of a workspace that a chord is bound to, under
/// the chord that does it.
pub proof fn every_bound_action_is_listed(bindings: Seq<Binding>, action: Action, binding: Binding)
    requires
        first_bound(bindings, action) == Some(binding),
        action == Action::SplitVertical || action == Action::SplitHorizontal || action
            == Action::ClosePane || action == Action::FocusLeft || action == Action::FocusDown
            || action == Action::FocusUp || action == Action::FocusRight || action
            == Action::ToggleZoom || action == Action::NewTab || action == Action::NextTab
            || action == Action::PrevTab || action == Action::CloseTab || action
            == Action::EnterCopyMode || action == Action::DetachClient,
    ensures
        exists|k: int|
            0 <= k < palette_rows(bindings).len() && is_action_row(
                #[trigger] palette_rows(bindings)[k],
                action,
                binding,
            ),
{
    let i = if action == Action::SplitVertical {
        0int
    } else if action == Action::SplitHorizontal {
        1
    } else if action == Action::ClosePane {
        2
    } else if action == Action::FocusLeft {
        3
    } else if action == Action::FocusDown {
        4
    } else if action == Action::FocusUp {
        5
    } else if action == Action::FocusRight {
        6
    } else if action == Action::ToggleZoom {
        7
    } else if action == Action::NewTab {
        8
    } else if action == Action::NextTab {
        9
    } else if action == Action::PrevTab {
        10
    } else if action == Action::CloseTab {
        11
    } else if action == Action::EnterCopyMode {
        12
    } else {
        13
    };
    assert(PALETTE_ACTIONS[i] == action);
    listed_actions_have_rows(bindings, 14, i, binding);
    let rows = action_rows(bindings, 14);
    let k = choose|k: int|
        0 <= k < rows.len() && is_action_row(#[trigger] rows[k], action, binding) && rows[k].label
            == PALETTE_LABELS[i]@;
    assert(palette_rows(bindings)[k] == rows[k]);
}

/// The palette calls each action what it does.
pub proof fn each_action_is_called_what_it_does()
    ensures
        PALETTE_ACTIONS[0] == Action::SplitVertical && PALETTE_LABELS[0]@ == "split right"@,
        PALETTE_ACTIONS[1] == Action::SplitHorizontal && PALETTE_LABELS[1]@ == "split down"@,
        PALETTE_ACTIONS[2] == Action::ClosePane && PALETTE_LABELS[2]@ == "close pane"@,
        PALETTE_ACTIONS[3] == Action::FocusLeft && PALETTE_LABELS[3]@ == "focus left"@,
        PALETTE_ACTIONS[4] == Action::FocusDown && PALETTE_LABELS[4]@ == "focus down"@,
        PALETTE_ACTIONS[5] == Action::FocusUp && PALETTE_LABELS[5]@ == "focus up"@,
        PALETTE_ACTIONS[6] == Action::FocusRight && PALETTE_LABELS[6]@ == "focus right"@,
        PALETTE_ACTIONS[7] == Action::ToggleZoom && PALETTE_LABELS[7]@ == "zoom pane"@,
        PALETTE_ACTIONS[8] == Action::NewTab && PALETTE_LABELS[8]@ == "new tab"@,
        PALETTE_ACTIONS[9] == Action::NextTab && PALETTE_LABELS[9]@ == "next tab"@,
        PALETTE_ACTIONS[10] == Action::PrevTab && PALETTE_LABELS[10]@ == "previous tab"@,
        PALETTE_ACTIONS[11] == Action::CloseTab && PALETTE_LABELS[11]@ == "close tab"@,
        PALETTE_ACTIONS[12] == Action::EnterCopyMode && PALETTE_LABELS[12]@ == "copy mode"@,
        PALETTE_ACTIONS[13] == Action::DetachClient && PALETTE_LABELS[13]@ == "detach"@,
{
}

// What opens.

/// The chord of each surface opens that surface over what the client holds, with
/// the cursor on its first row; any other single key opens nothing.
pub proof fn each_chord_opens_its_surface(state: LiveView, keymap: Keymap, byte: u8)
    ensures
        ({
            let opens = state.opening(seq![byte], keymap);
            &&& byte == 0x3f ==> opens == Some(KindView::Palette(palette_of(keymap)))
            &&& byte == 0x61 ==> opens == Some(KindView::Launcher(launchable(state.profiles)))
            &&& byte == 0x73 ==> opens == Some(KindView::Sessions(state.sessions))
            &&& byte == 0x21 ==> opens == Some(
                KindView::Attention(named_rows(state.panes, state.queue.entries)),
            )
            &&& byte == 0x2c ==> opens is Some && match opens->0 {
                KindView::Config(config) => config.visual == state.visual && config.swatches
                    == state.swatches && config.rows == config_list(state.visual, state.prefix),
                _ => false,
            }
            &&& byte == 0x69 ==> match state.focused() {
                Some(pane) => match lookup(state.panes, pane) {
                    Some(info) => match opens {
                        Some(KindView::Details(details)) => details.pane == info.pane
                            && details.attention == state.state_of(pane) && details.profile == info.profile && details.name == info.name
                            && details.task == info.task && details.cwd == info.cwd,
                        _ => false,
                    },
                    None => opens is None,
                },
                None => opens is None,
            }
            &&& byte != 0x3f && byte != 0x61 && byte != 0x73 && byte != 0x21 && byte != 0x2c && byte
                != 0x69 ==> opens is None
        }),
        ({
            let palette = palette_of(keymap);
            &&& palette.prefix == keymap.prefix_spelling@
            &&& palette.commands == palette_rows(keymap.bindings@)
            &&& palette.query.len() == 0
            &&& palette.title() == "commands - prefix "@ + keymap.prefix_spelling@
        }),
        forall|kind: KindView| (#[trigger] opened(kind)).selected == 0 && opened(kind).kind == kind,
{
    assert(seq![byte][0] == byte);
    reveal_strlit("");
}

/// The launcher lists the profiles that validate, and no others, in their order,
/// each under its own identifier and name.
pub proof fn the_launcher_lists_what_validates(profiles: Seq<Profile>, i: int)
    requires
        0 <= i < profiles.len(),
    ensures
        profiles[i].valid <==> exists|k: int|
            0 <= k < launchable(profiles).len() && k == valid_before(profiles, i)
                && profiles[i].valid && (#[trigger] launchable(profiles)[k]).profile
                == profiles[i].id@ && launchable(profiles)[k].default_name
                == profiles[i].default_name@,
        launchable(profiles).len() == valid_before(profiles, profiles.len() as int),
{
    launchable_at(profiles, i);
}

/// How many of the first profiles validate.
pub open spec fn valid_before(profiles: Seq<Profile>, count: int) -> nat
    decreases count,
{
    if count <= 0 {
        0
    } else {
        valid_before(profiles, count - 1) + (if profiles[count - 1].valid {
            1nat
        } else {
            0nat
        })
    }
}

proof fn valid_before_front(profiles: Seq<Profile>, count: int)
    requires
        0 <= count < profiles.len(),
    ensures
        valid_before(profiles.drop_last(), count) == valid_before(profiles, count),
    decreases count,
{
    if count > 0 {
        valid_before_front(profiles, count - 1);
    }
}

proof fn launchable_at(profiles: Seq<Profile>, i: int)
    requires
        0 <= i < profiles.len(),
    ensures
        launchable(profiles).len() == valid_before(profiles, profiles.len() as int),
        profiles[i].valid ==> valid_before(profiles, i) < launchable(profiles).len() && launchable(
            profiles,
        )[valid_before(profiles, i) as int].profile == profiles[i].id@ && launchable(
            profiles,
        )[valid_before(profiles, i) as int].default_name == profiles[i].default_name@,
    decreases profiles.len(),
{
    let front = profiles.drop_last();
    let rest = launchable(front);
    if front.len() > 0 {
        launchable_at(front, if i < front.len() {
            i
        } else {
            0
        });
    }
    valid_before_front(profiles, front.len() as int);
    if i < front.len() {
        valid_before_front(profiles, i);
        assert(front[i] == profiles[i]);
    } else {
        assert(profiles.last() == profiles[i]);
    }
}

// Rows.

/// How a row reads: its marker, its lead and its title, and each extra behind a
/// space.
pub open spec fn extras_say(extras: Seq<FieldView>) -> Seq<char>
    decreases extras.len(),
{
    if extras.len() == 0 {
        seq![]
    } else {
        seq![' '] + extras[0].text + extras_say(extras.drop_first())
    }
}

proof fn extras_read(extras: Seq<FieldView>, theme: Theme)
    ensures
        text_of(extras_cells(extras, theme)) == extras_say(extras),
        extras_len(extras) == extras_say(extras).len(),
    decreases extras.len(),
{
    if extras.len() > 0 {
        let front = extras.drop_last();
        extras_read(front, theme);
        extras_say_from_the_back(extras);
        assert(text_of(extras_cells(extras, theme)) =~= extras_say(extras));
    } else {
        assert(text_of(extras_cells(extras, theme)) =~= extras_say(extras));
    }
}

proof fn extras_say_from_the_back(extras: Seq<FieldView>)
    requires
        extras.len() > 0,
    ensures
        extras_say(extras) == extras_say(extras.drop_last()) + seq![' '] + extras.last().text,
    decreases extras.len(),
{
    reveal_with_fuel(extras_say, 2);
    if extras.len() > 1 {
        let rest = extras.drop_first();
        extras_say_from_the_back(rest);
        assert(rest.drop_last() =~= extras.drop_last().drop_first());
        assert(extras_say(extras) =~= extras_say(extras.drop_last()) + seq![' ']
            + extras.last().text);
    } else {
        assert(extras.drop_first() =~= seq![]);
        assert(extras.drop_last() =~= seq![]);
        assert(extras_say(extras) =~= extras_say(extras.drop_last()) + seq![' ']
            + extras.last().text);
    }
}

/// What stands at the left of a row: the cursor's marker and the lead.
pub open spec fn start_says(row: RowView) -> Seq<char> {
    (if row.selected {
        seq!['>', ' ']
    } else {
        seq![' ', ' ']
    }) + (if row.lead.text.len() > 0 {
        row.lead.text + seq![' ']
    } else {
        seq![]
    })
}

proof fn starts_read(row: RowView, theme: Theme)
    ensures
        text_of(row_start(row, theme)) == start_says(row),
        fixed_len(row) == start_says(row).len(),
{
    reveal_strlit("> ");
    reveal_strlit("  ");
    assert("> "@ =~= seq!['>', ' ']);
    assert("  "@ =~= seq![' ', ' ']);
    assert(text_of(row_start(row, theme)) =~= start_says(row));
}

/// A row with room reads whole: marker, lead, title and every extra, then blanks.
/// The row is exactly as wide as it was asked to be at every width.
pub proof fn a_row_with_room_reads_whole(row: RowView, width: nat, theme: Theme)
    ensures
        row_line(row, width, theme).len() == width,
        ({
            let says = start_says(row) + row.title.text + extras_say(row.extras);
            says.len() <= width ==> forall|i: int|
                0 <= i < width ==> (#[trigger] row_line(row, width, theme)[i]).ch == if i
                    < says.len() {
                    says[i]
                } else {
                    ' '
                }
        }),
{
    let says = start_says(row) + row.title.text + extras_say(row.extras);
    starts_read(row, theme);
    extras_read(row.extras, theme);
    let all = row.extras.take(row.extras.len() as int);
    assert(all =~= row.extras);
    if says.len() <= width {
        assert(kept(row, width) == row.extras.len());
        assert(title_budget(row, width) >= row.title.text.len());
        let title = crate::cells::painted(
            crate::cells::cut(row.title.text, title_budget(row, width)),
            row.title.fg,
            theme.raised_surface,
            row.title.attrs,
        );
        let cells = row_start(row, theme) + title + extras_cells(all, theme);
        assert(text_of(cells) =~= says);
        assert forall|i: int| 0 <= i < width implies (#[trigger] row_line(row, width, theme)[i]).ch
            == if i < says.len() {
            says[i]
        } else {
            ' '
        } by {
            if i < says.len() {
                assert(text_of(cells)[i] == cells[i].ch);
            }
        }
    }
}

/// A row too narrow for all of it gives up its extras from the end before it cuts
/// its title, and shows as much of both as fits.
pub proof fn a_narrow_row_gives_up_extras_first(row: RowView, width: nat, theme: Theme)
    requires
        start_says(row).len() <= width,
    ensures
        ({
            let n = kept(row, width);
            let shown = row.extras.take(n as int);
            let room = start_says(row).len() + row.title.text.len();
            &&& n <= row.extras.len()
            &&& n > 0 ==> room + extras_say(shown).len() <= width
            &&& n < row.extras.len() ==> room + extras_say(row.extras.take(n as int + 1)).len() > width
            &&& forall|i: int|
                0 <= i < row.title.text.len() && start_says(row).len() + i < width ==> (
                #[trigger] row_line(row, width, theme)[start_says(row).len() + i]).ch
                    == row.title.text[i]
        }),
{
    starts_read(row, theme);
    kept_is_greatest(row, width, row.extras.len(), theme);
    let n = kept(row, width);
    let shown = row.extras.take(n as int);
    extras_read(shown, theme);
    let start = row_start(row, theme);
    let title = crate::cells::painted(
        crate::cells::cut(row.title.text, title_budget(row, width)),
        row.title.fg,
        theme.raised_surface,
        row.title.attrs,
    );
    assert(text_of(start).len() == start.len());
    let none = row.extras.take(0);
    assert(none =~= seq![]);
    assert(extras_len(none) == 0);
    let cells = start + title + extras_cells(shown, theme);
    assert forall|i: int|
        0 <= i < row.title.text.len() && start_says(row).len() + i < width implies (
    #[trigger] row_line(row, width, theme)[start_says(row).len() + i]).ch == row.title.text[i] by {
        assert(title_budget(row, width) > i);
        assert(cells[start.len() + i] == title[i]);
    }
}

proof fn kept_is_greatest(row: RowView, width: nat, count: nat, theme: Theme)
    requires
        count <= row.extras.len(),
    ensures
        ({
            let n = kept_of(row, width, count);
            let room = start_says(row).len() + row.title.text.len();
            &&& n <= count
            &&& n > 0 ==> room + extras_say(row.extras.take(n as int)).len() <= width
            &&& n < count ==> room + extras_say(row.extras.take(n as int + 1)).len() > width
        }),
    decreases count,
{
    starts_read(row, theme);
    extras_read(row.extras.take(count as int), theme);
    if count > 0 {
        kept_is_greatest(row, width, (count - 1) as nat, theme);
    }
}

/// The rows a box shows are the listed ones from the top of its window on, in
/// order, with the cursor's marked and no other.
pub proof fn shown_rows_are_the_listed_ones(overlay: OverlayView, visible: nat, theme: Theme, i: int)
    requires
        overlay.in_range(),
        0 <= i < shown_rows(overlay, visible, theme).len(),
    ensures
        ({
            let first = window_of(overlay.kind.len(), overlay.selected, visible).0;
            let row = shown_rows(overlay, visible, theme)[i];
            &&& row == overlay.kind.row(first + i, first + i == overlay.selected, theme)
            &&& 0 <= first + i < overlay.kind.len()
            &&& overlay.kind.len() <= visible ==> first == 0
                && shown_rows(overlay, visible, theme).len() == overlay.kind.len()
        }),
{
}

/// A session's row names the session and counts what it holds, and says where the
/// client is attached.
pub proof fn a_session_row_says_what_it_is(
    entries: Seq<SessionView>,
    index: int,
    selected: bool,
    theme: Theme,
)
    requires
        0 <= index < entries.len(),
    ensures
        ({
            let row = KindView::Sessions(entries).row(index, selected, theme);
            let entry = entries[index];
            let tail = if entry.attached {
                1int
            } else {
                0
            };
            &&& row.selected == selected
            &&& row.title.text == entry.title
            &&& row.extras.len() == 3 + tail
            &&& entry.attached ==> row.extras[0].text == "attached"@
            &&& row.extras[tail].text == counted(entry.tabs, "tab"@)
            &&& row.extras[tail + 1].text == counted(entry.panes, "pane"@)
            &&& row.extras[tail + 2].text == counted(entry.clients, "client"@)
        }),
        ({
            let entry = entries[index];
            let said = |value: u16, noun: Seq<char>|
                decimal(value as nat) + seq![' '] + noun + (if value == 1 {
                    seq![]
                } else {
                    seq!['s']
                });
            counted(entry.tabs, "tab"@) == said(entry.tabs, "tab"@)
        }),
{
    let entry = entries[index];
    assert(counted(entry.tabs, "tab"@) =~= decimal(entry.tabs as nat) + seq![' '] + "tab"@ + (
    if entry.tabs == 1 {
        seq![]
    } else {
        seq!['s']
    }));
}

/// A waiting pane's row says which it is, its name, and its state by mark and
/// word.
pub proof fn a_waiting_row_says_what_it_is(
    entries: Seq<WaitingView>,
    index: int,
    selected: bool,
    theme: Theme,
)
    requires
        0 <= index < entries.len(),
    ensures
        ({
            let row = KindView::Attention(entries).row(index, selected, theme);
            let entry = entries[index];
            &&& row.selected == selected
            &&& row.lead.text == decimal(entry.index as nat)
            &&& row.title.text == entry.title
            &&& row.extras.len() == 1
            &&& row.extras[0].text == seq![entry.attention.glyph(), ' '] + entry.attention.words()
            &&& row.extras[0].fg == entry.attention.color_in(theme)
        }),
{
}

/// The title says where the cursor is in how many rows.
pub proof fn a_title_counts_from_one(overlay: OverlayView, theme: Theme)
    requires
        overlay.kind.len() > 0,
    ensures
        title_row(overlay, theme).extras.len() == 1,
        title_row(overlay, theme).extras[0].text == decimal(overlay.selected + 1) + seq!['/']
            + decimal(overlay.kind.len()),
{
    assert(title_row(overlay, theme).extras[0].text =~= decimal(overlay.selected + 1) + seq!['/']
        + decimal(overlay.kind.len()));
}

/// A box has its title at the top, the palette's query below it where there is
/// room, and its list below that.
pub proof fn a_box_lists_below_its_title(overlay: OverlayView, size: Size, theme: Theme, i: int)
    requires
        overlay.in_range(),
        size.rows >= 3,
        overlay.kind !is Config,
        0 <= i < overlay.kind.len(),
        overlay.kind.len() + 3 <= size.rows,
    ensures
        ({
            let rows = overlay_box(overlay, size, theme);
            let at = if overlay.kind is Palette {
                2int
            } else {
                1
            };
            &&& rows[0] == row_line(title_row(overlay, theme), size.cols as nat, theme)
            &&& rows[at + i] == row_line(
                overlay.kind.row(i, i == overlay.selected, theme),
                size.cols as nat,
                theme,
            )
            &&& overlay.kind matches KindView::Palette(palette) ==> rows[1] == row_line(
                query_row(palette.query, theme),
                size.cols as nat,
                theme,
            )
        }),
{
    let query = crate::overlay::query_lines(overlay, size, theme);
    let preview = crate::overlay::preview_lines(overlay, size, theme);
    let room = crate::overlay::list_room(overlay, size, theme);
    let list = crate::overlay::list_lines(overlay, room as nat, size.cols as nat, theme);
    let shown = shown_rows(overlay, room as nat, theme);
    assert(preview.len() == 0);
    assert(room >= overlay.kind.len());
    assert(shown.len() == overlay.kind.len());
    assert(shown[i] == overlay.kind.row(i, i == overlay.selected, theme));
    assert(list[i] == row_line(shown[i], size.cols as nat, theme));
    assert(overlay_box(overlay, size, theme)[1 + query.len() + i] == list[i]);
}

/// The box's rows stand one below the other from its corner down.
pub proof fn box_rows_stand_below_each_other(at: Point, rows: Seq<Seq<Cell>>, i: int)
    requires
        0 <= i < rows.len(),
        at.row + rows.len() <= u16::MAX,
    ensures
        placed(at, rows).len() == rows.len(),
        placed(at, rows)[i].at.col == at.col,
        placed(at, rows)[i].at.row == at.row + i,
        placed(at, rows)[i].cells == rows[i],
{
}

/// Each surface has its own title and says how it is left and what its keys do.
pub proof fn each_surface_says_its_keys(overlay: OverlayView, theme: Theme)
    ensures
        ({
            let title = title_row(overlay, theme).title.text;
            let hints = hint_row(overlay.kind, theme);
            let says = |second: Seq<char>, third: Seq<char>|
                hints.title.text == "esc close"@ && hints.extras.len() == 2
                    && hints.extras[0].text == second && hints.extras[1].text == third;
            match overlay.kind {
                KindView::Palette(palette) => title == palette.title() && says(
                    "enter run"@,
                    "up/down move"@,
                ),
                KindView::Sessions(_) => title == "sessions"@ && says("enter switch"@, "j/k move"@),
                KindView::Launcher(_) => title == "launch profile"@ && says(
                    "enter launch"@,
                    "j/k move"@,
                ),
                KindView::Attention(_) => title == "attention"@ && says("enter focus"@, "a ack"@),
                KindView::Details(_) => title == "pane details"@ && says(
                    "enter close"@,
                    "j/k move"@,
                ),
                KindView::Config(_) => title == "configuration"@ && says("read only"@, "j/k move"@),
            }
        }),
{
}

/// A palette's row says the chord, what it does and what it is called; a
/// launcher's the profile, its name and its command. The row under the cursor
/// stands out.
pub proof fn a_command_row_says_what_it_runs(
    palette: PaletteView,
    profiles: Seq<crate::launch::ProfileEntryView>,
    index: int,
    selected: bool,
    theme: Theme,
)
    ensures
        0 <= index < palette.matches().len() ==> {
            let row = KindView::Palette(palette).row(index, selected, theme);
            let command = palette.commands[palette.matches()[index] as int];
            &&& row.selected == selected
            &&& row.lead.text == command.key
            &&& row.title.text == command.label
            &&& row.title.fg == (if selected {
                theme.accent
            } else {
                theme.primary
            })
            &&& row.extras.len() == 1 && row.extras[0].text == command.note
        },
        0 <= index < profiles.len() ==> {
            let row = KindView::Launcher(profiles).row(index, selected, theme);
            &&& row.selected == selected
            &&& row.lead.text == profiles[index].profile
            &&& row.title.text == profiles[index].default_name
            &&& row.title.fg == (if selected {
                theme.accent
            } else {
                theme.primary
            })
            &&& row.extras.len() == 1 && row.extras[0].text == profiles[index].command
        },
{
}

/// The query is shown as it was typed, behind a slash and before its cursor; an
/// empty list says so where a query emptied it, and nothing otherwise.
pub proof fn a_query_is_shown_as_typed(overlay: OverlayView, query: Seq<char>, theme: Theme)
    ensures
        query_row(query, theme).lead.text == "/"@,
        query_row(query, theme).title.text == query + seq!['_'],
        overlay.kind.len() == 0 ==> ({
            let extras = title_row(overlay, theme).extras;
            if overlay.kind is Palette && overlay.kind->Palette_0.query.len() > 0 {
                extras.len() == 1 && extras[0].text == "no matches"@
            } else {
                extras.len() == 0
            }
        }),
{
    assert(query.push('_') =~= query + seq!['_']);
}

/// A newer catalog keeps the cursor on the session it was on, wherever that
/// session is now listed, and any newer list keeps it on the list.
pub proof fn refreshing_keeps_the_session(
    current: Seq<SessionView>,
    selected: nat,
    entries: Seq<SessionView>,
    at: int,
)
    requires
        selected < current.len(),
        0 <= at < entries.len(),
        entries[at].socket == current[selected as int].socket,
    ensures
        ({
            let after = (OverlayView {
                kind: KindView::Sessions(current),
                selected,
            }).sessions_refreshed(entries);
            &&& after.kind == KindView::Sessions(entries)
            &&& after.selected < entries.len()
            &&& entries[after.selected as int].socket == current[selected as int].socket
        }),
{
    let wanted = |entry: SessionView| entry.socket == current[selected as int].socket;
    first_where_found(entries, wanted);
    assert(wanted(entries[at]));
}

/// Where what the cursor was on is gone, it stays on its row, or on the last one
/// where that row is gone too.
pub proof fn refreshing_keeps_the_row(
    sessions: Seq<SessionView>,
    newer: Seq<SessionView>,
    waiting: Seq<WaitingView>,
    later: Seq<WaitingView>,
    selected: nat,
)
    ensures
        ({
            let kept = |len: nat|
                if selected < len {
                    selected as int
                } else if len > 0 {
                    len - 1
                } else {
                    0
                };
            &&& selected < sessions.len() && (forall|i: int|
                0 <= i < newer.len() ==> (#[trigger] newer[i]).socket
                    != sessions[selected as int].socket) ==> (OverlayView {
                kind: KindView::Sessions(sessions),
                selected,
            }).sessions_refreshed(newer).selected == kept(newer.len())
            &&& selected < waiting.len() && (forall|i: int|
                0 <= i < later.len() ==> (#[trigger] later[i]).pane
                    != waiting[selected as int].pane) ==> (OverlayView {
                kind: KindView::Attention(waiting),
                selected,
            }).attention_refreshed(later).selected == kept(later.len())
        }),
{
    if selected < sessions.len() {
        first_where_found(
            newer,
            |entry: SessionView| entry.socket == sessions[selected as int].socket,
        );
    }
    if selected < waiting.len() {
        first_where_found(
            later,
            |entry: WaitingView| entry.pane == waiting[selected as int].pane,
        );
    }
}

} // verus!
