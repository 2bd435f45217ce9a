//! Where notices, overlays and status lines stand on the screen, what they say,
//! and what stays of them.

use vstd::prelude::*;
use vstd::utf8::encode_utf8;

use crate::attach::AttachError;
use crate::attention::{EntryView, QueueEntry};
use crate::capabilities::{attach_caps, CapsError};
use crate::cells::{cut, text_of};
use crate::copy_mode::{copy_bytes, copy_request, viewport_row};
use crate::effects::{
    a_terminal_reads_back_what_was_copied, as_ascii, clipboard_needs_both_gates, effect_bytes,
    permitted_payload, read_back, EffectPolicy,
};
use crate::launch::{joined, notice_row, summary_of, NoticeView, ProfileCommand};
use crate::live::{elsewhere, named_rows, position, session_size, text_view, LiveView};
use crate::live_frame::{status_bar_says, tab_bar_says};
use crate::motion::MotionSettings;
use crate::overlay::{KindView, OverlayView, SessionView, WaitingView};
use crate::proto::{
    Action, ClientMessage, ClientMessageView, ClipboardTarget, CopyModeState, OuterTerminalEffect,
    PaneId, PaneInfo, Size, TermCaps,
};
use crate::rows::row_line;
use crate::settings::VisualConfig;
use crate::status_bar::{queue_header, StatusBar, StatusMode};
use crate::tabs::TabBar;
use crate::text::{decimal, is_plain};
use crate::theme::Theme;
use crate::time::Instant;
use crate::toast::{
    last_toast_row, rows_from, toast_line, toast_row, toast_width, unexpired, within,
    without_pane, DeckView, ToastView,
};

verus! {

// Notices.

/// A notice reads as the pane's name, its state by mark and word, and how often it
/// was raised where that was more than once; where that is too long its end is cut
/// off.
pub proof fn a_notice_reads_as_documented(toast: ToastView, width: nat, theme: Theme)
    ensures
        ({
            let says = toast.title + seq![' ', toast.attention.glyph(), ' ']
                + toast.attention.words() + (if toast.repeats > 1 {
                seq![' ', '(', 'x'] + decimal(toast.repeats as nat) + seq![')']
            } else {
                seq![]
            });
            text_of(toast_row(toast, width, theme)) == if says.len() <= width {
                says
            } else {
                says.take(width as int)
            }
        }),
{
    let says = toast.title + seq![' ', toast.attention.glyph(), ' '] + toast.attention.words() + (
    if toast.repeats > 1 {
        seq![' ', '(', 'x'] + decimal(toast.repeats as nat) + seq![')']
    } else {
        seq![]
    });
    let line = toast_line(toast, theme);
    assert(text_of(line) =~= says);
    let row = toast_row(toast, width, theme);
    assert(row.len() == cut(line, width).len());
    assert forall|i: int| 0 <= i < row.len() implies (#[trigger] row[i]).ch == says[i] by {
        assert(text_of(line)[i] == line[i].ch);
    }
    assert(text_of(row) =~= if says.len() <= width {
        says
    } else {
        says.take(width as int)
    });
}

/// A notice is as wide as the frame leaves it with a cell clear on either side, and
/// never wider than thirty-six cells.
pub proof fn a_notice_leaves_a_margin(outer: Size)
    ensures
        toast_width(outer) <= 36,
        outer.cols >= 2 ==> toast_width(outer) + 2 <= outer.cols,
        outer.cols >= 38 ==> toast_width(outer) == 36,
        2 <= outer.cols < 38 ==> toast_width(outer) + 2 == outer.cols,
        outer.cols < 2 ==> toast_width(outer) == 0,
{
}

/// Notices stand on consecutive rows from the one below the tabs, but for the row
/// to avoid, as many as there are or as fit above the status row.
pub proof fn notices_stand_from_the_top(outer: Size, count: nat, avoid: Option<u16>)
    ensures
        ({
            let rows = rows_from(1, last_toast_row(outer), count, avoid);
            let last = if outer.rows < 2 {
                0int
            } else {
                outer.rows - 2
            };
            let skipped = if avoid is Some && 1 <= avoid->0 <= last {
                1int
            } else {
                0
            };
            &&& rows.len() == if count < last - skipped {
                count as int
            } else {
                last - skipped
            }
            &&& forall|i: int|
                0 <= i < rows.len() ==> (#[trigger] rows[i]) == 1 + i + (if avoid is Some && 1
                    <= avoid->0 <= 1 + i {
                    1int
                } else {
                    0
                })
        }),
{
    rows_are_consecutive(1, last_toast_row(outer), count, avoid);
}

proof fn rows_are_consecutive(row: nat, last: nat, count: nat, avoid: Option<u16>)
    requires
        row <= last + 1,
        last < u16::MAX,
    ensures
        ({
            let rows = rows_from(row, last, count, avoid);
            let left = last + 1 - row;
            let skipped = if avoid is Some && row <= avoid->0 <= last {
                1int
            } else {
                0
            };
            &&& rows.len() == if count < left - skipped {
                count as int
            } else {
                left - skipped
            }
            &&& forall|i: int|
                0 <= i < rows.len() ==> (#[trigger] rows[i]) == row + i + (if avoid is Some && row
                    <= avoid->0 <= row + i {
                    1int
                } else {
                    0
                })
        }),
    decreases last + 1 - row,
{
    if count > 0 && row <= last {
        if avoid == Some(row as u16) {
            rows_are_consecutive(row + 1, last, count, avoid);
        } else {
            rows_are_consecutive(row + 1, last, (count - 1) as nat, avoid);
            let rest = rows_from(row + 1, last, (count - 1) as nat, avoid);
            let all = rows_from(row, last, count, avoid);
            assert forall|i: int| 0 <= i < all.len() implies (#[trigger] all[i]) == row + i + (
            if avoid is Some && row <= avoid->0 <= row + i {
                1int
            } else {
                0
            }) by {
                if i > 0 {
                    assert(all[i] == rest[i - 1]);
                }
            }
        }
    }
}

/// Notices leave when their time is up, when their pane is dismissed, and when
/// there is no pane at their position any more; the others stay, in their order.
pub proof fn other_notices_stay(toasts: Seq<ToastView>, now: Instant, index: u16, panes: u16)
    ensures
        unexpired(toasts, now) == toasts.filter(|toast: ToastView| now.nanos < toast.until.nanos),
        without_pane(toasts, index) == toasts.filter(|toast: ToastView| toast.index != index),
        within(toasts, panes) == toasts.filter(|toast: ToastView| toast.index <= panes),
    decreases toasts.len(),
{
    reveal(Seq::filter);
    if toasts.len() > 0 {
        other_notices_stay(toasts.drop_last(), now, index, panes);
    }
}

/// Reduced motion ends every entrance at once and changes nothing else of a
/// notice; other settings leave the entrances as they are.
pub proof fn reduced_motion_ends_entrances(deck: DeckView, settings: MotionSettings, i: int)
    requires
        0 <= i < deck.toasts.len(),
    ensures
        ({
            let after = deck.moving(settings);
            let (toast, was) = (after.toasts[i], deck.toasts[i]);
            &&& after.settings == settings
            &&& after.toasts.len() == deck.toasts.len()
            &&& toast.index == was.index && toast.title == was.title && toast.attention
                == was.attention && toast.repeats == was.repeats && toast.until == was.until
            &&& settings.reduce_motion ==> toast.phase is None && toast.motion.active is None
            &&& !settings.reduce_motion ==> toast == was
        }),
{
}

// Overlays.

/// An overlay is as tall as what it lists and its own rows, between two and twenty
/// rows, sixty cells wide, and no larger than the terminal. It stands in the middle:
/// what is left over is split evenly, the odd cell to the right and below.
pub proof fn an_overlay_stands_in_the_middle(state: LiveView, overlay: OverlayView)
    requires
        state.overlay == Some(overlay),
    ensures
        ({
            let size = state.overlay_size(overlay.kind);
            let outer = state.outer_size;
            let rows = overlay.kind.len() + (if overlay.kind is Palette {
                3nat
            } else if overlay.kind is Config {
                6
            } else {
                2
            });
            let spans = state.overlay_layer();
            &&& size.cols == if outer.cols < 60 {
                outer.cols
            } else {
                60
            }
            &&& size.rows <= outer.rows && size.rows <= 20
            &&& rows <= 20 && rows <= outer.rows ==> size.rows == rows
            &&& rows > 20 && outer.rows >= 20 ==> size.rows == 20
            &&& rows > outer.rows && outer.rows <= 20 ==> size.rows == outer.rows
            &&& spans.len() == size.rows
            &&& forall|i: int|
                0 <= i < spans.len() ==> {
                    let span = #[trigger] spans[i];
                    let left = span.at.col as int;
                    let right = outer.cols - left - size.cols;
                    let above = span.at.row - i;
                    let below = outer.rows - above - size.rows;
                    &&& span.cells.len() == size.cols
                    &&& left <= right <= left + 1
                    &&& above <= below <= above + 1
                }
        }),
{
    let size = state.overlay_size(overlay.kind);
    crate::overlay::a_box_is_exactly_its_size(overlay, size, state.theme);
}

/// The launch notice takes the last row of the screen from end to end.
pub proof fn a_launch_is_told_on_the_last_row(state: LiveView, notice: NoticeView)
    requires
        state.launch == Some(notice),
        state.outer_size.rows > 0,
    ensures
        ({
            let spans = state.launch_layer();
            let row = notice_row(notice, state.theme);
            &&& spans.len() == 1
            &&& spans[0].at.col == 0
            &&& spans[0].at.row + 1 == state.outer_size.rows
            &&& spans[0].cells == row_line(row, state.outer_size.cols as nat, state.theme)
            &&& row.lead.text == "launch"@
            &&& row.title.text == notice.text()
            &&& row.title.fg == (if notice.refused {
                state.theme.warning
            } else {
                state.theme.info
            })
            &&& row.extras.len() == 0
        }),
        (LiveView { launch: None, ..state }).launch_layer().len() == 0,
{
}

// What the bars are told.

/// The tab row speaks of the tabs the client holds, the panes it draws, and the
/// session and clients the server told of, where it told of any.
pub proof fn the_tab_row_says_what_is_held(state: LiveView, panes: nat, bar: TabBar)
    requires
        tab_bar_says(state, panes, bar),
        panes <= usize::MAX,
    ensures
        bar.tabs@ == state.tabs,
        bar.panes matches Some(count) && count == panes,
        state.status matches Some(status) ==> bar.clients == Some(status.clients) && (
        status.name.len() > 0 ==> bar.session is Some && bar.session->0@ == status.name) && (
        status.name.len() == 0 ==> bar.session is None),
        state.status is None ==> bar.clients is None && bar.session is None,
{
}

/// The status row speaks of what the client holds: its tabs and queue, its prefix
/// and whether one is pending, the session, clients and size it was told, the
/// repository and the clock it read, and the preferred composition. It guides a
/// client of one pane or none.
pub proof fn the_status_row_says_what_is_held(state: LiveView, bar: StatusBar)
    requires
        status_bar_says(state, bar),
    ensures
        bar.tabs@ == state.tabs,
        bar.queue@ == state.queue,
        bar.hint.prefix@ == state.prefix,
        bar.hint.pending == state.prefix_pending,
        bar.hint.guide <==> state.areas.len() <= 1,
        bar.mode == state.visual.status,
        bar.powerline_separators <==> state.visual.status == StatusMode::Powerline,
        state.status matches Some(status) ==> bar.clients == Some(status.clients)
            && bar.effective_size == Some(status.effective_size) && (status.name.len() > 0
            ==> bar.session is Some && bar.session->0@ == status.name),
        state.status is None ==> bar.clients is None && bar.effective_size is None
            && bar.session is None,
        state.repository matches Some(held) ==> bar.repository matches Some(said)
            && said.changes == held.changes && text_view(said.branch) == held.branch,
        state.repository is None ==> bar.repository is None,
        state.clock matches Some(clock) ==> bar.clock is Some && bar.clock->0@ == clock,
        state.clock is None ==> bar.clock is None,
{
}

/// The session has the whole width of the terminal and all its rows but two.
pub proof fn the_session_has_all_but_two_rows(outer: Size)
    ensures
        session_size(outer).cols == outer.cols,
        outer.rows >= 2 ==> session_size(outer).rows + 2 == outer.rows,
        outer.rows < 2 ==> session_size(outer).rows == 0,
{
}

/// A queue row is drawn as the pane it is about, marked as the focused one where
/// the cursor is on it.
pub proof fn a_queue_row_is_its_pane(entry: QueueEntry, selected: bool)
    ensures
        ({
            let header = queue_header(&entry, selected);
            &&& header.index == entry.index
            &&& header.title == entry.title@
            &&& header.attention == entry.attention
            &&& header.focused == selected
            &&& header.task is None && !header.zoomed
        }),
{
}

/// The attention list names, row by row, the pane at each entry's position, with
/// that entry's name and state.
pub proof fn waiting_rows_name_their_panes(
    panes: Seq<(PaneId, PaneInfo)>,
    entries: Seq<EntryView>,
    i: int,
)
    requires
        0 <= i < entries.len(),
        forall|k: int|
            0 <= k < entries.len() ==> 1 <= (#[trigger] entries[k]).index <= panes.len(),
    ensures
        named_rows(panes, entries).len() == entries.len(),
        ({
            let row = named_rows(panes, entries)[i];
            &&& row.pane == panes[entries[i].index - 1].1.pane
            &&& row.index == entries[i].index
            &&& row.title == entries[i].title
            &&& row.attention == entries[i].attention
        }),
    decreases entries.len(),
{
    let front = entries.drop_last();
    assert forall|k: int| 0 <= k < front.len() implies 1 <= (#[trigger] front[k]).index
        <= panes.len() by {
        assert(front[k] == entries[k]);
    }
    assert(1 <= entries[entries.len() - 1].index <= panes.len());
    if front.len() > 0 {
        waiting_rows_name_their_panes(
            panes,
            front,
            if i < front.len() {
                i
            } else {
                0
            },
        );
    } else {
        assert(named_rows(panes, front) =~= Seq::<WaitingView>::empty());
    }
}

/// A pane is referred to by its place in the list, counted from one.
pub proof fn panes_are_counted_from_one(i: nat)
    requires
        i < u16::MAX,
    ensures
        position(i) == i + 1,
{
}

/// A session that is gone leaves the list, and the others stay in their order.
pub proof fn other_sessions_stay(rows: Seq<SessionView>, socket: Seq<u8>)
    ensures
        elsewhere(rows, socket) == rows.filter(|row: SessionView| row.socket != socket),
    decreases rows.len(),
{
    reveal(Seq::filter);
    if rows.len() > 0 {
        other_sessions_stay(rows.drop_last(), socket);
    }
}

// Reloading and resizing.

/// A newer revision that says something new is taken over whole, theme and
/// preferences, and nothing of the session is touched.
pub proof fn a_reload_is_taken_over(state: LiveView, revision: u64, visual: VisualConfig, theme: Theme)
    requires
        revision > state.config_revision,
        visual != state.visual,
    ensures
        ({
            let (after, changed) = state.reloaded(revision, Some((visual, theme)));
            &&& changed
            &&& after.visual == visual
            &&& after.theme == theme
            &&& after.config_revision == revision
            &&& after.toasts.settings.reduce_motion <==> !visual.motion || visual.reduce_motion
            &&& after.toasts.toasts.len() == state.toasts.toasts.len()
            &&& after.panes == state.panes && after.areas == state.areas && after.grids
                == state.grids && after.attention == state.attention && after.layout
                == state.layout && after.queue == state.queue && after.tabs == state.tabs
                && after.outer_size == state.outer_size
            &&& (after.overlay is None <==> state.overlay is None)
            &&& state.overlay is Some && state.overlay->0.kind !is Config ==> after.overlay
                == state.overlay
            &&& state.overlay is Some && state.overlay->0.kind is Config ==> match after.overlay->0.kind {
                KindView::Config(config) => config.visual == visual,
                _ => false,
            }
        }),
{
}

/// A terminal of another size keeps the session as it was laid out: only the size
/// and what is measured against it change.
pub proof fn a_resize_keeps_the_session(state: LiveView, outer: Size)
    ensures
        ({
            let after = state.resized(outer);
            &&& after.outer_size == outer
            &&& after.layout == state.layout
            &&& after.panes == state.panes && after.attention == state.attention && after.queue
                == state.queue && after.tabs == state.tabs && after.toasts == state.toasts
                && after.overlay == state.overlay && after.status == state.status && after.visual
                == state.visual && after.theme == state.theme
            &&& after.screen.size == outer
            &&& after.screen.focused == state.focused()
        }),
{
}

// Launching.

/// What a profile runs reads as its program and its arguments, in order, a space
/// before each.
pub proof fn a_command_reads_as_it_is_run(program: String, args: Vec<String>)
    ensures
        summary_of(ProfileCommand::Program { program, args }) == program@ + arguments_say(args@),
        summary_of(ProfileCommand::LoginShell) == "login shell"@,
{
    joined_reads(program@, args@);
}

/// Arguments, each behind a space.
pub open spec fn arguments_say(args: Seq<String>) -> Seq<char>
    decreases args.len(),
{
    if args.len() == 0 {
        seq![]
    } else {
        seq![' '] + args[0]@ + arguments_say(args.drop_first())
    }
}

proof fn joined_reads(first: Seq<char>, words: Seq<String>)
    ensures
        joined(first, words) == first + arguments_say(words),
    decreases words.len(),
{
    if words.len() > 0 {
        joined_reads(first, words.drop_last());
        arguments_from_the_back(words);
        assert(joined(first, words) =~= first + arguments_say(words));
    } else {
        assert(joined(first, words) =~= first + arguments_say(words));
    }
}

proof fn arguments_from_the_back(args: Seq<String>)
    requires
        args.len() > 0,
    ensures
        arguments_say(args) == arguments_say(args.drop_last()) + seq![' '] + args.last()@,
    decreases args.len(),
{
    reveal_with_fuel(arguments_say, 2);
    if args.len() > 1 {
        let rest = args.drop_first();
        arguments_from_the_back(rest);
        assert(rest.drop_last() =~= args.drop_last().drop_first());
        assert(arguments_say(args) =~= arguments_say(args.drop_last()) + seq![' ']
            + args.last()@);
    } else {
        assert(args.drop_first() =~= seq![]);
        assert(args.drop_last() =~= seq![]);
        assert(arguments_say(args) =~= arguments_say(args.drop_last()) + seq![' ']
            + args.last()@);
    }
}

// What is written and asked for.

/// A line of the scrollback stands on the row as far below the top as the line is
/// below the first one shown, and on none where it is scrolled out.
pub proof fn a_line_stands_where_it_is_scrolled(
    state: CopyModeState,
    line: u32,
    rows: u16,
    row: Option<u16>,
)
    requires
        call_ensures(viewport_row, (&state, line, rows), row),
    ensures
        row is Some <==> 0 <= line - state.viewport_top < rows,
        row matches Some(at) ==> at == line - state.viewport_top,
{
}

/// A selection is asked for where policy and terminal both permit storing it, and
/// for the clipboard that was named.
pub proof fn a_selection_is_asked_for_where_it_can_be_kept(
    caps: TermCaps,
    policy: EffectPolicy,
    target: ClipboardTarget,
    request: Option<ClientMessage>,
)
    requires
        call_ensures(copy_request, (caps, policy, target), request),
    ensures
        request is Some <==> policy.clipboard && caps.clipboard_osc52,
        request matches Some(message) ==> message@ == ClientMessageView::Command(
            Action::CopySelection(target),
        ),
{
}

/// A title that is permitted and plain is written between the introducer of an
/// operating system command and its terminator, behind `2;`. A copy writes no
/// title.
pub proof fn a_title_is_written_as_one_sequence(
    caps: TermCaps,
    policy: EffectPolicy,
    title: String,
    bytes: Option<Vec<u8>>,
    copied: Option<Vec<u8>>,
)
    requires
        call_ensures(effect_bytes, (caps, policy, &OuterTerminalEffect::SetTitle(title)), bytes),
        call_ensures(copy_bytes, (caps, policy, &OuterTerminalEffect::SetTitle(title)), copied),
    ensures
        !policy.title ==> bytes is None,
        bytes matches Some(written) ==> written@ == seq![0x1bu8, 0x5du8, 0x32u8, 0x3bu8]
            + encode_utf8(title@) + seq![0x1bu8, 0x5cu8],
        policy.title && is_plain(title@) ==> bytes is Some,
        copied is None,
{
    if let Some(written) = bytes {
        assert(written@ =~= seq![0x1bu8, 0x5du8, 0x32u8, 0x3bu8] + encode_utf8(title@) + seq![
            0x1bu8,
            0x5cu8,
        ]);
    }
}

/// A copy is written as one sequence from which the copied text reads back.
pub proof fn a_copy_is_written_as_one_sequence(
    caps: TermCaps,
    policy: EffectPolicy,
    target: ClipboardTarget,
    text: String,
    bytes: Option<Vec<u8>>,
)
    requires
        call_ensures(
            copy_bytes,
            (caps, policy, &OuterTerminalEffect::ClipboardStore { target, text }),
            bytes,
        ),
    ensures
        bytes is Some <==> policy.clipboard && caps.clipboard_osc52,
        bytes matches Some(written) ==> {
            let all = written@;
            &&& all.len() >= 9
            &&& all.take(2) == seq![0x1bu8, 0x5du8]
            &&& all.skip(all.len() - 2) == seq![0x1bu8, 0x5cu8]
            &&& read_back(as_ascii(all.subrange(7, all.len() - 2))) == encode_utf8(text@)
        },
{
    clipboard_needs_both_gates(caps, policy, target, text);
    if let Some(written) = bytes {
        a_terminal_reads_back_what_was_copied(caps, policy, target, text);
        let payload = permitted_payload(
            caps,
            policy,
            OuterTerminalEffect::ClipboardStore { target, text },
        )->0;
        let all = written@;
        assert(payload.take(5).len() == 5);
        assert(all.take(2) =~= seq![0x1bu8, 0x5du8]);
        assert(all.skip(all.len() - 2) =~= seq![0x1bu8, 0x5cu8]);
        assert(all.subrange(7, all.len() - 2) =~= payload.skip(5));
    }
}

/// A terminal that names itself is negotiated with by what it says; one whose name
/// is not set is refused as one whose name is empty.
pub proof fn an_unnamed_terminal_is_refused(
    colorterm: Option<&str>,
    outcome: Result<TermCaps, CapsError>,
)
    requires
        call_ensures(attach_caps, (None, colorterm), outcome),
    ensures
        outcome == Err::<TermCaps, CapsError>(CapsError::TermUnset),
{
}

/// Nobody listening and a connection that failed are told apart, each with where
/// it was tried.
pub proof fn a_failed_connection_says_where(
    path: &str,
    nobody_listens: bool,
    reason: &str,
    error: AttachError,
)
    requires
        call_ensures(AttachError::connecting, (path, nobody_listens, reason), error),
    ensures
        nobody_listens ==> error.text() == "no cloo daemon is listening on "@ + path@
            + "; start one first"@,
        !nobody_listens ==> error.text() == "could not connect to "@ + path@ + ": "@ + reason@,
{
    assert("could not connect to "@ + path@ + (": "@ + reason@) =~= "could not connect to "@ + path@
        + ": "@ + reason@);
}

} // verus!
