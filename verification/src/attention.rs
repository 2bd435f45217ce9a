//! What a pane asks of a person, and the queue of panes that are asking.

use std::collections::HashMap;

use vstd::prelude::*;

use crate::cells::text_of;
use crate::palette::{chrome_blank, plain, push_count, push_glyph};
use crate::proto::{Cell, CellAttrs, Color, Point};
use crate::renderer::{Span, SpanView};
use crate::text::decimal;
use crate::theme::Theme;

verus! {

broadcast use vstd::std_specs::hash::group_hash_axioms;

/// A pane's workspace state, as the chrome presents it. Never inferred from a
/// pane's output.
#[derive(Clone, Copy, Debug, PartialEq, Eq, Structural)]
pub enum Attention {
    /// No reliable activity signal.
    Unknown,
    /// Set by an opt-in adapter or the user.
    Working,
    /// Requires a decision or response.
    NeedsInput,
    /// Completed with an unread result.
    Ready,
    /// The child exited unsuccessfully, or an adapter reported failure.
    Failed,
    /// No active attention condition.
    Quiet,
}

impl Default for Attention {
    fn default() -> (attention: Attention)
        ensures
            attention == Attention::Unknown,
    {
        Attention::Unknown
    }
}

impl Attention {
    /// The state's glyph. Always ASCII, so it never depends on a font.
    #[verifier::allow_in_spec]
    pub fn glyph(self) -> char
        returns
            (match self {
                Attention::Unknown => '?',
                Attention::Working => '*',
                Attention::NeedsInput => '!',
                Attention::Ready => '+',
                Attention::Failed => 'x',
                Attention::Quiet => '-',
            }),
    {
        match self {
            Attention::Unknown => '?',
            Attention::Working => '*',
            Attention::NeedsInput => '!',
            Attention::Ready => '+',
            Attention::Failed => 'x',
            Attention::Quiet => '-',
        }
    }

    /// The words [`label`](Attention::label) answers with.
    pub open spec fn words(self) -> Seq<char> {
        match self {
            Attention::Unknown => "unknown"@,
            Attention::Working => "working"@,
            Attention::NeedsInput => "needs input"@,
            Attention::Ready => "ready"@,
            Attention::Failed => "failed"@,
            Attention::Quiet => "quiet"@,
        }
    }

    /// The state's text label, shown whenever the width allows.
    pub fn label(self) -> (label: &'static str)
        ensures
            label@ == self.words(),
    {
        match self {
            Attention::Unknown => "unknown",
            Attention::Working => "working",
            Attention::NeedsInput => "needs input",
            Attention::Ready => "ready",
            Attention::Failed => "failed",
            Attention::Quiet => "quiet",
        }
    }

    /// The semantic colour supplementing this state in one client theme.
    #[verifier::allow_in_spec]
    pub fn color_in(self, theme: Theme) -> Color
        returns
            (match self {
                Attention::Unknown => theme.muted,
                Attention::Quiet => theme.muted,
                Attention::Working => theme.info,
                Attention::NeedsInput => theme.warning,
                Attention::Ready => theme.success,
                Attention::Failed => theme.error,
            }),
    {
        match self {
            Attention::Unknown | Attention::Quiet => theme.muted,
            Attention::Working => theme.info,
            Attention::NeedsInput => theme.warning,
            Attention::Ready => theme.success,
            Attention::Failed => theme.error,
        }
    }

    /// The semantic colour supplementing the glyph and label.
    #[verifier::allow_in_spec]
    pub fn color(self) -> Color
        returns
            (self.color_in(Theme::storm())),
    {
        self.color_in(Theme::storm())
    }

    /// Whether this state is something a person is being asked to act on.
    #[verifier::allow_in_spec]
    pub fn is_actionable(self) -> bool
        returns
            (self is NeedsInput || self is Ready || self is Failed),
    {
        matches!(self, Attention::NeedsInput | Attention::Ready | Attention::Failed)
    }
}

/// No two states share a glyph, so a state is told without colour.
pub proof fn glyphs_tell_states_apart(a: Attention, b: Attention)
    ensures
        a.glyph() == b.glyph() <==> a == b,
{
}

/// One pane's place in the attention queue.
#[derive(Debug, PartialEq, Eq)]
pub struct QueueEntry {
    /// The pane's index in the tab, as the user refers to it.
    pub index: u16,
    /// The pane's name, for the queue row.
    pub title: String,
    /// The state that put the pane in the queue.
    pub attention: Attention,
}

impl Clone for QueueEntry {
    fn clone(&self) -> (copy: QueueEntry)
        ensures
            copy == *self,
    {
        QueueEntry { index: self.index, title: self.title.clone(), attention: self.attention }
    }
}

/// An entry by its contents.
pub struct EntryView {
    pub index: u16,
    pub title: Seq<char>,
    pub attention: Attention,
}

impl View for QueueEntry {
    type V = EntryView;

    open spec fn view(&self) -> EntryView {
        EntryView { index: self.index, title: self.title@, attention: self.attention }
    }
}

/// Entries by their contents.
pub open spec fn entry_views(entries: Seq<QueueEntry>) -> Seq<EntryView> {
    entries.map_values(|entry: QueueEntry| entry@)
}

/// The queue: entries newest first, what was last acknowledged per pane, and
/// the keyboard cursor.
pub struct QueueView {
    pub entries: Seq<EntryView>,
    pub acked: Map<u16, Attention>,
    pub selected: nat,
}

/// Where a pane's entry is, if it has one.
pub open spec fn place(entries: Seq<EntryView>, index: u16) -> Option<nat>
    decreases entries.len(),
{
    if entries.len() == 0 {
        None
    } else if entries[0].index == index {
        Some(0)
    } else {
        match place(entries.drop_first(), index) {
            Some(at) => Some(at + 1),
            None => None,
        }
    }
}

/// A cursor no further than the last of `len` entries.
pub open spec fn clamped(selected: nat, len: nat) -> nat {
    if len == 0 {
        0
    } else if selected >= len {
        (len - 1) as nat
    } else {
        selected
    }
}

impl QueueView {
    /// One entry per pane, every one actionable, none of them acknowledged, and
    /// the cursor on an entry where there is one.
    pub open spec fn wf(self) -> bool {
        &&& forall|i: int, j: int|
            0 <= i < j < self.entries.len() ==> (#[trigger] self.entries[i]).index != (
            #[trigger] self.entries[j]).index
        &&& forall|i: int|
            0 <= i < self.entries.len() ==> (#[trigger] self.entries[i]).attention.is_actionable()
        &&& forall|i: int|
            0 <= i < self.entries.len() ==> !self.acked.dom().contains(
                (#[trigger] self.entries[i]).index,
            )
        &&& self.selected == clamped(self.selected, self.entries.len())
    }

    /// This queue without a pane's entry.
    pub open spec fn without(self, index: u16) -> QueueView {
        match place(self.entries, index) {
            None => self,
            Some(at) => {
                let entries = self.entries.remove(at as int);
                QueueView { entries, selected: clamped(self.selected, entries.len()), ..self }
            },
        }
    }

    /// This queue once a pane's attention was reported.
    ///
    /// A state that asks for nothing takes the pane out and forgets what was
    /// acknowledged. The acknowledged state reported again changes nothing, and
    /// so does a live state reported again. Any other state moves the pane to
    /// the front.
    pub open spec fn recorded(self, index: u16, title: Seq<char>, attention: Attention) -> QueueView {
        let entry = EntryView { index, title, attention };
        if !attention.is_actionable() {
            let rest = self.without(index);
            QueueView { acked: self.acked.remove(index), ..rest }
        } else if self.acked.dom().contains(index) && self.acked[index] == attention {
            self
        } else {
            let acked = self.acked.remove(index);
            match place(self.entries, index) {
                None => QueueView { entries: seq![entry] + self.entries, acked, ..self },
                Some(at) => if self.entries[at as int].attention == attention {
                    QueueView { acked, ..self }
                } else {
                    QueueView {
                        entries: seq![entry] + self.entries.remove(at as int),
                        acked,
                        ..self
                    }
                },
            }
        }
    }

    /// This queue once a pane was acknowledged: its entry is gone and its state
    /// remembered. A pane without an entry changes nothing.
    pub open spec fn acknowledged(self, index: u16) -> QueueView {
        match place(self.entries, index) {
            None => self,
            Some(at) => {
                let rest = self.without(index);
                QueueView {
                    acked: self.acked.insert(index, self.entries[at as int].attention),
                    ..rest
                }
            },
        }
    }
}

/// A queue nothing has been reported to.
pub open spec fn nothing_waiting() -> QueueView {
    QueueView { entries: seq![], acked: Map::empty(), selected: 0 }
}

/// How many entries have a state.
pub open spec fn waiting_in(entries: Seq<EntryView>, state: Attention) -> nat
    decreases entries.len(),
{
    if entries.len() == 0 {
        0
    } else {
        waiting_in(entries.drop_last(), state) + (if entries.last().attention == state {
            1nat
        } else {
            0nat
        })
    }
}

/// The attention queue: the newest unacknowledged actionable event per pane.
#[derive(Clone, Debug)]
pub struct AttentionQueue {
    entries: Vec<QueueEntry>,
    acked: HashMap<u16, Attention>,
    selected: usize,
}

impl View for AttentionQueue {
    type V = QueueView;

    closed spec fn view(&self) -> QueueView {
        QueueView {
            entries: entry_views(self.entries@),
            acked: self.acked@,
            selected: self.selected as nat,
        }
    }
}

/// What [`place`] finds is the pane's entry; where it finds none there is none.
pub proof fn place_finds(entries: Seq<EntryView>, index: u16)
    ensures
        place(entries, index) matches Some(at) ==> at < entries.len() && entries[at as int].index
            == index && (forall|i: int| 0 <= i < at ==> (#[trigger] entries[i]).index != index),
        place(entries, index) is None ==> forall|i: int|
            0 <= i < entries.len() ==> (#[trigger] entries[i]).index != index,
    decreases entries.len(),
{
    if entries.len() > 0 && entries[0].index != index {
        let rest = entries.drop_first();
        place_finds(rest, index);
        assert forall|i: int| 1 <= i < entries.len() implies entries[i] == rest[i - 1] by {}
        if place(rest, index) is None {
            assert forall|i: int| 0 <= i < entries.len() implies (#[trigger] entries[i]).index
                != index by {
                if i > 0 {
                    assert(entries[i] == rest[i - 1]);
                }
            }
        } else {
            let at = place(rest, index)->0;
            assert(entries[at as int + 1] == rest[at as int]);
            assert forall|i: int| 0 <= i < at + 1 implies (#[trigger] entries[i]).index != index by {
                if i > 0 {
                    assert(entries[i] == rest[i - 1]);
                }
            }
        }
    }
}

/// Reporting, acknowledging and moving keep the queue's rules.
pub proof fn recording_keeps_the_rules(
    queue: QueueView,
    index: u16,
    title: Seq<char>,
    attention: Attention,
)
    requires
        queue.wf(),
    ensures
        queue.recorded(index, title, attention).wf(),
{
    place_finds(queue.entries, index);
    let next = queue.recorded(index, title, attention);
    if let Some(at) = place(queue.entries, index) {
        let rest = queue.entries.remove(at as int);
        assert forall|i: int| 0 <= i < rest.len() implies rest[i] == (if i < at {
            queue.entries[i]
        } else {
            queue.entries[i + 1]
        }) by {}
        assert forall|i: int| 0 <= i < rest.len() implies (#[trigger] rest[i]).index != index by {
            if i < at {
                assert(rest[i] == queue.entries[i]);
            } else {
                assert(rest[i] == queue.entries[i + 1]);
            }
        }
    }
    assert forall|i: int, j: int| 0 <= i < j < next.entries.len() implies (
    #[trigger] next.entries[i]).index != (#[trigger] next.entries[j]).index by {}
}

/// Acknowledging keeps the queue's rules.
pub proof fn acknowledging_keeps_the_rules(queue: QueueView, index: u16)
    requires
        queue.wf(),
    ensures
        queue.acknowledged(index).wf(),
{
    place_finds(queue.entries, index);
    if let Some(at) = place(queue.entries, index) {
        let rest = queue.entries.remove(at as int);
        assert forall|i: int| 0 <= i < rest.len() implies (#[trigger] rest[i]).index != index by {
            if i < at {
                assert(rest[i] == queue.entries[i]);
            } else {
                assert(rest[i] == queue.entries[i + 1]);
            }
        }
    }
}

impl AttentionQueue {
    /// An empty queue.
    pub fn new() -> (queue: AttentionQueue)
        ensures
            queue@ == nothing_waiting(),
            queue@.wf(),
    {
        let queue = AttentionQueue { entries: Vec::new(), acked: HashMap::new(), selected: 0 };
        assert(queue@.entries =~= seq![]);
        assert(queue@.acked =~= Map::empty());
        queue
    }

    /// Records a pane's current attention, applying the coalescing rules.
    pub fn record(&mut self, index: u16, title: &str, attention: Attention)
        requires
            old(self)@.wf(),
        ensures
            final(self)@ == old(self)@.recorded(index, title@, attention),
            final(self)@.wf(),
    {
        proof {
            recording_keeps_the_rules(self@, index, title@, attention);
            place_finds(self@.entries, index);
        }
        if !attention.is_actionable() {
            self.remove_pane(index);
            self.acked.remove(&index);
            assert(self@.acked =~= old(self)@.acked.remove(index));
            return;
        }
        let dismissed: bool = match self.acked.get(&index) {
            Some(state) => *state == attention,
            None => false,
        };
        if dismissed {
            return;
        }
        self.acked.remove(&index);
        assert(self@.acked =~= old(self)@.acked.remove(index));
        match self.position(index) {
            Some(pos) => {
                if self.entries[pos].attention != attention {
                    let ghost before = self.entries@;
                    let _ = self.entries.remove(pos);
                    self.entries.insert(0, QueueEntry { index, title: title.to_owned(), attention });
                    assert(entry_views(self.entries@) =~= seq![
                        EntryView { index, title: title@, attention },
                    ] + entry_views(before).remove(pos as int));
                }
            },
            None => {
                let ghost before = self.entries@;
                self.entries.insert(0, QueueEntry { index, title: title.to_owned(), attention });
                assert(entry_views(self.entries@) =~= seq![
                    EntryView { index, title: title@, attention },
                ] + entry_views(before));
            },
        }
    }

    /// Acknowledges a pane, removing it and remembering what was dismissed.
    /// Answers with the pane where it had an entry.
    pub fn acknowledge(&mut self, index: u16) -> (pane: Option<u16>)
        requires
            old(self)@.wf(),
        ensures
            pane == (if place(old(self)@.entries, index) is Some {
                Some(index)
            } else {
                None
            }),
            final(self)@ == old(self)@.acknowledged(index),
            final(self)@.wf(),
    {
        proof {
            acknowledging_keeps_the_rules(self@, index);
            place_finds(self@.entries, index);
        }
        match self.position(index) {
            None => None,
            Some(pos) => {
                let ghost before = self.entries@;
                let entry = self.entries.remove(pos);
                assert(entry_views(self.entries@) =~= entry_views(before).remove(pos as int));
                self.acked.insert(index, entry.attention);
                self.clamp_selection();
                Some(index)
            },
        }
    }

    /// Acknowledges the currently selected entry.
    pub fn acknowledge_selected(&mut self) -> (pane: Option<u16>)
        requires
            old(self)@.wf(),
        ensures
            final(self)@.wf(),
            old(self)@.entries.len() == 0 ==> pane is None && final(self)@ == old(self)@,
            old(self)@.entries.len() > 0 ==> ({
                let index = old(self)@.entries[old(self)@.selected as int].index;
                pane == Some(index) && final(self)@ == old(self)@.acknowledged(index)
            }),
    {
        if self.selected >= self.entries.len() {
            return None;
        }
        let index: u16 = self.entries[self.selected].index;
        proof {
            assert(self@.entries[self.selected as int] == self.entries@[self.selected as int]@);
            place_finds(self@.entries, index);
        }
        self.acknowledge(index)
    }

    /// Moves the keyboard cursor one entry toward the older end.
    pub fn select_next(&mut self)
        requires
            old(self)@.wf(),
        ensures
            final(self)@.wf(),
            final(self)@ == (QueueView {
                selected: if old(self)@.selected + 1 < old(self)@.entries.len() {
                    old(self)@.selected + 1
                } else {
                    old(self)@.selected
                },
                ..old(self)@
            }),
    {
        if self.selected < self.entries.len() && self.selected + 1 < self.entries.len() {
            self.selected = self.selected + 1;
        }
    }

    /// Moves the keyboard cursor one entry toward the newer end.
    pub fn select_prev(&mut self)
        requires
            old(self)@.wf(),
        ensures
            final(self)@.wf(),
            final(self)@ == (QueueView {
                selected: if old(self)@.selected > 0 {
                    (old(self)@.selected - 1) as nat
                } else {
                    0
                },
                ..old(self)@
            }),
    {
        if self.selected > 0 {
            self.selected = self.selected - 1;
        }
    }

    /// The currently selected entry, if any.
    pub fn selected(&self) -> (entry: Option<&QueueEntry>)
        requires
            self@.wf(),
        ensures
            entry is Some <==> self@.entries.len() > 0,
            entry matches Some(found) ==> found@ == self@.entries[self@.selected as int],
    {
        if self.selected < self.entries.len() {
            Some(&self.entries[self.selected])
        } else {
            None
        }
    }

    /// The keyboard cursor's position.
    pub fn selection(&self) -> (selected: usize)
        ensures
            selected == self@.selected,
    {
        self.selected
    }

    /// The pane a focus action would jump to: the selected entry's pane.
    pub fn focus_target(&self) -> (pane: Option<u16>)
        requires
            self@.wf(),
        ensures
            pane == (if self@.entries.len() > 0 {
                Some(self@.entries[self@.selected as int].index)
            } else {
                None
            }),
    {
        if self.selected < self.entries.len() {
            assert(self@.entries[self.selected as int] == self.entries@[self.selected as int]@);
            Some(self.entries[self.selected].index)
        } else {
            None
        }
    }

    /// The entries, newest first.
    pub fn entries(&self) -> (entries: &[QueueEntry])
        ensures
            entry_views(entries@) == self@.entries,
    {
        self.entries.as_slice()
    }

    /// How many panes are waiting on the user.
    pub fn count(&self) -> (count: usize)
        ensures
            count == self@.entries.len(),
    {
        self.entries.len()
    }

    /// Whether nothing is waiting.
    pub fn is_empty(&self) -> (empty: bool)
        ensures
            empty == (self@.entries.len() == 0),
    {
        self.entries.len() == 0
    }

    /// How many entries sit in one state.
    pub fn count_in(&self, state: Attention) -> (count: usize)
        ensures
            count == waiting_in(self@.entries, state),
    {
        let mut count: usize = 0;
        let ghost views = self@.entries;
        for i in 0..self.entries.len()
            invariant
                views == self@.entries,
                views.len() == self.entries@.len(),
                count <= i,
                count == waiting_in(views.take(i as int), state),
        {
            assert(views.take(i + 1).drop_last() =~= views.take(i as int));
            assert(views.take(i + 1).last() == self.entries@[i as int]@);
            if self.entries[i].attention == state {
                count = count + 1;
            }
        }
        assert(views.take(views.len() as int) =~= views);
        count
    }

    /// How many entries sit in each actionable state, most urgent first.
    pub fn tally(&self) -> (tally: [(Attention, usize); 3])
        ensures
            tally[0].0 == Attention::NeedsInput,
            tally[0].1 == waiting_in(self@.entries, Attention::NeedsInput),
            tally[1].0 == Attention::Failed,
            tally[1].1 == waiting_in(self@.entries, Attention::Failed),
            tally[2].0 == Attention::Ready,
            tally[2].1 == waiting_in(self@.entries, Attention::Ready),
    {
        [
            (Attention::NeedsInput, self.count_in(Attention::NeedsInput)),
            (Attention::Failed, self.count_in(Attention::Failed)),
            (Attention::Ready, self.count_in(Attention::Ready)),
        ]
    }

    fn position(&self, index: u16) -> (at: Option<usize>)
        ensures
            at is Some <==> place(self@.entries, index) is Some,
            at matches Some(found) ==> place(self@.entries, index) == Some(found as nat) && found
                < self.entries@.len(),
    {
        let ghost views = self@.entries;
        let mut i: usize = 0;
        assert(views.skip(0) =~= views);
        while i < self.entries.len()
            invariant
                views == self@.entries,
                views.len() == self.entries@.len(),
                i <= self.entries.len(),
                place(views, index) == (match place(views.skip(i as int), index) {
                    Some(at) => Some((at + i) as nat),
                    None => None,
                }),
            decreases self.entries.len() - i,
        {
            assert(views.skip(i as int)[0] == self.entries@[i as int]@);
            if self.entries[i].index == index {
                return Some(i);
            }
            assert(views.skip(i as int).drop_first() =~= views.skip(i + 1));
            i = i + 1;
        }
        None
    }

    fn remove_pane(&mut self, index: u16)
        requires
            old(self)@.wf(),
        ensures
            final(self)@ == old(self)@.without(index),
    {
        if let Some(pos) = self.position(index) {
            let ghost before = self.entries@;
            let _ = self.entries.remove(pos);
            assert(entry_views(self.entries@) =~= entry_views(before).remove(pos as int));
            self.clamp_selection();
        }
    }

    fn clamp_selection(&mut self)
        ensures
            final(self)@ == (QueueView {
                selected: clamped(old(self)@.selected, old(self)@.entries.len()),
                ..old(self)@
            }),
    {
        let last: usize = if self.entries.len() == 0 {
            0
        } else {
            self.entries.len() - 1
        };
        if self.selected > last {
            self.selected = last;
        }
    }
}

impl Default for AttentionQueue {
    fn default() -> (queue: AttentionQueue)
        ensures
            queue@ == nothing_waiting(),
            queue@.wf(),
    {
        AttentionQueue::new()
    }
}

/// `<count><glyph>` for a state some panes wait in.
pub open spec fn tally_cells(entries: Seq<EntryView>, state: Attention) -> Seq<Cell> {
    let count = waiting_in(entries, state);
    if count == 0 {
        seq![]
    } else {
        plain(decimal(count), state.color(), CellAttrs::bold()) + plain(
            seq![state.glyph()],
            state.color(),
            CellAttrs::none(),
        )
    }
}

/// `part` behind `cells`, one space apart where both are there.
pub open spec fn spaced(cells: Seq<Cell>, part: Seq<Cell>) -> Seq<Cell> {
    if part.len() == 0 {
        cells
    } else if cells.len() == 0 {
        part
    } else {
        cells + seq![chrome_blank()] + part
    }
}

/// The attention tally: the states with any waiting panes, most urgent first.
pub open spec fn summary(entries: Seq<EntryView>) -> Seq<Cell> {
    spaced(
        spaced(
            tally_cells(entries, Attention::NeedsInput),
            tally_cells(entries, Attention::Failed),
        ),
        tally_cells(entries, Attention::Ready),
    )
}

fn push_tally(cells: &mut Vec<Cell>, queue: &AttentionQueue, state: Attention)
    ensures
        final(cells)@ == spaced(old(cells)@, tally_cells(queue@.entries, state)),
{
    let count: usize = queue.count_in(state);
    if count == 0 {
        return;
    }
    let ghost start = cells@;
    proof {
        decimal_is_not_empty(count as nat);
    }
    if cells.len() > 0 {
        cells.push(chrome_blank());
    }
    push_count(cells, count, state.color(), CellAttrs::bold());
    push_glyph(cells, state.glyph(), state.color(), CellAttrs::none());
    assert(cells@ =~= spaced(start, tally_cells(queue@.entries, state)));
}

/// A number is written with at least one digit.
pub proof fn decimal_is_not_empty(value: nat)
    ensures
        decimal(value).len() > 0,
    decreases value,
{
}

/// A compact attention tally for the always-on status bar. An empty queue
/// renders nothing.
pub fn summary_cells(queue: &AttentionQueue) -> (cells: Vec<Cell>)
    ensures
        cells@ == summary(queue@.entries),
{
    let mut cells: Vec<Cell> = Vec::new();
    push_tally(&mut cells, queue, Attention::NeedsInput);
    assert(cells@ =~= tally_cells(queue@.entries, Attention::NeedsInput));
    push_tally(&mut cells, queue, Attention::Failed);
    push_tally(&mut cells, queue, Attention::Ready);
    cells
}

/// The summary as a positioned span.
pub fn summary_span(at: Point, queue: &AttentionQueue) -> (span: Span)
    ensures
        span@ == (SpanView { at, cells: summary(queue@.entries) }),
{
    Span::new(at, summary_cells(queue))
}

/// A pane is listed once, whatever it reports and however often.
pub proof fn one_entry_per_pane(
    queue: QueueView,
    index: u16,
    title: Seq<char>,
    attention: Attention,
    i: int,
    j: int,
)
    requires
        queue.wf(),
        0 <= i < queue.recorded(index, title, attention).entries.len(),
        0 <= j < queue.recorded(index, title, attention).entries.len(),
        queue.recorded(index, title, attention).entries[i].index == queue.recorded(
            index,
            title,
            attention,
        ).entries[j].index,
    ensures
        i == j,
{
    recording_keeps_the_rules(queue, index, title, attention);
    let next = queue.recorded(index, title, attention);
    if i < j {
        assert(next.entries[i].index != next.entries[j].index);
    }
    if j < i {
        assert(next.entries[j].index != next.entries[i].index);
    }
}

/// Reporting the same state twice in a row is reporting it once.
pub proof fn a_repeat_coalesces(
    queue: QueueView,
    index: u16,
    title: Seq<char>,
    again: Seq<char>,
    attention: Attention,
)
    requires
        queue.wf(),
    ensures
        queue.recorded(index, title, attention).recorded(index, again, attention)
            == queue.recorded(index, title, attention),
{
    recording_keeps_the_rules(queue, index, title, attention);
    let next = queue.recorded(index, title, attention);
    place_finds(queue.entries, index);
    place_finds(next.entries, index);
    if attention.is_actionable() {
        assert(next.acked.remove(index) =~= next.acked || next.acked.dom().contains(index));
        if place(next.entries, index) is Some {
            let at = place(next.entries, index)->0;
            if !(queue.acked.dom().contains(index) && queue.acked[index] == attention) {
                assert(next.entries[0].index == index || next.entries == queue.entries);
            } else {
                assert(queue.acked.dom().contains(next.entries[at as int].index));
            }
        }
    } else {
        assert(next.acked.remove(index) =~= next.acked);
        if place(next.entries, index) is Some {
            let at = place(queue.entries, index)->0 as int;
            let found = place(next.entries, index)->0 as int;
            let rest = queue.entries.remove(at);
            if found < at {
                assert(rest[found] == queue.entries[found]);
            } else {
                assert(rest[found] == queue.entries[found + 1]);
            }
        }
    }
}

/// An acknowledged state does not come back when it is reported again, and a
/// state that asks for nothing in between makes it heard afresh.
pub proof fn an_acknowledged_state_does_not_return(
    queue: QueueView,
    index: u16,
    title: Seq<char>,
    calm: Attention,
)
    requires
        queue.wf(),
        place(queue.entries, index) is Some,
        !calm.is_actionable(),
    ensures
        ({
            let attention = queue.entries[place(queue.entries, index)->0 as int].attention;
            let acked = queue.acknowledged(index);
            &&& acked.recorded(index, title, attention) == acked
            &&& place(acked.entries, index) is None
            &&& place(
                acked.recorded(index, title, calm).recorded(index, title, attention).entries,
                index,
            ) == Some(0nat)
        }),
{
    place_finds(queue.entries, index);
    let at = place(queue.entries, index)->0 as int;
    let attention = queue.entries[at].attention;
    let acked = queue.acknowledged(index);
    place_finds(acked.entries, index);
    if place(acked.entries, index) is Some {
        let found = place(acked.entries, index)->0 as int;
        let rest = queue.entries.remove(at);
        if found < at {
            assert(rest[found] == queue.entries[found]);
        } else {
            assert(rest[found] == queue.entries[found + 1]);
        }
    }
    let lull = acked.recorded(index, title, calm);
    assert(lull.entries == acked.entries);
    let heard = lull.recorded(index, title, attention);
    assert(heard.entries[0].index == index);
}

/// The queue lists the newest first: a state that is news for its pane is in
/// front, and the others keep their order behind it.
pub proof fn the_newest_comes_first(
    queue: QueueView,
    index: u16,
    title: Seq<char>,
    attention: Attention,
)
    requires
        attention.is_actionable(),
        !(queue.acked.dom().contains(index) && queue.acked[index] == attention),
        place(queue.entries, index) matches Some(at) ==> queue.entries[at as int].attention
            != attention,
    ensures
        queue.recorded(index, title, attention).entries == seq![
            EntryView { index, title, attention },
        ] + queue.without(index).entries,
{
}

/// Each state has its own mark and word, and what asks for someone is what needs
/// an answer, was finished, or failed.
pub proof fn each_state_says_what_it_is(state: Attention, theme: Theme)
    ensures
        state.is_actionable() <==> (state == Attention::NeedsInput || state == Attention::Ready
            || state == Attention::Failed),
        match state {
            Attention::Unknown => state.glyph() == '?' && state.words() == seq![
                'u',
                'n',
                'k',
                'n',
                'o',
                'w',
                'n',
            ] && state.color_in(theme) == theme.muted,
            Attention::Working => state.glyph() == '*' && state.words() == seq![
                'w',
                'o',
                'r',
                'k',
                'i',
                'n',
                'g',
            ] && state.color_in(theme) == theme.info,
            Attention::NeedsInput => state.glyph() == '!' && state.words() == seq![
                'n',
                'e',
                'e',
                'd',
                's',
                ' ',
                'i',
                'n',
                'p',
                'u',
                't',
            ] && state.color_in(theme) == theme.warning,
            Attention::Ready => state.glyph() == '+' && state.words() == seq![
                'r',
                'e',
                'a',
                'd',
                'y',
            ] && state.color_in(theme) == theme.success,
            Attention::Failed => state.glyph() == 'x' && state.words() == seq![
                'f',
                'a',
                'i',
                'l',
                'e',
                'd',
            ] && state.color_in(theme) == theme.error,
            Attention::Quiet => state.glyph() == '-' && state.words() == seq![
                'q',
                'u',
                'i',
                'e',
                't',
            ] && state.color_in(theme) == theme.muted,
        },
{
    reveal_strlit("unknown");
    reveal_strlit("working");
    reveal_strlit("needs input");
    reveal_strlit("ready");
    reveal_strlit("failed");
    reveal_strlit("quiet");
    assert("unknown"@ =~= seq!['u', 'n', 'k', 'n', 'o', 'w', 'n']);
    assert("working"@ =~= seq!['w', 'o', 'r', 'k', 'i', 'n', 'g']);
    assert("needs input"@ =~= seq!['n', 'e', 'e', 'd', 's', ' ', 'i', 'n', 'p', 'u', 't']);
    assert("ready"@ =~= seq!['r', 'e', 'a', 'd', 'y']);
    assert("failed"@ =~= seq!['f', 'a', 'i', 'l', 'e', 'd']);
    assert("quiet"@ =~= seq!['q', 'u', 'i', 'e', 't']);
}

/// What a report does to the pane it is about: a state that asks for someone is
/// listed as it is, unless that very state was acknowledged; one that asks for
/// nobody is not listed, and forgets what was acknowledged.
pub proof fn a_report_lists_its_pane(
    queue: QueueView,
    index: u16,
    title: Seq<char>,
    attention: Attention,
)
    requires
        queue.wf(),
    ensures
        ({
            let next = queue.recorded(index, title, attention);
            let asks = attention == Attention::NeedsInput || attention == Attention::Ready
                || attention == Attention::Failed;
            let settled = queue.acked.contains_key(index) && queue.acked[index] == attention;
            let listed = exists|i: int|
                0 <= i < next.entries.len() && (#[trigger] next.entries[i]).index == index
                    && next.entries[i].attention == attention;
            &&& asks && !settled ==> listed && !next.acked.contains_key(index)
            &&& asks && settled ==> next == queue
            &&& !asks ==> !next.acked.contains_key(index) && forall|i: int|
                0 <= i < next.entries.len() ==> (#[trigger] next.entries[i]).index != index
        }),
{
    place_finds(queue.entries, index);
    let next = queue.recorded(index, title, attention);
    place_finds(next.entries, index);
    if attention.is_actionable() {
        if !(queue.acked.contains_key(index) && queue.acked[index] == attention) {
            match place(queue.entries, index) {
                None => {
                    assert(next.entries[0].index == index);
                },
                Some(at) => {
                    if queue.entries[at as int].attention == attention {
                        assert(next.entries[at as int].index == index);
                    } else {
                        assert(next.entries[0].index == index);
                    }
                },
            }
        }
    } else {
        if let Some(at) = place(queue.entries, index) {
            let rest = queue.entries.remove(at as int);
            assert forall|i: int| 0 <= i < next.entries.len() implies (#[trigger] next.entries[i]).index
                != index by {
                if i < at {
                    assert(rest[i] == queue.entries[i]);
                } else {
                    assert(rest[i] == queue.entries[i + 1]);
                    assert(queue.entries[at as int].index != queue.entries[i + 1].index);
                }
            }
        }
    }
}

/// A report is about its own pane: every other one stays listed or unlisted as it
/// was, and acknowledged or not as it was.
pub proof fn a_report_touches_no_other_pane(
    queue: QueueView,
    index: u16,
    title: Seq<char>,
    attention: Attention,
    entry: EntryView,
)
    requires
        queue.wf(),
        entry.index != index,
    ensures
        queue.recorded(index, title, attention).entries.contains(entry)
            <==> queue.entries.contains(entry),
        queue.acknowledged(index).entries.contains(entry) <==> queue.entries.contains(entry),
        queue.recorded(index, title, attention).acked.remove(index) == queue.acked.remove(index),
        queue.acknowledged(index).acked.remove(index) == queue.acked.remove(index),
{
    place_finds(queue.entries, index);
    let next = queue.recorded(index, title, attention);
    let done = queue.acknowledged(index);
    assert(next.acked.remove(index) =~= queue.acked.remove(index));
    assert(done.acked.remove(index) =~= queue.acked.remove(index));
    let old = queue.entries;
    if let Some(at) = place(queue.entries, index) {
        let rest = old.remove(at as int);
        assert(rest.contains(entry) <==> old.contains(entry)) by {
            if rest.contains(entry) {
                let i = choose|i: int| 0 <= i < rest.len() && rest[i] == entry;
                if i < at {
                    assert(old[i] == entry);
                } else {
                    assert(old[i + 1] == entry);
                }
            }
            if old.contains(entry) {
                let i = choose|i: int| 0 <= i < old.len() && old[i] == entry;
                if i < at {
                    assert(rest[i] == entry);
                } else {
                    assert(rest[i - 1] == entry);
                }
            }
        }
        let first = seq![EntryView { index, title, attention }] + rest;
        assert(first.contains(entry) <==> rest.contains(entry)) by {
            if first.contains(entry) {
                let i = choose|i: int| 0 <= i < first.len() && first[i] == entry;
                assert(rest[i - 1] == entry);
            }
            if rest.contains(entry) {
                let i = choose|i: int| 0 <= i < rest.len() && rest[i] == entry;
                assert(first[i + 1] == entry);
            }
        }
    } else {
        let first = seq![EntryView { index, title, attention }] + old;
        assert(first.contains(entry) <==> old.contains(entry)) by {
            if first.contains(entry) {
                let i = choose|i: int| 0 <= i < first.len() && first[i] == entry;
                assert(old[i - 1] == entry);
            }
            if old.contains(entry) {
                let i = choose|i: int| 0 <= i < old.len() && old[i] == entry;
                assert(first[i + 1] == entry);
            }
        }
    }
}

/// An acknowledged pane leaves the queue, with the state it had remembered.
pub proof fn an_acknowledged_pane_leaves(queue: QueueView, index: u16, i: int)
    requires
        queue.wf(),
        0 <= i < queue.entries.len(),
        queue.entries[i].index == index,
    ensures
        queue.acknowledged(index).acked == queue.acked.insert(index, queue.entries[i].attention),
        queue.acknowledged(index).entries == queue.entries.remove(i),
        forall|k: int|
            0 <= k < queue.acknowledged(index).entries.len() ==> (
            #[trigger] queue.acknowledged(index).entries[k]).index != index,
{
    place_finds(queue.entries, index);
    let at = place(queue.entries, index)->0 as int;
    if at < i {
        assert(queue.entries[at].index != queue.entries[i].index);
    }
    if i < at {
        assert(queue.entries[i].index != queue.entries[at].index);
    }
    let rest = queue.entries.remove(i);
    assert forall|k: int| 0 <= k < rest.len() implies (#[trigger] rest[k]).index != index by {
        if k < i {
            assert(queue.entries[k].index != queue.entries[i].index);
        } else {
            assert(queue.entries[i].index != queue.entries[k + 1].index);
        }
    }
}

/// A tally counts the entries of its state.
pub proof fn a_tally_counts_its_state(entries: Seq<EntryView>, state: Attention)
    ensures
        waiting_in(entries, state) == entries.filter(|entry: EntryView| entry.attention == state).len(),
    decreases entries.len(),
{
    reveal(Seq::filter);
    if entries.len() > 0 {
        a_tally_counts_its_state(entries.drop_last(), state);
    }
}

/// The tally reads as its counts and marks: what needs an answer first, then what
/// failed, then what is ready, one space apart, and nothing for none.
#[verifier::rlimit(40)]
pub proof fn the_summary_reads_in_order_of_urgency(entries: Seq<EntryView>)
    ensures
        ({
            let asks = waiting_in(entries, Attention::NeedsInput);
            let failed = waiting_in(entries, Attention::Failed);
            let ready = waiting_in(entries, Attention::Ready);
            let part = |count: nat, mark: char|
                if count == 0 {
                    Seq::<char>::empty()
                } else {
                    decimal(count).push(mark)
                };
            let gap = |left: bool, right: bool|
                if left && right {
                    seq![' ']
                } else {
                    Seq::<char>::empty()
                };
            text_of(summary(entries)) == part(asks, '!') + gap(asks > 0, failed > 0) + part(
                failed,
                'x',
            ) + gap(asks > 0 || failed > 0, ready > 0) + part(ready, '+')
        }),
{
    let one = tally_cells(entries, Attention::NeedsInput);
    let two = tally_cells(entries, Attention::Failed);
    let three = tally_cells(entries, Attention::Ready);
    decimal_is_not_empty(waiting_in(entries, Attention::NeedsInput));
    decimal_is_not_empty(waiting_in(entries, Attention::Failed));
    decimal_is_not_empty(waiting_in(entries, Attention::Ready));
    let asks = waiting_in(entries, Attention::NeedsInput);
    let failed = waiting_in(entries, Attention::Failed);
    let ready = waiting_in(entries, Attention::Ready);
    assert(asks > 0 ==> text_of(one) =~= decimal(asks).push('!'));
    assert(failed > 0 ==> text_of(two) =~= decimal(failed).push('x'));
    assert(ready > 0 ==> text_of(three) =~= decimal(ready).push('+'));
    let part = |count: nat, mark: char|
        if count == 0 {
            Seq::<char>::empty()
        } else {
            decimal(count).push(mark)
        };
    let gap = |left: bool, right: bool|
        if left && right {
            seq![' ']
        } else {
            Seq::<char>::empty()
        };
    let both = spaced(one, two);
    assert(text_of(both) =~= part(asks, '!') + gap(asks > 0, failed > 0) + part(failed, 'x'));
    assert(text_of(summary(entries)) =~= text_of(both) + gap(asks > 0 || failed > 0, ready > 0)
        + part(ready, '+'));
}

/// An entry that leaves moves the cursor only where it would be past the end, and
/// then to the last entry. A report of a pane that is not listed leaves it where it
/// is.
pub proof fn the_cursor_stays_where_it_can(queue: QueueView, index: u16, title: Seq<char>, attention: Attention)
    requires
        queue.wf(),
    ensures
        ({
            let after = queue.acknowledged(index);
            let left = after.entries.len();
            after.selected == if queue.selected < left {
                queue.selected as int
            } else if left > 0 {
                left - 1
            } else {
                0
            }
        }),
        ({
            let after = queue.recorded(index, title, attention);
            let left = after.entries.len();
            after.selected == if queue.selected < left {
                queue.selected as int
            } else if left > 0 {
                left - 1
            } else {
                0
            }
        }),
{
    place_finds(queue.entries, index);
}

} // verus!
