//! What a client knows that the session does not: other sessions, its own
//! repository answer, the launch it is waiting on, the divider being moved.

use std::collections::BTreeSet;

use vstd::prelude::*;

use crate::launch::{launch_deadline, named_panes, notice_linger, NoticeView};
use crate::live::{
    elsewhere, keyboard_resize_linger, repository_view, session_row, session_rows, text_view,
    CatalogEntry, Divider, LiveState, LiveView, ResizeActivity, ResizeSource, Side,
};
use crate::overlay::{
    session_views, LaunchNotice, LaunchRequest, OverlayKind, SessionEntry, SocketPath,
};
use crate::proto::{Action, PaneId, PaneInfo};
use crate::status_bar::RepositoryStatus;
use crate::text::same_text;
use crate::time::Instant;
use crate::toast::{all_ticked, any_advances, unexpired, DeckView};

verus! {

/// The step a divider takes toward a side.
#[verifier::allow_in_spec]
pub fn step_toward(side: Side) -> i16
    returns
        (match side {
            Side::Left => -1i16,
            Side::Up => -1i16,
            Side::Right => 1i16,
            Side::Down => 1i16,
        }),
{
    match side {
        Side::Left => -1,
        Side::Up => -1,
        Side::Right => 1,
        Side::Down => 1,
    }
}

/// The panes a list names.
pub open spec fn known_panes(panes: Seq<(PaneId, PaneInfo)>) -> Set<PaneId> {
    Set::new(|pane: PaneId| exists|i: int| 0 <= i < panes.len() && (#[trigger] panes[i]).0 == pane)
}

/// Copies of session rows.
fn copy_sessions(entries: &Vec<SessionEntry>) -> (copy: Vec<SessionEntry>)
    ensures
        session_views(copy@) == session_views(entries@),
{
    let mut copy: Vec<SessionEntry> = Vec::new();
    for i in 0..entries.len()
        invariant
            session_views(copy@) == session_views(entries@).take(i as int),
    {
        let ghost before = session_views(copy@);
        let entry = entries[i].clone();
        copy.push(entry);
        assert(session_views(copy@) =~= before.push(entry@));
        assert(session_views(entries@).take(i + 1) =~= before.push(
            session_views(entries@)[i as int],
        ));
    }
    assert(session_views(entries@).take(entries@.len() as int) =~= session_views(entries@));
    copy
}

/// Whether two lists of session rows say the same.
fn same_sessions(a: &Vec<SessionEntry>, b: &Vec<SessionEntry>) -> (same: bool)
    ensures
        same == (session_views(a@) == session_views(b@)),
{
    if a.len() != b.len() {
        assert(session_views(a@).len() != session_views(b@).len());
        return false;
    }
    for i in 0..a.len()
        invariant
            a@.len() == b@.len(),
            forall|k: int| 0 <= k < i ==> session_views(a@)[k] == session_views(b@)[k],
    {
        assert(session_views(a@)[i as int] == a@[i as int]@);
        assert(session_views(b@)[i as int] == b@[i as int]@);
        if !a[i].same(&b[i]) {
            return false;
        }
    }
    assert(session_views(a@) =~= session_views(b@));
    true
}

impl LiveView {
    /// This projection after a resize chord toward `side`, given the divider
    /// there, and the action it comes to. Without a focused pane or a divider
    /// it comes to nothing.
    pub open spec fn nudged(
        self,
        side: Side,
        divider: Option<(Divider, Option<u16>)>,
        now: Instant,
    ) -> (LiveView, Option<Action>) {
        match (self.screen.focused, divider) {
            (Some(_), Some((edge, share))) => (
                self.resizing(edge, share, ResizeSource::Keyboard, now),
                Some(
                    Action::ResizePane { pane: edge.pane, dir: edge.dir, delta: step_toward(side) },
                ),
            ),
            _ => (self, None),
        }
    }

    /// This projection once the focused directory was looked at, and the
    /// directory to ask about. Clearing the answer first keeps a slow old one
    /// from being shown for the new focus.
    pub open spec fn retargeted(self) -> (LiveView, Option<Seq<char>>) {
        if self.focused_cwd() == self.repository_target {
            (self, None)
        } else {
            (
                LiveView { repository_target: self.focused_cwd(), repository: None, ..self },
                self.focused_cwd(),
            )
        }
    }

    /// Whether an answer about `cwd` still names the focused pane's directory.
    pub open spec fn wants_answer(self, cwd: Seq<char>) -> bool {
        self.repository_target == Some(cwd) && self.focused_cwd() == Some(cwd)
    }
}

impl LiveState {
    /// Replaces the verified catalog and refreshes an open switcher by socket,
    /// reporting whether anything changed.
    pub fn refresh_sessions(&mut self, entries: Vec<CatalogEntry>, current: &SocketPath) -> (changed:
        bool)
        requires
            old(self).wf(),
        ensures
            final(self).wf(),
            changed == (session_rows(entries@, current@) != old(self)@.sessions),
            final(self)@ == if changed {
                old(self)@.catalogued(entries@, current@)
            } else {
                old(self)@
            },
    {
        let ghost rows = session_rows(entries@, current@);
        let mut next: Vec<SessionEntry> = Vec::new();
        assert(session_views(next@) =~= rows.take(0));
        for i in 0..entries.len()
            invariant
                rows == session_rows(entries@, current@),
                session_views(next@) == rows.take(i as int),
        {
            let ghost before = session_views(next@);
            let attached = entries[i].socket.same(current);
            let row = SessionEntry::new(
                entries[i].socket.clone(),
                entries[i].summary.clone(),
            ).attached(attached);
            assert(row@ =~= session_row(entries@[i as int], current@));
            next.push(row);
            assert(session_views(next@) =~= before.push(row@));
            assert(rows.take(i + 1) =~= rows.take(i as int).push(rows[i as int]));
        }
        assert(rows.take(entries@.len() as int) =~= rows);
        if same_sessions(&self.sessions, &next) {
            return false;
        }
        self.sessions = next;
        self.relist();
        assert(self@ =~= old(self)@.catalogued(entries@, current@));
        true
    }

    /// Refreshes an open switcher from the session rows.
    fn relist(&mut self)
        requires
            old(self).wf(),
        ensures
            final(self).wf(),
            final(self)@ == old(self)@.relisted(old(self)@.sessions),
    {
        let rows = copy_sessions(&self.sessions);
        match &mut self.overlay {
            Some(overlay) => {
                overlay.refresh_sessions(rows);
            },
            None => {},
        }
        assert(self@ =~= old(self)@.relisted(old(self)@.sessions));
    }

    /// Removes a switch target whose attach raced its disappearance.
    pub fn remove_session(&mut self, socket: &SocketPath)
        requires
            old(self).wf(),
        ensures
            final(self).wf(),
            final(self)@ == old(self)@.relisted(elsewhere(old(self)@.sessions, socket@)),
    {
        let ghost rows = session_views(self.sessions@);
        let mut kept: Vec<SessionEntry> = Vec::new();
        assert(session_views(kept@) =~= elsewhere(rows.take(0), socket@));
        for i in 0..self.sessions.len()
            invariant
                *self == *old(self),
                rows == session_views(self.sessions@),
                session_views(kept@) == elsewhere(rows.take(i as int), socket@),
        {
            assert(rows.take(i + 1).drop_last() =~= rows.take(i as int));
            assert(rows[i as int] == self.sessions@[i as int]@);
            if !self.sessions[i].socket().same(socket) {
                let ghost before = session_views(kept@);
                let entry = self.sessions[i].clone();
                kept.push(entry);
                assert(session_views(kept@) =~= before.push(entry@));
            }
        }
        assert(rows.take(rows.len() as int) =~= rows);
        self.sessions = kept;
        self.relist();
        assert(self@ =~= old(self)@.relisted(elsewhere(old(self)@.sessions, socket@)));
    }

    /// Whether the open overlay is the session switcher.
    pub fn session_switcher_open(&self) -> (open: bool)
        requires
            self.wf(),
        ensures
            open == (self@.overlay matches Some(overlay) && overlay.kind is Sessions),
    {
        match &self.overlay {
            Some(overlay) => match overlay.kind() {
                OverlayKind::Sessions(_) => true,
                _ => false,
            },
            None => false,
        }
    }

    /// The directory of the focused pane.
    pub fn focused_cwd(&self) -> (cwd: Option<String>)
        ensures
            text_view(cwd) == self@.focused_cwd(),
    {
        match &self.layout {
            Some(layout) => match layout.focused {
                Some(pane) => match self.panes.get(pane) {
                    Some(info) => Some(info.cwd.clone()),
                    None => None,
                },
                None => None,
            },
            None => None,
        }
    }

    /// Changes repository provenance only when the focused pane's reported
    /// directory changes, answering with the directory to ask about.
    pub fn refresh_repository_target(&mut self) -> (ask: Option<String>)
        requires
            old(self).wf(),
        ensures
            final(self).wf(),
            (final(self)@, text_view(ask)) == old(self)@.retargeted(),
    {
        let next = self.focused_cwd();
        let same = match (&next, &self.repository_target) {
            (Some(a), Some(b)) => same_text(a.as_str(), b.as_str()),
            (None, None) => true,
            _ => false,
        };
        if same {
            return None;
        }
        self.repository_target = crate::proto::copy_optional(&next);
        self.local_status.repository = None;
        next
    }

    /// Accepts only the answer still naming the focused pane's directory,
    /// reporting whether the frame changed.
    pub fn apply_repository(&mut self, cwd: &str, repository: Option<RepositoryStatus>) -> (changed:
        bool)
        requires
            old(self).wf(),
        ensures
            final(self).wf(),
            final(self)@ == if old(self)@.wants_answer(cwd@) {
                LiveView { repository: repository_view(repository), ..old(self)@ }
            } else {
                old(self)@
            },
            changed == (old(self)@.wants_answer(cwd@) && old(self)@.repository
                != repository_view(repository)),
    {
        let targeted = match &self.repository_target {
            Some(target) => same_text(target.as_str(), cwd),
            None => false,
        };
        let focused = match self.focused_cwd() {
            Some(directory) => same_text(directory.as_str(), cwd),
            None => false,
        };
        if !targeted || !focused {
            return false;
        }
        self.local_status.set_repository(repository)
    }

    /// Replaces the clock's reading, reporting whether the frame changed.
    pub fn refresh_clock(&mut self, clock: Option<String>) -> (changed: bool)
        requires
            old(self).wf(),
        ensures
            final(self).wf(),
            final(self)@ == (LiveView { clock: text_view(clock), ..old(self)@ }),
            changed == (old(self)@.clock != text_view(clock)),
    {
        self.local_status.set_clock(clock)
    }

    /// Records a launch this client has just put on the wire, with the panes
    /// that already exist.
    pub fn sent_launch(&mut self, request: &LaunchRequest, now: Instant)
        requires
            old(self).wf(),
            now.nanos + launch_deadline().nanos <= u64::MAX,
        ensures
            final(self).wf(),
            final(self)@ == (LiveView {
                launch: Some(
                    NoticeView {
                        profile: request@.profile,
                        before: known_panes(old(self)@.panes),
                        until: now.plus(launch_deadline()),
                        refused: false,
                    },
                ),
                ..old(self)@
            }),
    {
        let mut known: BTreeSet<u64> = BTreeSet::new();
        let list = self.panes.entries();
        proof {
            assert(named_panes(known@) =~= known_panes(self.panes@.take(0)));
        }
        for i in 0..list.len()
            invariant
                *self == *old(self),
                list@.len() == self.panes@.len(),
                forall|k: int|
                    0 <= k < list@.len() ==> (#[trigger] list@[k]).0 == self.panes@[k].0,
                named_panes(known@) == known_panes(self.panes@.take(i as int)),
        {
            let ghost upto = self.panes@.take(i + 1);
            let ghost earlier = self.panes@.take(i as int);
            let ghost before = known@;
            let _ = known.insert(list[i].0.0);
            assert forall|pane: PaneId| named_panes(known@).contains(pane) == known_panes(
                upto,
            ).contains(pane) by {
                assert(named_panes(before).contains(pane) == known_panes(earlier).contains(pane));
                if known_panes(earlier).contains(pane) {
                    let k = choose|k: int| 0 <= k < earlier.len() && (#[trigger] earlier[k]).0 == pane;
                    assert(upto[k].0 == pane);
                }
                if known_panes(upto).contains(pane) {
                    let k = choose|k: int| 0 <= k < upto.len() && (#[trigger] upto[k]).0 == pane;
                    if k < i {
                        assert(earlier[k].0 == pane);
                    }
                }
                if pane == list[i as int].0 {
                    assert(upto[i as int].0 == pane);
                }
            }
            assert(named_panes(known@) =~= known_panes(upto));
        }
        assert(self.panes@.take(self.panes@.len() as int) =~= self.panes@);
        self.launch = Some(LaunchNotice::sent(request, known, now));
    }

    /// Advances the launch notice's clock, reporting whether the frame changed.
    pub fn tick_launch(&mut self, now: Instant) -> (changed: bool)
        requires
            old(self).wf(),
            now.nanos + notice_linger().nanos <= u64::MAX,
        ensures
            final(self).wf(),
            (final(self)@, changed) == old(self)@.launch_ticked(now),
    {
        let mut over = false;
        let mut said = false;
        match &mut self.launch {
            Some(notice) => {
                said = notice.settle(now);
                if !said {
                    over = notice.finished(now);
                }
            },
            None => {},
        }
        if over {
            self.launch = None;
        }
        said || over
    }

    /// Advances the toast stack's own clock, reporting whether the frame
    /// changed.
    pub fn tick_toasts(&mut self, now: Instant) -> (changed: bool)
        requires
            old(self).wf(),
        ensures
            final(self).wf(),
            final(self)@ == (LiveView {
                toasts: DeckView {
                    toasts: all_ticked(unexpired(old(self)@.toasts.toasts, now), now),
                    ..old(self)@.toasts
                },
                ..old(self)@
            }),
            changed == (unexpired(old(self)@.toasts.toasts, now).len()
                != old(self)@.toasts.toasts.len() || any_advances(
                unexpired(old(self)@.toasts.toasts, now),
                now,
            )),
    {
        self.toasts.tick(now)
    }

    /// Resolves a resize chord against the focused pane's drawn edge, given the
    /// divider toward that side and the share it leaves. An outer edge has no
    /// divider, and so no action.
    pub fn keyboard_resize(
        &mut self,
        side: Side,
        divider: Option<(Divider, Option<u16>)>,
        now: Instant,
    ) -> (action: Option<Action>)
        requires
            old(self).wf(),
            now.nanos + keyboard_resize_linger().nanos <= u64::MAX,
        ensures
            final(self).wf(),
            (final(self)@, action) == old(self)@.nudged(side, divider, now),
    {
        if self.screen.focused.is_none() {
            return None;
        }
        match divider {
            Some((edge, share)) => {
                self.begin_resize(edge, share, ResizeSource::Keyboard, now);
                Some(
                    Action::ResizePane { pane: edge.pane, dir: edge.dir, delta: step_toward(side) },
                )
            },
            None => None,
        }
    }

    /// Shows a divider being moved.
    fn begin_resize(&mut self, divider: Divider, share: Option<u16>, source: ResizeSource, now: Instant)
        requires
            old(self).wf(),
            now.nanos + keyboard_resize_linger().nanos <= u64::MAX,
        ensures
            final(self).wf(),
            final(self)@ == old(self)@.resizing(divider, share, source, now),
    {
        let measured: u16 = match share {
            Some(found) => found,
            None => 50,
        };
        let until = match source {
            ResizeSource::Keyboard => Some(now.plus(keyboard_resize_linger())),
            ResizeSource::Mouse => None,
        };
        self.resize = Some(ResizeActivity { divider, share: measured, source, until });
    }

    /// Follows a mouse drag: the divider it holds is shown, and letting go of
    /// it ends what the mouse began.
    pub fn sync_mouse_resize(&mut self, divider: Option<(Divider, Option<u16>)>, now: Instant)
        requires
            old(self).wf(),
            now.nanos + keyboard_resize_linger().nanos <= u64::MAX,
        ensures
            final(self).wf(),
            final(self)@ == match divider {
                Some((edge, share)) => old(self)@.resizing(edge, share, ResizeSource::Mouse, now),
                None => if old(self)@.resize matches Some(resize) && resize.source
                    == ResizeSource::Mouse {
                    LiveView { resize: None, ..old(self)@ }
                } else {
                    old(self)@
                },
            },
    {
        match divider {
            Some((edge, share)) => {
                self.begin_resize(edge, share, ResizeSource::Mouse, now);
            },
            None => match self.resize {
                Some(resize) => match resize.source {
                    ResizeSource::Mouse => {
                        self.resize = None;
                    },
                    ResizeSource::Keyboard => {},
                },
                None => {},
            },
        }
    }

    /// Follows a moved divider through a new layout, given the share it leaves
    /// there, or `None` where it is gone.
    pub fn refresh_resize_ratio(&mut self, share: Option<u16>, now: Instant)
        requires
            old(self).wf(),
            now.nanos + keyboard_resize_linger().nanos <= u64::MAX,
        ensures
            final(self).wf(),
            final(self)@ == old(self)@.remeasured(share, now),
    {
        match self.resize {
            None => {},
            Some(resize) => match share {
                Some(measured) => {
                    let until = match resize.source {
                        ResizeSource::Keyboard => Some(now.plus(keyboard_resize_linger())),
                        ResizeSource::Mouse => resize.until,
                    };
                    self.resize = Some(
                        ResizeActivity {
                            divider: resize.divider,
                            share: measured,
                            source: resize.source,
                            until,
                        },
                    );
                },
                None => {
                    self.resize = None;
                },
            },
        }
    }

    /// Stops showing a moved divider, reporting whether one was shown.
    pub fn clear_resize(&mut self) -> (shown: bool)
        requires
            old(self).wf(),
        ensures
            final(self).wf(),
            final(self)@ == (LiveView { resize: None, ..old(self)@ }),
            shown == (old(self)@.resize is Some),
    {
        let shown = self.resize.is_some();
        self.resize = None;
        shown
    }

    /// Stops showing a keyboard resize whose time has passed.
    pub fn tick_resize(&mut self, now: Instant) -> (changed: bool)
        requires
            old(self).wf(),
        ensures
            final(self).wf(),
            changed == old(self)@.resize_over(now),
            final(self)@ == if changed {
                LiveView { resize: None, ..old(self)@ }
            } else {
                old(self)@
            },
    {
        let over = match self.resize {
            Some(resize) => match resize.until {
                Some(until) => now.reached(until),
                None => false,
            },
            None => false,
        };
        if over {
            return self.clear_resize();
        }
        false
    }
}

/// An answer for a directory that is no longer the focused pane's is dropped.
pub proof fn a_stale_answer_is_dropped(state: LiveView, cwd: Seq<char>)
    requires
        state.focused_cwd() != Some(cwd),
    ensures
        !state.wants_answer(cwd),
{
}

/// A launch that was never answered turns into a refusal once, and the refusal
/// leaves once its linger is over.
pub proof fn a_silent_launch_is_said_and_then_leaves(state: LiveView, first: Instant, later: Instant)
    requires
        state.launch matches Some(notice) && !notice.refused && first.reached(notice.until),
        later.reached(first.plus(notice_linger())),
    ensures
        state.launch_ticked(first).0.launch matches Some(notice) && notice.refused,
        state.launch_ticked(first).1,
        state.launch_ticked(first).0.launch_ticked(later).0.launch is None,
        state.launch_ticked(first).0.launch_ticked(later).1,
{
}

} // verus!
