//! Launching a pane from a configured profile, and saying what came of it.

use std::collections::BTreeSet;

use vstd::prelude::*;

use crate::proto::{Cell, CellAttrs, PaneId, PaneInfo, Point};
use crate::renderer::{Span, SpanView};
use crate::rows::{field, row_cells, row_line, Field, RowSpec, RowView};
use crate::text::{chars_of, push_all, same_text, string_of};
use crate::theme::{Theme, ThemeToken};
use crate::time::{Duration, Instant};

verus! {

/// What a profile launches.
#[derive(Debug, PartialEq, Eq)]
pub enum ProfileCommand {
    /// The user's login shell.
    LoginShell,
    /// One program and its arguments.
    Program { program: String, args: Vec<String> },
}

/// A profile the configuration defines, and whether it stood up to validation.
#[derive(Debug, PartialEq, Eq)]
pub struct Profile {
    pub id: String,
    pub default_name: String,
    pub command: ProfileCommand,
    /// Whether the server could run it.
    pub valid: bool,
}

/// `words` joined by single spaces, `first` leading them.
pub open spec fn joined(first: Seq<char>, words: Seq<String>) -> Seq<char>
    decreases words.len(),
{
    if words.len() == 0 {
        first
    } else {
        joined(first, words.drop_last()).push(' ') + words.last()@
    }
}

/// What a profile launches, as one line of text.
pub open spec fn summary_of(command: ProfileCommand) -> Seq<char> {
    match command {
        ProfileCommand::LoginShell => "login shell"@,
        ProfileCommand::Program { program, args } => joined(program@, args@),
    }
}

/// What a profile launches, as one line of muted text.
pub fn command_summary(command: &ProfileCommand) -> (text: String)
    ensures
        text@ == summary_of(*command),
{
    match command {
        ProfileCommand::LoginShell => "login shell".to_owned(),
        ProfileCommand::Program { program, args } => {
            let mut chars = chars_of(program.as_str());
            assert(args@.take(0) =~= Seq::<String>::empty());
            for i in 0..args.len()
                invariant
                    chars@ == joined(program@, args@.take(i as int)),
            {
                assert(args@.take(i + 1).drop_last() =~= args@.take(i as int));
                chars.push(' ');
                push_all(&mut chars, chars_of(args[i].as_str()).as_slice());
            }
            assert(args@.take(args@.len() as int) =~= args@);
            string_of(chars.as_slice())
        },
    }
}

/// One profile the launcher can start a pane from.
///
/// A row is made from a [`Profile`] and from nothing else, so it always names a
/// profile the configuration defines.
#[derive(Debug, PartialEq, Eq)]
pub struct ProfileEntry {
    profile: String,
    default_name: String,
    command: String,
}

/// A launcher row by its contents.
#[verifier::ext_equal]
pub struct ProfileEntryView {
    pub profile: Seq<char>,
    pub default_name: Seq<char>,
    pub command: Seq<char>,
}

impl View for ProfileEntry {
    type V = ProfileEntryView;

    closed spec fn view(&self) -> ProfileEntryView {
        ProfileEntryView {
            profile: self.profile@,
            default_name: self.default_name@,
            command: self.command@,
        }
    }
}

/// Launcher rows by their contents.
pub open spec fn profile_views(entries: Seq<ProfileEntry>) -> Seq<ProfileEntryView> {
    entries.map_values(|entry: ProfileEntry| entry@)
}

/// The row of one profile.
pub open spec fn profile_entry(profile: Profile) -> ProfileEntryView {
    ProfileEntryView {
        profile: profile.id@,
        default_name: profile.default_name@,
        command: summary_of(profile.command),
    }
}

/// The rows of the profiles that validate, in order.
pub open spec fn launchable(profiles: Seq<Profile>) -> Seq<ProfileEntryView>
    decreases profiles.len(),
{
    if profiles.len() == 0 {
        seq![]
    } else {
        let rest = launchable(profiles.drop_last());
        if profiles.last().valid {
            rest.push(profile_entry(profiles.last()))
        } else {
            rest
        }
    }
}

impl ProfileEntry {
    /// Describes one profile for the launcher; nothing for a profile that does
    /// not validate, because a row must name something the server could launch.
    pub fn new(profile: &Profile) -> (entry: Option<ProfileEntry>)
        ensures
            entry is Some <==> profile.valid,
            entry matches Some(made) ==> made@ == profile_entry(*profile),
    {
        if !profile.valid {
            return None;
        }
        Some(
            ProfileEntry {
                profile: profile.id.clone(),
                default_name: profile.default_name.clone(),
                command: command_summary(&profile.command),
            },
        )
    }

    /// The profile's ID, which is what a launch names.
    pub fn profile(&self) -> (profile: &str)
        ensures
            profile@ == self@.profile,
    {
        self.profile.as_str()
    }

    /// The pane name this profile gives a pane the user does not name.
    pub fn default_name(&self) -> (name: &str)
        ensures
            name@ == self@.default_name,
    {
        self.default_name.as_str()
    }

    /// A one-line rendering of what the profile runs.
    pub fn command(&self) -> (command: &str)
        ensures
            command@ == self@.command,
    {
        self.command.as_str()
    }

    /// What launching this row names.
    pub fn request(&self) -> (request: LaunchRequest)
        ensures
            request@ == (RequestView {
                profile: self@.profile,
                default_name: self@.default_name,
            }),
    {
        LaunchRequest { profile: self.profile.clone(), default_name: self.default_name.clone() }
    }
}

impl Clone for ProfileEntry {
    fn clone(&self) -> (copy: ProfileEntry)
        ensures
            copy == *self,
    {
        ProfileEntry {
            profile: self.profile.clone(),
            default_name: self.default_name.clone(),
            command: self.command.clone(),
        }
    }
}

/// The launcher's rows over the configured profiles.
pub fn profile_entries(profiles: &[Profile]) -> (entries: Vec<ProfileEntry>)
    ensures
        profile_views(entries@) == launchable(profiles@),
{
    let mut entries: Vec<ProfileEntry> = Vec::new();
    assert(profile_views(entries@) =~= Seq::<ProfileEntryView>::empty());
    assert(profiles@.take(0) =~= Seq::<Profile>::empty());
    for i in 0..profiles.len()
        invariant
            profile_views(entries@) == launchable(profiles@.take(i as int)),
    {
        assert(profiles@.take(i + 1).drop_last() =~= profiles@.take(i as int));
        match ProfileEntry::new(&profiles[i]) {
            Some(entry) => {
                let ghost before = profile_views(entries@);
                entries.push(entry);
                assert(profile_views(entries@) =~= before.push(entry@));
            },
            None => {},
        }
    }
    assert(profiles@.take(profiles@.len() as int) =~= profiles@);
    entries
}

/// Every launcher row is the row of a profile that was supplied and validates.
pub proof fn every_row_comes_from_a_profile(profiles: Seq<Profile>, i: int) -> (at: int)
    requires
        0 <= i < launchable(profiles).len(),
    ensures
        0 <= at < profiles.len(),
        profiles[at].valid,
        launchable(profiles)[i] == profile_entry(profiles[at]),
    decreases profiles.len(),
{
    let rest = launchable(profiles.drop_last());
    if i < rest.len() {
        every_row_comes_from_a_profile(profiles.drop_last(), i)
    } else {
        profiles.len() - 1
    }
}

/// What a launch names: a profile, and never a command.
#[derive(Debug, PartialEq, Eq)]
pub struct LaunchRequest {
    profile: String,
    default_name: String,
}

/// A launch request by its contents.
#[verifier::ext_equal]
pub struct RequestView {
    pub profile: Seq<char>,
    pub default_name: Seq<char>,
}

impl View for LaunchRequest {
    type V = RequestView;

    closed spec fn view(&self) -> RequestView {
        RequestView { profile: self.profile@, default_name: self.default_name@ }
    }
}

impl Clone for LaunchRequest {
    fn clone(&self) -> (copy: LaunchRequest)
        ensures
            copy == *self,
    {
        LaunchRequest { profile: self.profile.clone(), default_name: self.default_name.clone() }
    }
}

impl LaunchRequest {
    /// The profile to launch.
    pub fn profile(&self) -> (profile: &str)
        ensures
            profile@ == self@.profile,
    {
        self.profile.as_str()
    }

    /// The pane name that profile supplies when the user names nothing.
    pub fn default_name(&self) -> (name: &str)
        ensures
            name@ == self@.default_name,
    {
        self.default_name.as_str()
    }
}

/// How long a sent launch has to produce its pane, in seconds.
pub const LAUNCH_DEADLINE_SECS: u64 = 2;

/// How long a refusal stays on the status row once it is shown, in seconds.
pub const NOTICE_LINGER_SECS: u64 = 4;

/// How long a sent launch has to produce its pane before the client says it
/// did not.
#[verifier::allow_in_spec]
pub fn launch_deadline() -> Duration
    returns
        (Duration { nanos: 2_000_000_000 }),
{
    Duration::from_secs(LAUNCH_DEADLINE_SECS)
}

/// How long a refusal stays on the status row once it is shown.
#[verifier::allow_in_spec]
pub fn notice_linger() -> Duration
    returns
        (Duration { nanos: 4_000_000_000 }),
{
    Duration::from_secs(NOTICE_LINGER_SECS)
}

/// What the client last asked the workspace to launch, and what came of it.
///
/// A server refuses an unknown profile in silence, so the notice remembers
/// which panes existed when this client sent the request: a pane it has not
/// seen before carrying that profile is the launch arriving, and silence past
/// the deadline is the other answer.
#[derive(Debug, PartialEq, Eq)]
pub struct LaunchNotice {
    profile: String,
    /// The panes that already existed when the request went out.
    before: BTreeSet<u64>,
    /// When the current state stops holding: the launch deadline while waiting,
    /// the linger once refused.
    until: Instant,
    refused: bool,
}

/// The panes with the given identifiers.
pub open spec fn named_panes(identifiers: Set<u64>) -> Set<PaneId> {
    Set::new(|pane: PaneId| identifiers.contains(pane.0))
}

/// A notice by its contents.
#[verifier::ext_equal]
pub struct NoticeView {
    pub profile: Seq<char>,
    pub before: Set<PaneId>,
    pub until: Instant,
    pub refused: bool,
}

impl View for LaunchNotice {
    type V = NoticeView;

    closed spec fn view(&self) -> NoticeView {
        NoticeView {
            profile: self.profile@,
            before: named_panes(self.before@),
            until: self.until,
            refused: self.refused,
        }
    }
}

impl NoticeView {
    /// Whether a pane is the one this launch asked for: not seen before, and
    /// carrying the profile it named.
    pub open spec fn answered_by(self, info: PaneInfo) -> bool {
        info.profile@ == self.profile && !self.before.contains(info.pane)
    }

    /// This notice once `now` was noticed.
    pub open spec fn settled(self, now: Instant) -> NoticeView {
        if self.refused || !now.reached(self.until) {
            self
        } else {
            NoticeView { refused: true, until: now.plus(notice_linger()), ..self }
        }
    }

    /// The one line the status row draws.
    pub open spec fn text(self) -> Seq<char> {
        if self.refused {
            self.profile + " did not start"@
        } else {
            "launching "@ + self.profile
        }
    }
}

impl LaunchNotice {
    /// Records a launch this client has just sent, beside the identifiers of the
    /// panes that already exist.
    pub fn sent(request: &LaunchRequest, before: BTreeSet<u64>, now: Instant) -> (notice:
        LaunchNotice)
        requires
            now.nanos + launch_deadline().nanos <= u64::MAX,
        ensures
            notice@ == (NoticeView {
                profile: request@.profile,
                before: named_panes(before@),
                until: now.plus(launch_deadline()),
                refused: false,
            }),
    {
        LaunchNotice {
            profile: request.profile.clone(),
            before,
            until: now.plus(launch_deadline()),
            refused: false,
        }
    }

    /// The profile the launch named.
    pub fn profile(&self) -> (profile: &str)
        ensures
            profile@ == self@.profile,
    {
        self.profile.as_str()
    }

    /// Whether the deadline has already turned this into a refusal.
    pub fn refused(&self) -> (refused: bool)
        ensures
            refused == self@.refused,
    {
        self.refused
    }

    /// Whether `pane` existed when the request went out.
    fn known(&self, pane: PaneId) -> (known: bool)
        ensures
            known == self@.before.contains(pane),
    {
        self.before.contains(&pane.0)
    }

    /// Whether `panes` holds the pane this launch asked for.
    pub fn arrived(&self, panes: &[PaneInfo]) -> (arrived: bool)
        ensures
            arrived == exists|i: int|
                0 <= i < panes@.len() && self@.answered_by(#[trigger] panes@[i]),
    {
        for i in 0..panes.len()
            invariant
                forall|k: int| 0 <= k < i ==> !self@.answered_by(#[trigger] panes@[k]),
        {
            if same_text(panes[i].profile.as_str(), self.profile.as_str()) && !self.known(
                panes[i].pane,
            ) {
                assert(self@.answered_by(panes@[i as int]));
                return true;
            }
        }
        false
    }

    /// Turns a waiting notice whose deadline has passed into a refusal,
    /// reporting whether the notice now says something different.
    pub fn settle(&mut self, now: Instant) -> (changed: bool)
        requires
            now.nanos + notice_linger().nanos <= u64::MAX,
        ensures
            final(self)@ == old(self)@.settled(now),
            changed == (!old(self)@.refused && now.reached(old(self)@.until)),
    {
        if self.refused || !now.reached(self.until) {
            return false;
        }
        self.refused = true;
        self.until = now.plus(notice_linger());
        true
    }

    /// Whether the notice has finished saying what it had to say.
    pub fn finished(&self, now: Instant) -> (finished: bool)
        ensures
            finished == (self@.refused && now.reached(self@.until)),
    {
        self.refused && now.reached(self.until)
    }

    /// When the current state stops holding.
    pub fn until(&self) -> (until: Instant)
        ensures
            until == self@.until,
    {
        self.until
    }

    /// The one line the status row draws, in the user's words.
    pub fn text(&self) -> (text: String)
        ensures
            text@ == self@.text(),
    {
        let mut chars: Vec<char> = Vec::new();
        if self.refused {
            push_all(&mut chars, chars_of(self.profile.as_str()).as_slice());
            push_all(&mut chars, chars_of(" did not start").as_slice());
        } else {
            push_all(&mut chars, chars_of("launching ").as_slice());
            push_all(&mut chars, chars_of(self.profile.as_str()).as_slice());
        }
        assert(chars@ =~= self@.text());
        string_of(chars.as_slice())
    }
}

/// A pane that was already there when a launch went out never answers for it,
/// nor does a pane of another profile.
pub proof fn only_its_own_pane_answers(notice: NoticeView, info: PaneInfo)
    requires
        notice.before.contains(info.pane) || info.profile@ != notice.profile,
    ensures
        !notice.answered_by(info),
{
}

/// A refusal settles once: it says nothing new until it has finished.
pub proof fn a_refusal_settles_once(notice: NoticeView, first: Instant, later: Instant)
    requires
        !notice.refused,
        first.reached(notice.until),
    ensures
        notice.settled(first).refused,
        notice.settled(first).settled(later) == notice.settled(first),
{
}

/// The launch notice row before it is fitted to a width.
pub open spec fn notice_row(notice: NoticeView, theme: Theme) -> RowView {
    RowView {
        selected: false,
        lead: field("launch"@, theme.muted, CellAttrs::none()),
        title: field(
            notice.text(),
            if notice.refused {
                theme.warning
            } else {
                theme.info
            },
            CellAttrs::bold(),
        ),
        extras: seq![],
    }
}

/// Builds the launch notice row, exactly `width` cells wide.
///
/// A refusal is carried by its words as well as the colour.
pub fn launch_notice_cells(notice: &LaunchNotice, width: u16, theme: Theme) -> (cells: Vec<Cell>)
    ensures
        cells@ == row_line(notice_row(notice@, theme), width as nat, theme),
        cells@.len() == width,
{
    let tone = if notice.refused() {
        ThemeToken::Warning
    } else {
        ThemeToken::Info
    };
    let row = RowSpec {
        selected: false,
        lead: Field::new("launch", theme.color(ThemeToken::Muted), CellAttrs::none()),
        title: Field::new(notice.text().as_str(), theme.color(tone), CellAttrs::bold()),
        extras: Vec::new(),
    };
    assert(row@ =~= notice_row(notice@, theme));
    row_cells(&row, width, theme)
}

/// The launch notice as a positioned span.
pub fn launch_notice_span(at: Point, notice: &LaunchNotice, width: u16, theme: Theme) -> (span: Span)
    ensures
        span@ == (SpanView { at, cells: row_line(notice_row(notice@, theme), width as nat, theme) }),
{
    Span::new(at, launch_notice_cells(notice, width, theme))
}

} // verus!
