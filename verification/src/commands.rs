//! The command palette: the effective key bindings and the client's own
//! surfaces, as one searchable list.

use vstd::prelude::*;

use crate::keymap::{bound, first_bound, Binding, Key, Keymap};
use crate::proto::Action;
use crate::text::{chars_of, contains_chars, occurs, push_all, string_of};

verus! {

/// The chord that opens the command palette, when the keymap leaves it free.
pub const HELP_KEY: char = '?';

/// The chord that opens the focused pane's details.
pub const DETAILS_KEY: char = 'i';

/// The chord that opens the session surface.
pub const SESSIONS_KEY: char = 's';

/// The chord that opens the profile launcher.
pub const ADD_PANE_KEY: char = 'a';

/// The chord that opens the attention queue: the glyph its count already wears.
pub const ATTENTION_KEY: char = '!';

/// The chord that opens the runtime configuration and theme preview.
pub const CONFIG_KEY: char = ',';

/// The bound actions the palette lists, in the order an empty query lists them.
pub const PALETTE_ACTIONS: [Action; 14] = [
    Action::SplitVertical,
    Action::SplitHorizontal,
    Action::ClosePane,
    Action::FocusLeft,
    Action::FocusDown,
    Action::FocusUp,
    Action::FocusRight,
    Action::ToggleZoom,
    Action::NewTab,
    Action::NextTab,
    Action::PrevTab,
    Action::CloseTab,
    Action::EnterCopyMode,
    Action::DetachClient,
];

/// What the palette calls each of those actions.
pub const PALETTE_LABELS: [&'static str; 14] = [
    "split right",
    "split down",
    "close pane",
    "focus left",
    "focus down",
    "focus up",
    "focus right",
    "zoom pane",
    "new tab",
    "next tab",
    "previous tab",
    "close tab",
    "copy mode",
    "detach",
];

/// A surface the client owns outright, which the palette can open.
#[derive(Clone, Copy, Debug, PartialEq, Eq, Structural)]
pub enum ClientSurface {
    /// The profile launcher.
    Launcher,
    /// The session switcher.
    Sessions,
    /// The attention queue.
    Attention,
    /// The focused pane's details.
    Details,
    /// The effective runtime configuration and its live theme preview.
    Config,
}

/// The client's own surfaces, in the order an empty query lists them.
pub const PALETTE_SURFACES: [ClientSurface; 5] = [
    ClientSurface::Launcher,
    ClientSurface::Sessions,
    ClientSurface::Attention,
    ClientSurface::Details,
    ClientSurface::Config,
];

/// The surface a chord opens, if it opens one.
pub open spec fn surface_for(key: char) -> Option<ClientSurface> {
    if key == ADD_PANE_KEY {
        Some(ClientSurface::Launcher)
    } else if key == SESSIONS_KEY {
        Some(ClientSurface::Sessions)
    } else if key == ATTENTION_KEY {
        Some(ClientSurface::Attention)
    } else if key == DETAILS_KEY {
        Some(ClientSurface::Details)
    } else if key == CONFIG_KEY {
        Some(ClientSurface::Config)
    } else {
        None
    }
}

impl ClientSurface {
    /// The chord that opens it directly, when the keymap leaves that key free.
    #[verifier::allow_in_spec]
    pub fn key(self) -> char
        returns
            (match self {
                ClientSurface::Launcher => ADD_PANE_KEY,
                ClientSurface::Sessions => SESSIONS_KEY,
                ClientSurface::Attention => ATTENTION_KEY,
                ClientSurface::Details => DETAILS_KEY,
                ClientSurface::Config => CONFIG_KEY,
            }),
    {
        match self {
            ClientSurface::Launcher => ADD_PANE_KEY,
            ClientSurface::Sessions => SESSIONS_KEY,
            ClientSurface::Attention => ATTENTION_KEY,
            ClientSurface::Details => DETAILS_KEY,
            ClientSurface::Config => CONFIG_KEY,
        }
    }

    /// The surface a client-local chord opens, if it opens one.
    pub fn from_key(key: char) -> (surface: Option<ClientSurface>)
        ensures
            surface == surface_for(key),
            match surface {
                Some(found) => found.key() == key,
                None => forall|other: ClientSurface| (#[trigger] other.key()) != key,
            },
    {
        if key == ADD_PANE_KEY {
            Some(ClientSurface::Launcher)
        } else if key == SESSIONS_KEY {
            Some(ClientSurface::Sessions)
        } else if key == ATTENTION_KEY {
            Some(ClientSurface::Attention)
        } else if key == DETAILS_KEY {
            Some(ClientSurface::Details)
        } else if key == CONFIG_KEY {
            Some(ClientSurface::Config)
        } else {
            None
        }
    }

    /// The words [`label`](ClientSurface::label) answers with.
    pub open spec fn words(self) -> Seq<char> {
        match self {
            ClientSurface::Launcher => "add pane"@,
            ClientSurface::Sessions => "sessions"@,
            ClientSurface::Attention => "attention queue"@,
            ClientSurface::Details => "pane details"@,
            ClientSurface::Config => "configuration"@,
        }
    }

    /// What the palette calls it, in the user's words.
    pub fn label(self) -> (label: &'static str)
        ensures
            label@ == self.words(),
    {
        match self {
            ClientSurface::Launcher => "add pane",
            ClientSurface::Sessions => "sessions",
            ClientSurface::Attention => "attention queue",
            ClientSurface::Details => "pane details",
            ClientSurface::Config => "configuration",
        }
    }
}

/// No two surfaces share a chord, so a chord names one surface at most.
pub proof fn surfaces_have_their_own_chords(a: ClientSurface, b: ClientSurface)
    requires
        a.key() == b.key(),
    ensures
        a == b,
{
}

/// What confirming one palette row means: an action the server already
/// understands, or a surface that never leaves the client. There is no place
/// here for anything the user typed.
#[derive(Debug, PartialEq, Eq)]
pub enum CommandOutcome {
    /// Send this action, exactly as the bound chord would have.
    Run(Action),
    /// Open this client-local surface instead.
    Open(ClientSurface),
}

impl Clone for CommandOutcome {
    fn clone(&self) -> (copy: CommandOutcome)
        ensures
            copy == *self,
    {
        match self {
            CommandOutcome::Run(action) => CommandOutcome::Run(action.clone()),
            CommandOutcome::Open(surface) => CommandOutcome::Open(*surface),
        }
    }
}

// Searching.

/// Whether `ch` has the Unicode `White_Space` property.
pub open spec fn is_white_space(ch: char) -> bool {
    let code = ch as u32;
    ||| 0x09 <= code <= 0x0d
    ||| code == 0x20
    ||| code == 0x85
    ||| code == 0xa0
    ||| code == 0x1680
    ||| 0x2000 <= code <= 0x200a
    ||| code == 0x2028
    ||| code == 0x2029
    ||| code == 0x202f
    ||| code == 0x205f
    ||| code == 0x3000
}

fn white_space(ch: char) -> (answer: bool)
    ensures
        answer == is_white_space(ch),
{
    let code: u32 = ch as u32;
    (0x09 <= code && code <= 0x0d) || code == 0x20 || code == 0x85 || code == 0xa0 || code == 0x1680
        || (0x2000 <= code && code <= 0x200a) || code == 0x2028 || code == 0x2029 || code == 0x202f
        || code == 0x205f || code == 0x3000
}

/// `text` read into whitespace-separated terms: those that are complete, and
/// the one still being read.
pub open spec fn read_terms(text: Seq<char>) -> (Seq<Seq<char>>, Seq<char>)
    decreases text.len(),
{
    if text.len() == 0 {
        (seq![], seq![])
    } else {
        let (done, current) = read_terms(text.drop_last());
        if !is_white_space(text.last()) {
            (done, current.push(text.last()))
        } else if current.len() > 0 {
            (done.push(current), seq![])
        } else {
            (done, seq![])
        }
    }
}

/// The whitespace-separated terms of `text`.
pub open spec fn terms(text: Seq<char>) -> Seq<Seq<char>> {
    let (done, current) = read_terms(text);
    if current.len() > 0 {
        done.push(current)
    } else {
        done
    }
}

/// Terms by their characters.
pub open spec fn term_views(parts: Seq<Vec<char>>) -> Seq<Seq<char>> {
    parts.map_values(|part: Vec<char>| part@)
}

/// Splits `text` into its whitespace-separated terms.
pub fn split_terms(text: &str) -> (parts: Vec<Vec<char>>)
    ensures
        term_views(parts@) == terms(text@),
{
    let chars = chars_of(text);
    let mut done: Vec<Vec<char>> = Vec::new();
    let mut current: Vec<char> = Vec::new();
    assert(term_views(done@) =~= Seq::<Seq<char>>::empty());
    for i in 0..chars.len()
        invariant
            chars@ == text@,
            term_views(done@) == read_terms(text@.take(i as int)).0,
            current@ == read_terms(text@.take(i as int)).1,
    {
        let ghost next = text@.take(i + 1);
        assert(next.drop_last() =~= text@.take(i as int));
        if !white_space(chars[i]) {
            current.push(chars[i]);
        } else if current.len() > 0 {
            let ghost before = term_views(done@);
            done.push(current);
            assert(term_views(done@) =~= before.push(current@));
            current = Vec::new();
        }
    }
    assert(text@.take(text@.len() as int) =~= text@);
    if current.len() > 0 {
        let ghost before = term_views(done@);
        done.push(current);
        assert(term_views(done@) =~= before.push(current@));
    }
    done
}

/// `text` folded to lower case, as `str::to_lowercase` folds it.
pub uninterp spec fn lowercase(text: Seq<char>) -> Seq<char>;

/// Folds `text` to lower case. Contract for `str::to_lowercase`, whose result
/// is a function of the text alone: the Unicode lower-case mapping of it. What
/// that mapping is on given characters is left unsaid.
pub assume_specification[ str::to_lowercase ](text: &str) -> (lower: String)
    ensures
        lower@ == lowercase(text@),
;

/// Each of `parts` folded to lower case.
pub open spec fn lowered(parts: Seq<Seq<char>>) -> Seq<Seq<char>> {
    parts.map_values(|part: Seq<char>| lowercase(part))
}

/// Whether every one of `parts` occurs in `haystack`.
pub open spec fn holds_all(haystack: Seq<char>, parts: Seq<Seq<char>>) -> bool {
    forall|i: int| 0 <= i < parts.len() ==> occurs(haystack, #[trigger] parts[i])
}

/// Whether every one of `parts` occurs in `haystack`.
pub fn holds_every_term(haystack: &str, parts: &Vec<Vec<char>>) -> (all: bool)
    ensures
        all == holds_all(haystack@, term_views(parts@)),
{
    let hay = chars_of(haystack);
    for i in 0..parts.len()
        invariant
            hay@ == haystack@,
            forall|k: int| 0 <= k < i ==> occurs(haystack@, #[trigger] term_views(parts@)[k]),
    {
        if !contains_chars(hay.as_slice(), parts[i].as_slice()) {
            assert(!occurs(haystack@, term_views(parts@)[i as int]));
            return false;
        }
        assert(occurs(haystack@, term_views(parts@)[i as int]));
    }
    true
}

/// Whether every whitespace-separated term of `query` occurs in `haystack`,
/// case aside.
pub open spec fn found(haystack: Seq<char>, query: Seq<char>) -> bool {
    holds_all(haystack, lowered(terms(query)))
}

/// The lower-case terms of `query`.
fn lower_terms(query: &str) -> (parts: Vec<Vec<char>>)
    ensures
        term_views(parts@) == lowered(terms(query@)),
{
    let split = split_terms(query);
    let mut parts: Vec<Vec<char>> = Vec::new();
    assert(term_views(parts@) =~= lowered(terms(query@)).take(0));
    for i in 0..split.len()
        invariant
            term_views(split@) == terms(query@),
            term_views(parts@) == lowered(terms(query@)).take(i as int),
    {
        let word = string_of(split[i].as_slice());
        assert(word@ == term_views(split@)[i as int]);
        let lower = word.as_str().to_lowercase();
        let chars = chars_of(lower.as_str());
        let ghost before = term_views(parts@);
        parts.push(chars);
        assert(term_views(parts@) =~= before.push(chars@));
        assert(lowered(terms(query@)).take(i + 1) =~= lowered(terms(query@)).take(i as int).push(
            lowercase(terms(query@)[i as int]),
        ));
    }
    assert(lowered(terms(query@)).take(split@.len() as int) =~= lowered(terms(query@)));
    parts
}

/// An empty query finds every row.
pub proof fn an_empty_query_finds_everything(haystack: Seq<char>)
    ensures
        found(haystack, seq![]),
{
}

/// The order of a query's terms does not matter, nor what whitespace parts
/// them: two queries of the same terms find the same rows.
pub proof fn terms_are_found_in_any_order(haystack: Seq<char>, a: Seq<char>, b: Seq<char>)
    requires
        forall|term: Seq<char>| terms(a).contains(term) <==> terms(b).contains(term),
    ensures
        found(haystack, a) == found(haystack, b),
{
    found_in_any_order(haystack, a, b);
    found_in_any_order(haystack, b, a);
}

proof fn found_in_any_order(haystack: Seq<char>, a: Seq<char>, b: Seq<char>)
    requires
        forall|term: Seq<char>| terms(a).contains(term) <==> terms(b).contains(term),
    ensures
        found(haystack, a) ==> found(haystack, b),
{
    if found(haystack, a) {
        assert forall|i: int| 0 <= i < lowered(terms(b)).len() implies occurs(
            haystack,
            #[trigger] lowered(terms(b))[i],
        ) by {
            assert(terms(b).contains(terms(b)[i]));
            assert(terms(a).contains(terms(b)[i]));
            let k = choose|k: int| 0 <= k < terms(a).len() && terms(a)[k] == terms(b)[i];
            assert(lowered(terms(a))[k] == lowercase(terms(b)[i]));
        }
    }
}

/// A longer query narrows: adding a term behind whitespace finds only rows that
/// were found without it.
pub proof fn another_term_narrows(haystack: Seq<char>, query: Seq<char>, space: char, more: Seq<char>)
    requires
        is_white_space(space),
        found(haystack, query.push(space) + more),
    ensures
        found(haystack, query),
{
    later_terms_keep_earlier(query.push(space), more);
    assert(query.push(space).drop_last() =~= query);
    let longer = terms(query.push(space) + more);
    let done = read_terms(query.push(space)).0;
    assert(done =~= terms(query));
    assert forall|i: int| 0 <= i < lowered(terms(query)).len() implies occurs(
        haystack,
        #[trigger] lowered(terms(query))[i],
    ) by {
        assert(longer[i] == done[i]);
        assert(lowered(longer)[i] == lowered(terms(query))[i]);
    }
}

proof fn later_terms_keep_earlier(start: Seq<char>, more: Seq<char>)
    ensures
        read_terms(start).0.is_prefix_of(read_terms(start + more).0),
    decreases more.len(),
{
    if more.len() == 0 {
        assert(start + more =~= start);
    } else {
        assert((start + more).drop_last() =~= start + more.drop_last());
        later_terms_keep_earlier(start, more.drop_last());
    }
}

// The palette.

/// One line of the palette: a chord, what it does, and where it comes from.
#[derive(Debug, PartialEq, Eq)]
pub struct PaletteCommand {
    pub key: String,
    pub label: String,
    pub note: String,
    pub outcome: CommandOutcome,
    /// Everything a query is matched against, folded to lower case once.
    pub haystack: String,
}

/// A command by its contents.
#[verifier::ext_equal]
pub struct CommandView {
    pub key: Seq<char>,
    pub label: Seq<char>,
    pub note: Seq<char>,
    pub outcome: CommandOutcome,
    pub haystack: Seq<char>,
}

impl View for PaletteCommand {
    type V = CommandView;

    open spec fn view(&self) -> CommandView {
        CommandView {
            key: self.key@,
            label: self.label@,
            note: self.note@,
            outcome: self.outcome,
            haystack: self.haystack@,
        }
    }
}

impl Clone for PaletteCommand {
    fn clone(&self) -> (copy: PaletteCommand)
        ensures
            copy == *self,
    {
        PaletteCommand {
            key: self.key.clone(),
            label: self.label.clone(),
            note: self.note.clone(),
            outcome: self.outcome.clone(),
            haystack: self.haystack.clone(),
        }
    }
}

/// Commands by their contents.
pub open spec fn command_views(commands: Seq<PaletteCommand>) -> Seq<CommandView> {
    commands.map_values(|command: PaletteCommand| command@)
}

/// What a query is matched against, before it is folded to lower case.
pub open spec fn searched(key: Seq<char>, label: Seq<char>, note: Seq<char>) -> Seq<char> {
    key.push(' ') + label.push(' ') + note
}

/// One line of the palette.
pub open spec fn command(key: Seq<char>, label: Seq<char>, note: Seq<char>, outcome: CommandOutcome) -> CommandView {
    CommandView { key, label, note, outcome, haystack: lowercase(searched(key, label, note)) }
}

impl PaletteCommand {
    /// One line of the palette.
    pub fn new(key: &str, label: &str, note: &str, outcome: CommandOutcome) -> (made: PaletteCommand)
        ensures
            made@ == command(key@, label@, note@, outcome),
    {
        let mut all = chars_of(key);
        all.push(' ');
        let mut middle = chars_of(label);
        middle.push(' ');
        push_all(&mut all, middle.as_slice());
        push_all(&mut all, chars_of(note).as_slice());
        assert(all@ =~= searched(key@, label@, note@));
        let text = string_of(all.as_slice());
        PaletteCommand {
            key: key.to_owned(),
            label: label.to_owned(),
            note: note.to_owned(),
            outcome,
            haystack: text.as_str().to_lowercase(),
        }
    }

    /// The chord to press after the prefix, spelled as the keymap spells it.
    pub fn key(&self) -> (key: &str)
        ensures
            key@ == self@.key,
    {
        self.key.as_str()
    }

    /// What running it does, in the user's words.
    pub fn label(&self) -> (label: &str)
        ensures
            label@ == self@.label,
    {
        self.label.as_str()
    }

    /// Where the binding comes from: its configuration name, or that it is the
    /// client's own surface.
    pub fn note(&self) -> (note: &str)
        ensures
            note@ == self@.note,
    {
        self.note.as_str()
    }

    /// What confirming this row means.
    pub fn outcome(&self) -> (outcome: &CommandOutcome)
        ensures
            *outcome == self@.outcome,
    {
        &self.outcome
    }

    /// Whether every whitespace-separated term of `query` appears in the row.
    pub fn matches(&self, query: &str) -> (matched: bool)
        ensures
            matched == found(self@.haystack, query@),
    {
        let parts = lower_terms(query);
        holds_every_term(self.haystack.as_str(), &parts)
    }
}

/// The rows of the first `count` listed actions: one for each that is bound,
/// with the first chord that reaches it.
pub open spec fn action_rows(bindings: Seq<Binding>, count: nat) -> Seq<CommandView>
    decreases count,
{
    if count == 0 {
        seq![]
    } else {
        let rest = action_rows(bindings, (count - 1) as nat);
        let action = PALETTE_ACTIONS[count - 1];
        match first_bound(bindings, action) {
            Some(binding) => rest.push(
                command(
                    binding.spelling@,
                    PALETTE_LABELS[count - 1]@,
                    binding.name@,
                    CommandOutcome::Run(action),
                ),
            ),
            None => rest,
        }
    }
}

/// The rows of the first `count` surfaces: one for each whose chord the keymap
/// leaves free.
pub open spec fn surface_rows(bindings: Seq<Binding>, count: nat) -> Seq<CommandView>
    decreases count,
{
    if count == 0 {
        seq![]
    } else {
        let rest = surface_rows(bindings, (count - 1) as nat);
        let surface = PALETTE_SURFACES[count - 1];
        if bound(bindings, Key::char(surface.key())) is None {
            rest.push(
                command(
                    seq![surface.key()],
                    surface.words(),
                    "client"@,
                    CommandOutcome::Open(surface),
                ),
            )
        } else {
            rest
        }
    }
}

/// Every row the palette has over a keymap's bindings.
pub open spec fn palette_rows(bindings: Seq<Binding>) -> Seq<CommandView> {
    action_rows(bindings, 14) + surface_rows(bindings, 5)
}

/// The positions among the first `count` commands that `query` finds.
pub open spec fn hits(commands: Seq<CommandView>, query: Seq<char>, count: nat) -> Seq<nat>
    decreases count,
{
    if count == 0 {
        seq![]
    } else {
        let rest = hits(commands, query, (count - 1) as nat);
        if found(commands[count - 1].haystack, query) {
            rest.push((count - 1) as nat)
        } else {
            rest
        }
    }
}

/// The effective key bindings and client surfaces, as one searchable list.
#[derive(Debug, PartialEq, Eq)]
pub struct CommandPalette {
    prefix: String,
    title: String,
    commands: Vec<PaletteCommand>,
    query: String,
    /// Positions in `commands`, in display order.
    matches: Vec<usize>,
}

/// A palette by its contents.
#[verifier::ext_equal]
pub struct PaletteView {
    pub prefix: Seq<char>,
    pub commands: Seq<CommandView>,
    pub query: Seq<char>,
}

impl PaletteView {
    /// The positions of the commands the query finds, in display order.
    pub open spec fn matches(self) -> Seq<nat> {
        hits(self.commands, self.query, self.commands.len())
    }

    /// The title names the effective prefix.
    pub open spec fn title(self) -> Seq<char> {
        "commands - prefix "@ + self.prefix
    }

    /// The commands the query finds, in display order.
    pub open spec fn results(self) -> Seq<CommandView> {
        self.matches().map_values(|at: nat| self.commands[at as int])
    }

    /// This palette with another query.
    pub open spec fn asked(self, query: Seq<char>) -> PaletteView {
        PaletteView { query, ..self }
    }
}

/// The palette over a keymap, before anything is typed.
pub open spec fn palette_of(keymap: Keymap) -> PaletteView {
    PaletteView {
        prefix: keymap.prefix_spelling@,
        commands: palette_rows(keymap.bindings@),
        query: ""@,
    }
}

/// Positions as plain numbers.
pub open spec fn positions(matches: Seq<usize>) -> Seq<nat> {
    matches.map_values(|at: usize| at as nat)
}

impl View for CommandPalette {
    type V = PaletteView;

    closed spec fn view(&self) -> PaletteView {
        PaletteView {
            prefix: self.prefix@,
            commands: command_views(self.commands@),
            query: self.query@,
        }
    }
}

/// Every position a query answers with is a command's, and they ascend.
pub proof fn hits_are_positions(commands: Seq<CommandView>, query: Seq<char>, count: nat)
    requires
        count <= commands.len(),
    ensures
        hits(commands, query, count).len() <= count,
        forall|i: int|
            0 <= i < hits(commands, query, count).len() ==> (#[trigger] hits(
                commands,
                query,
                count,
            )[i]) < count && found(
                commands[hits(commands, query, count)[i] as int].haystack,
                query,
            ),
        forall|i: int, j: int|
            0 <= i < j < hits(commands, query, count).len() ==> (#[trigger] hits(
                commands,
                query,
                count,
            )[i]) < (#[trigger] hits(commands, query, count)[j]),
    decreases count,
{
    if count > 0 {
        hits_are_positions(commands, query, (count - 1) as nat);
    }
}

impl CommandPalette {
    /// The title and the result set follow from what the palette holds.
    pub closed spec fn wf(&self) -> bool {
        &&& self.title@ == self@.title()
        &&& positions(self.matches@) == self@.matches()
    }

    /// Reads the effective bindings out of `keymap`.
    pub fn new(keymap: &Keymap) -> (palette: CommandPalette)
        ensures
            palette.wf(),
            palette@ == palette_of(*keymap),
    {
        let mut commands: Vec<PaletteCommand> = Vec::new();
        push_action_rows(&mut commands, keymap);
        push_surface_rows(&mut commands, keymap);
        let mut title = chars_of("commands - prefix ");
        push_all(&mut title, chars_of(keymap.prefix_spelling.as_str()).as_slice());
        let mut palette = CommandPalette {
            prefix: keymap.prefix_spelling.clone(),
            title: string_of(title.as_slice()),
            commands,
            query: "".to_owned(),
            matches: Vec::new(),
        };
        palette.refilter();
        palette
    }

    /// The prefix chord these bindings are reached through, drawn verbatim.
    pub fn prefix(&self) -> (prefix: &str)
        ensures
            prefix@ == self@.prefix,
    {
        self.prefix.as_str()
    }

    /// The palette's title.
    pub fn title(&self) -> (title: &str)
        requires
            self.wf(),
        ensures
            title@ == self@.title(),
    {
        self.title.as_str()
    }

    /// What the user has typed so far.
    pub fn query(&self) -> (query: &str)
        ensures
            query@ == self@.query,
    {
        self.query.as_str()
    }

    /// Every command the palette knows, filtered or not.
    pub fn commands(&self) -> (commands: &[PaletteCommand])
        ensures
            command_views(commands@) == self@.commands,
    {
        self.commands.as_slice()
    }

    /// How many commands the query finds.
    pub fn count(&self) -> (count: usize)
        requires
            self.wf(),
        ensures
            count == self@.matches().len(),
    {
        self.matches.len()
    }

    /// The commands the current query matches, in display order.
    pub fn results(&self) -> (results: Vec<PaletteCommand>)
        requires
            self.wf(),
        ensures
            command_views(results@) == self@.results(),
    {
        let mut results: Vec<PaletteCommand> = Vec::new();
        assert(command_views(results@) =~= self@.results().take(0));
        for i in 0..self.matches.len()
            invariant
                self.wf(),
                command_views(results@) == self@.results().take(i as int),
        {
            let ghost before = command_views(results@);
            match self.result(i) {
                Some(command) => {
                    results.push(command.clone());
                    assert(command_views(results@) =~= before.push(self@.results()[i as int]));
                },
                None => {},
            }
            assert(self@.results().take(i + 1) =~= self@.results().take(i as int).push(
                self@.results()[i as int],
            ));
        }
        assert(self@.results().take(self.matches@.len() as int) =~= self@.results());
        results
    }

    /// The command at one display position, if the query still finds one.
    pub fn result(&self, index: usize) -> (command: Option<&PaletteCommand>)
        requires
            self.wf(),
        ensures
            match command {
                Some(shown) => index < self@.matches().len() && shown@
                    == self@.results()[index as int],
                None => index >= self@.matches().len(),
            },
    {
        if index < self.matches.len() {
            proof {
                hits_are_positions(self@.commands, self@.query, self@.commands.len());
                assert(positions(self.matches@)[index as int] == self.matches@[index as int]);
            }
            Some(&self.commands[self.matches[index]])
        } else {
            None
        }
    }

    /// The command at one display position, by where it stands among all of
    /// them.
    pub fn position(&self, index: usize) -> (at: Option<usize>)
        requires
            self.wf(),
        ensures
            match at {
                Some(command) => index < self@.matches().len() && command
                    == self@.matches()[index as int],
                None => index >= self@.matches().len(),
            },
    {
        if index < self.matches.len() {
            assert(positions(self.matches@)[index as int] == self.matches@[index as int]);
            Some(self.matches[index])
        } else {
            None
        }
    }

    /// Where a command is displayed, if the query still finds it.
    pub fn display_of(&self, command: usize) -> (at: Option<usize>)
        requires
            self.wf(),
        ensures
            match at {
                Some(index) => index < self@.matches().len() && self@.matches()[index as int]
                    == command,
                None => !self@.matches().contains(command as nat),
            },
    {
        for i in 0..self.matches.len()
            invariant
                self.wf(),
                forall|k: int| 0 <= k < i ==> (#[trigger] self@.matches()[k]) != command,
        {
            assert(positions(self.matches@)[i as int] == self.matches@[i as int]);
            if self.matches[i] == command {
                return Some(i);
            }
        }
        assert(positions(self.matches@).len() == self.matches@.len());
        None
    }

    /// Replaces the query and recomputes the result set.
    pub fn ask(&mut self, query: String)
        requires
            old(self).wf(),
        ensures
            final(self).wf(),
            final(self)@ == old(self)@.asked(query@),
    {
        self.query = query;
        self.refilter();
    }

    /// Recomputes the result set after the query changed.
    fn refilter(&mut self)
        requires
            old(self).title@ == old(self)@.title(),
        ensures
            final(self).wf(),
            final(self)@ == old(self)@,
    {
        let mut matches: Vec<usize> = Vec::new();
        assert(positions(matches@) =~= Seq::<nat>::empty());
        for i in 0..self.commands.len()
            invariant
                *self == *old(self),
                positions(matches@) == hits(self@.commands, self@.query, i as nat),
        {
            let ghost before = positions(matches@);
            assert(self@.commands[i as int] == self.commands@[i as int]@);
            if self.commands[i].matches(self.query.as_str()) {
                matches.push(i);
                assert(positions(matches@) =~= before.push(i as nat));
            }
        }
        self.matches = matches;
    }
}

impl Clone for CommandPalette {
    fn clone(&self) -> (copy: CommandPalette)
        ensures
            copy@ == self@,
            self.wf() ==> copy.wf(),
    {
        let mut commands: Vec<PaletteCommand> = Vec::new();
        for i in 0..self.commands.len()
            invariant
                commands@ == self.commands@.take(i as int),
        {
            commands.push(self.commands[i].clone());
            assert(self.commands@.take(i + 1) =~= self.commands@.take(i as int).push(
                self.commands@[i as int],
            ));
        }
        assert(self.commands@.take(self.commands@.len() as int) =~= self.commands@);
        let mut matches: Vec<usize> = Vec::new();
        for i in 0..self.matches.len()
            invariant
                matches@ == self.matches@.take(i as int),
        {
            matches.push(self.matches[i]);
            assert(self.matches@.take(i + 1) =~= self.matches@.take(i as int).push(
                self.matches@[i as int],
            ));
        }
        assert(self.matches@.take(self.matches@.len() as int) =~= self.matches@);
        CommandPalette {
            prefix: self.prefix.clone(),
            title: self.title.clone(),
            commands,
            query: self.query.clone(),
            matches,
        }
    }
}

/// Appends a row for each listed action that is bound.
fn push_action_rows(commands: &mut Vec<PaletteCommand>, keymap: &Keymap)
    requires
        old(commands)@.len() == 0,
    ensures
        command_views(final(commands)@) == action_rows(keymap.bindings@, 14),
{
    assert(command_views(commands@) =~= Seq::<CommandView>::empty());
    for i in 0..14usize
        invariant
            command_views(commands@) == action_rows(keymap.bindings@, i as nat),
    {
        let action: &Action = &PALETTE_ACTIONS[i];
        assert(action.is_plain());
        match keymap.binding_of(action) {
            Some(binding) => {
                let ghost before = command_views(commands@);
                let row = PaletteCommand::new(
                    binding.spelling.as_str(),
                    PALETTE_LABELS[i],
                    binding.name.as_str(),
                    CommandOutcome::Run(action.clone()),
                );
                commands.push(row);
                assert(command_views(commands@) =~= before.push(row@));
            },
            None => {},
        }
    }
}

/// Appends a row for each surface whose chord the keymap leaves free.
fn push_surface_rows(commands: &mut Vec<PaletteCommand>, keymap: &Keymap)
    ensures
        command_views(final(commands)@) == command_views(old(commands)@) + surface_rows(
            keymap.bindings@,
            5,
        ),
{
    let ghost start = command_views(commands@);
    assert(command_views(commands@) =~= start + surface_rows(keymap.bindings@, 0));
    for i in 0..5usize
        invariant
            command_views(commands@) == start + surface_rows(keymap.bindings@, i as nat),
    {
        let surface = PALETTE_SURFACES[i];
        if keymap.action(Key::char(surface.key())).is_none() {
            let ghost before = command_views(commands@);
            let mut key: Vec<char> = Vec::new();
            key.push(surface.key());
            assert(key@ =~= seq![surface.key()]);
            let row = PaletteCommand::new(
                string_of(key.as_slice()).as_str(),
                surface.label(),
                "client",
                CommandOutcome::Open(surface),
            );
            commands.push(row);
            assert(command_views(commands@) =~= before.push(row@));
        }
        assert(command_views(commands@) =~= start + surface_rows(keymap.bindings@, (i + 1) as nat));
    }
}

/// An action no chord reaches has no row: every row that runs an action names
/// one that is bound, spelled by its first chord.
pub proof fn every_action_row_is_bound(bindings: Seq<Binding>, i: int)
    requires
        0 <= i < palette_rows(bindings).len(),
    ensures
        palette_rows(bindings)[i].outcome matches CommandOutcome::Run(action) ==> {
            &&& first_bound(bindings, action) is Some
            &&& palette_rows(bindings)[i].key == first_bound(bindings, action)->0.spelling@
        },
        palette_rows(bindings)[i].outcome matches CommandOutcome::Open(surface) ==> {
            &&& bound(bindings, Key::char(surface.key())) is None
            &&& palette_rows(bindings)[i].key == seq![surface.key()]
        },
{
    let count = action_rows(bindings, 14).len();
    if i < count {
        action_rows_are_bound(bindings, 14, i);
    } else {
        surface_rows_are_free(bindings, 5, i - count);
    }
}

proof fn action_rows_are_bound(bindings: Seq<Binding>, count: nat, i: int)
    requires
        count <= 14,
        0 <= i < action_rows(bindings, count).len(),
    ensures
        action_rows(bindings, count)[i].outcome matches CommandOutcome::Run(action)
            && first_bound(bindings, action) is Some && action_rows(bindings, count)[i].key
            == first_bound(bindings, action)->0.spelling@,
    decreases count,
{
    let rest = action_rows(bindings, (count - 1) as nat);
    if i < rest.len() {
        action_rows_are_bound(bindings, (count - 1) as nat, i);
    }
}

proof fn surface_rows_are_free(bindings: Seq<Binding>, count: nat, i: int)
    requires
        count <= 5,
        0 <= i < surface_rows(bindings, count).len(),
    ensures
        surface_rows(bindings, count)[i].outcome matches CommandOutcome::Open(surface) && bound(
            bindings,
            Key::char(surface.key()),
        ) is None && surface_rows(bindings, count)[i].key == seq![surface.key()],
    decreases count,
{
    let rest = surface_rows(bindings, (count - 1) as nat);
    if i < rest.len() {
        surface_rows_are_free(bindings, (count - 1) as nat, i);
    }
}

} // verus!
