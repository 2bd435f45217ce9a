//! What the outer terminal can do, and what the client does instead where it
//! cannot.
//!
//! Two rules compose here. A `TERM` that is unset or `dumb` gives nothing to
//! negotiate from, so [`attach_caps`] refuses. A `TERM` that resolves but lacks
//! a capability takes the documented [`Fallback`] for it, never a claim of
//! support.

use vstd::prelude::*;

use crate::proto::TermCaps;
use crate::text::{contains_text, eq_ignoring_case, occurs, same_ignoring_case, same_text};

verus! {

/// One negotiable terminal capability, one for each field of [`TermCaps`].
#[derive(Clone, Copy, Debug, PartialEq, Eq, PartialOrd, Ord, Structural)]
pub enum Capability {
    /// True colour (24-bit SGR).
    Truecolor,
    /// Bracketed paste mode.
    BracketedPaste,
    /// SGR-encoded mouse reporting.
    SgrMouse,
    /// Focus in/out reporting.
    FocusEvents,
    /// The Kitty extended keyboard protocol.
    ExtendedKeys,
    /// OSC 52 clipboard writes.
    ClipboardOsc52,
    /// OSC 8 hyperlinks.
    Hyperlinks,
    /// Inline graphics.
    Graphics,
}

/// Every capability, in the order [`TermCaps`] declares them.
pub const ALL: [Capability; 8] = [
    Capability::Truecolor,
    Capability::BracketedPaste,
    Capability::SgrMouse,
    Capability::FocusEvents,
    Capability::ExtendedKeys,
    Capability::ClipboardOsc52,
    Capability::Hyperlinks,
    Capability::Graphics,
];

/// The capabilities an interactive agent harness expects of a pane. Missing
/// one is not a refusal but a [`Fallback`].
pub const BASELINE: [Capability; 5] = [
    Capability::Truecolor,
    Capability::BracketedPaste,
    Capability::SgrMouse,
    Capability::FocusEvents,
    Capability::ExtendedKeys,
];

impl Capability {
    /// Whether `caps` claims this capability.
    #[verifier::allow_in_spec]
    pub fn present_in(self, caps: TermCaps) -> bool
        returns
            (match self {
                Capability::Truecolor => caps.truecolor,
                Capability::BracketedPaste => caps.bracketed_paste,
                Capability::SgrMouse => caps.sgr_mouse,
                Capability::FocusEvents => caps.focus_events,
                Capability::ExtendedKeys => caps.extended_keys,
                Capability::ClipboardOsc52 => caps.clipboard_osc52,
                Capability::Hyperlinks => caps.hyperlinks,
                Capability::Graphics => caps.graphics,
            }),
    {
        match self {
            Capability::Truecolor => caps.truecolor,
            Capability::BracketedPaste => caps.bracketed_paste,
            Capability::SgrMouse => caps.sgr_mouse,
            Capability::FocusEvents => caps.focus_events,
            Capability::ExtendedKeys => caps.extended_keys,
            Capability::ClipboardOsc52 => caps.clipboard_osc52,
            Capability::Hyperlinks => caps.hyperlinks,
            Capability::Graphics => caps.graphics,
        }
    }

    /// What happens instead when this capability is absent. Every capability
    /// has exactly one answer, the same on every client.
    #[verifier::allow_in_spec]
    pub fn fallback(self) -> Fallback
        returns
            (match self {
                Capability::Truecolor => Fallback::Downsample256,
                Capability::BracketedPaste => Fallback::PasteAsTypedInput,
                Capability::SgrMouse => Fallback::ChromeKeyboardOnly,
                Capability::FocusEvents => Fallback::AssumeFocused,
                Capability::ExtendedKeys => Fallback::LegacyKeyEncoding,
                Capability::ClipboardOsc52 => Fallback::SuppressEffect,
                Capability::Hyperlinks => Fallback::SuppressEffect,
                Capability::Graphics => Fallback::SuppressEffect,
            }),
    {
        match self {
            Capability::Truecolor => Fallback::Downsample256,
            Capability::BracketedPaste => Fallback::PasteAsTypedInput,
            Capability::SgrMouse => Fallback::ChromeKeyboardOnly,
            Capability::FocusEvents => Fallback::AssumeFocused,
            Capability::ExtendedKeys => Fallback::LegacyKeyEncoding,
            Capability::ClipboardOsc52 | Capability::Hyperlinks | Capability::Graphics =>
                Fallback::SuppressEffect,
        }
    }

    /// The words [`name`](Capability::name) answers with.
    pub open spec fn words(self) -> Seq<char> {
        match self {
            Capability::Truecolor => "truecolor"@,
            Capability::BracketedPaste => "bracketed paste"@,
            Capability::SgrMouse => "SGR mouse reporting"@,
            Capability::FocusEvents => "focus events"@,
            Capability::ExtendedKeys => "extended keys"@,
            Capability::ClipboardOsc52 => "OSC 52 clipboard"@,
            Capability::Hyperlinks => "OSC 8 hyperlinks"@,
            Capability::Graphics => "inline graphics"@,
        }
    }

    /// The name this capability is called by in a message to a user.
    pub fn name(self) -> (name: &'static str)
        ensures
            name@ == self.words(),
    {
        match self {
            Capability::Truecolor => "truecolor",
            Capability::BracketedPaste => "bracketed paste",
            Capability::SgrMouse => "SGR mouse reporting",
            Capability::FocusEvents => "focus events",
            Capability::ExtendedKeys => "extended keys",
            Capability::ClipboardOsc52 => "OSC 52 clipboard",
            Capability::Hyperlinks => "OSC 8 hyperlinks",
            Capability::Graphics => "inline graphics",
        }
    }
}

/// What the client does in place of a capability the terminal does not have.
#[derive(Clone, Copy, Debug, PartialEq, Eq, Structural)]
pub enum Fallback {
    /// A 24-bit colour is downsampled to the nearest 256-palette entry.
    Downsample256,
    /// Pasted text arrives as ordinary typed input.
    PasteAsTypedInput,
    /// Chrome is driven from the keyboard only.
    ChromeKeyboardOnly,
    /// The client is treated as always focused.
    AssumeFocused,
    /// Keys are encoded in the legacy scheme.
    LegacyKeyEncoding,
    /// The typed outer-terminal effect is suppressed.
    SuppressEffect,
}

impl Fallback {
    /// The words [`describe`](Fallback::describe) answers with.
    pub open spec fn words(self) -> Seq<char> {
        match self {
            Fallback::Downsample256 => "colours are downsampled to the 256-colour palette"@,
            Fallback::PasteAsTypedInput => "pasted text is forwarded as typed input"@,
            Fallback::ChromeKeyboardOnly => "chrome is driven from the keyboard only"@,
            Fallback::AssumeFocused => "the client is treated as always focused"@,
            Fallback::LegacyKeyEncoding => "keys use the legacy encoding"@,
            Fallback::SuppressEffect => "the effect is suppressed"@,
        }
    }

    /// A one-line description, suitable for a message to a user.
    pub fn describe(self) -> (line: &'static str)
        ensures
            line@ == self.words(),
    {
        match self {
            Fallback::Downsample256 => "colours are downsampled to the 256-colour palette",
            Fallback::PasteAsTypedInput => "pasted text is forwarded as typed input",
            Fallback::ChromeKeyboardOnly => "chrome is driven from the keyboard only",
            Fallback::AssumeFocused => "the client is treated as always focused",
            Fallback::LegacyKeyEncoding => "keys use the legacy encoding",
            Fallback::SuppressEffect => "the effect is suppressed",
        }
    }
}

/// A capability the terminal lacks, and what happens instead.
#[derive(Clone, Copy, Debug, PartialEq, Eq, Structural)]
pub struct Degradation {
    /// The capability that is absent.
    pub capability: Capability,
    /// The documented behaviour taken in its place.
    pub fallback: Fallback,
}

impl Degradation {
    /// The line a user is shown for this degradation.
    pub fn message(self) -> (line: String)
        ensures
            line@ == "no "@ + self.capability.words() + ": "@ + self.fallback.words(),
    {
        let mut line: String = String::from_str("no ");
        line.append(self.capability.name());
        line.append(": ");
        line.append(self.fallback.describe());
        line
    }
}

/// The degradations among the first `n` baseline capabilities.
pub open spec fn degradations_of(caps: TermCaps, n: nat) -> Seq<Degradation>
    decreases n,
{
    if n == 0 {
        seq![]
    } else {
        let capability = BASELINE[n - 1];
        let before = degradations_of(caps, (n - 1) as nat);
        if capability.present_in(caps) {
            before
        } else {
            before.push(Degradation { capability, fallback: capability.fallback() })
        }
    }
}

/// Every baseline capability `caps` lacks, in baseline order, paired with its
/// fallback.
pub fn degradations(caps: TermCaps) -> (taken: Vec<Degradation>)
    ensures
        taken@ == degradations_of(caps, BASELINE@.len()),
{
    let baseline = BASELINE;
    let mut taken: Vec<Degradation> = Vec::new();
    let mut i: usize = 0;
    while i < 5
        invariant
            i <= 5,
            baseline == BASELINE,
            taken@ == degradations_of(caps, i as nat),
        decreases 5 - i,
    {
        let capability = baseline[i];
        if !capability.present_in(caps) {
            taken.push(Degradation { capability, fallback: capability.fallback() });
        }
        i = i + 1;
    }
    taken
}

/// Why capabilities could not be negotiated for an attach.
#[derive(Clone, Copy, Debug, PartialEq, Eq, Structural)]
pub enum CapsError {
    /// `TERM` is unset or empty.
    TermUnset,
    /// `TERM` is `dumb`, which announces the absence of a baseline.
    TermDumb,
}

impl CapsError {
    /// The cause the message opens with.
    pub open spec fn cause(self) -> Seq<char> {
        match self {
            CapsError::TermUnset => "TERM is not set"@,
            CapsError::TermDumb => "TERM is \"dumb\""@,
        }
    }

    /// What the user is told, and what they can do about it.
    pub fn message(self) -> (line: String)
        ensures
            line@ == self.cause()
                + ", so cloo cannot negotiate terminal capabilities for an attach; set TERM (for example TERM=xterm-256color) and attach again. Running cloo without attaching still gives you a local pane."@,
    {
        let mut line: String = match self {
            CapsError::TermUnset => String::from_str("TERM is not set"),
            CapsError::TermDumb => String::from_str("TERM is \"dumb\""),
        };
        line.append(
            ", so cloo cannot negotiate terminal capabilities for an attach; set TERM (for example TERM=xterm-256color) and attach again. Running cloo without attaching still gives you a local pane.",
        );
        line
    }
}

/// Whether the two environment strings establish 24-bit colour.
pub open spec fn claims_truecolor(term: Seq<char>, colorterm: Seq<char>) -> bool {
    ||| same_ignoring_case(colorterm, "truecolor"@)
    ||| same_ignoring_case(colorterm, "24bit"@)
    ||| occurs(term, "truecolor"@)
    ||| occurs(term, "direct"@)
}

/// The text of an environment string; an unset one reads as empty.
pub open spec fn env_text(value: Option<&str>) -> Seq<char> {
    match value {
        Some(text) => text@,
        None => seq![],
    }
}

/// What an attach negotiates from `TERM` and `COLORTERM`.
pub open spec fn negotiated(term: Seq<char>, colorterm: Seq<char>) -> Result<TermCaps, CapsError> {
    if term.len() == 0 {
        Err(CapsError::TermUnset)
    } else if term == "dumb"@ {
        Err(CapsError::TermDumb)
    } else {
        Ok(
            TermCaps {
                truecolor: claims_truecolor(term, colorterm),
                bracketed_paste: true,
                sgr_mouse: true,
                focus_events: true,
                ..TermCaps::none()
            },
        )
    }
}

/// Decides what the outer terminal can draw, for a client that is attaching.
///
/// Only what can be established without a query sequence and a reply is
/// claimed. An unset, empty or `dumb` `TERM` is refused.
pub fn attach_caps(term: Option<&str>, colorterm: Option<&str>) -> (caps: Result<TermCaps, CapsError>)
    ensures
        caps == negotiated(env_text(term), env_text(colorterm)),
{
    proof {
        reveal_strlit("");
        assert(""@ =~= Seq::<char>::empty());
    }
    let term: &str = match term {
        Some(text) => text,
        None => "",
    };
    if term.unicode_len() == 0 {
        return Err(CapsError::TermUnset);
    }
    if same_text(term, "dumb") {
        return Err(CapsError::TermDumb);
    }
    let colorterm: &str = match colorterm {
        Some(text) => text,
        None => "",
    };
    let truecolor: bool = eq_ignoring_case(colorterm, "truecolor") || eq_ignoring_case(
        colorterm,
        "24bit",
    ) || contains_text(term, "truecolor") || contains_text(term, "direct");
    Ok(
        TermCaps {
            truecolor,
            bracketed_paste: true,
            sgr_mouse: true,
            focus_events: true,
            extended_keys: false,
            clipboard_osc52: false,
            hyperlinks: false,
            graphics: false,
        },
    )
}

/// Decides what the outer terminal can draw, for the local in-process pane: as
/// [`attach_caps`], except that an unresolvable `TERM` claims nothing.
pub fn caps_from_env(term: Option<&str>, colorterm: Option<&str>) -> (caps: TermCaps)
    ensures
        caps == (match negotiated(env_text(term), env_text(colorterm)) {
            Ok(found) => found,
            Err(_) => TermCaps::none(),
        }),
{
    match attach_caps(term, colorterm) {
        Ok(caps) => caps,
        Err(_) => TermCaps::none(),
    }
}

/// No capability reads another's field: the one present in `caps` alone is
/// told apart from every other.
pub proof fn capability_reads_its_own_field(a: Capability, b: Capability)
    ensures
        (forall|caps: TermCaps| a.present_in(caps) == b.present_in(caps)) <==> a == b,
{
    let only = TermCaps {
        truecolor: a is Truecolor,
        bracketed_paste: a is BracketedPaste,
        sgr_mouse: a is SgrMouse,
        focus_events: a is FocusEvents,
        extended_keys: a is ExtendedKeys,
        clipboard_osc52: a is ClipboardOsc52,
        hyperlinks: a is Hyperlinks,
        graphics: a is Graphics,
    };
    if a != b {
        assert(a.present_in(only) != b.present_in(only));
    }
}

/// A capability is degraded exactly when it belongs to the baseline and `caps`
/// lacks it, and then to its own documented fallback.
pub proof fn degrades_exactly_the_missing_baseline(caps: TermCaps, item: Degradation)
    ensures
        degradations_of(caps, BASELINE@.len()).contains(item) <==> (BASELINE@.contains(
            item.capability,
        ) && !item.capability.present_in(caps) && item.fallback == item.capability.fallback()),
{
    degraded_prefix(caps, 5, item);
    assert(BASELINE@.take(5) == BASELINE@);
}

proof fn degraded_prefix(caps: TermCaps, n: nat, item: Degradation)
    requires
        n <= 5,
    ensures
        degradations_of(caps, n).contains(item) <==> (BASELINE@.take(n as int).contains(
            item.capability,
        ) && !item.capability.present_in(caps) && item.fallback == item.capability.fallback()),
    decreases n,
{
    if n > 0 {
        let m = (n - 1) as nat;
        degraded_prefix(caps, m, item);
        let capability = BASELINE[n - 1];
        let before = degradations_of(caps, m);
        let next = Degradation { capability, fallback: capability.fallback() };
        assert(BASELINE@.take(n as int) == BASELINE@.take(m as int).push(capability));
        contains_push(BASELINE@.take(m as int), capability, item.capability);
        contains_push(before, next, item);
    }
}

proof fn contains_push<A>(s: Seq<A>, last: A, x: A)
    ensures
        s.push(last).contains(x) <==> (s.contains(x) || x == last),
{
    let t = s.push(last);
    if s.contains(x) {
        let i = choose|i: int| 0 <= i < s.len() && s[i] == x;
        assert(t[i] == x);
    }
    if x == last {
        assert(t[s.len() as int] == x);
    }
    if t.contains(x) {
        let i = choose|i: int| 0 <= i < t.len() && t[i] == x;
        if i < s.len() {
            assert(s[i] == x);
        }
    }
}

} // verus!
