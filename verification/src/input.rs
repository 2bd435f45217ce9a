//! What the user's terminal sends, turned into typed events that can be routed.
//!
//! [`OuterModes`] is which reporting modes the outer terminal is asked for, and
//! nothing is asked for that the terminal did not report. [`InputDecoder`]
//! splits that terminal's byte stream back into events. [`ScreenLayout`] and
//! [`route_mouse`] decide where a mouse report landed and who owns it: it is the
//! application's only when the application tracks the mouse, the pointer is over
//! its pane, and shift was not held. A chrome event has no wire shape at all.

use vstd::prelude::*;

use crate::bytes::{
    could_become, digits_only_add, find, first_at, first_at_after_skip, first_at_finds,
    first_at_is_first, held, held_after_content, held_is_longest, is_number, number_from,
    number_of, opens_with, partial_suffix, stands_at, starts_after_content, starts_with,
};
use crate::effects::extend_bytes;
use crate::proto::{
    MouseButton, MouseEvent, MouseKind, MouseMods, MouseTracking, PaneId, PaneModes, Point, Size,
    TermCaps,
};

pub use crate::keys::{
    decode_key, overlay_action, palette_actions, queue_action, ChordRoute, KeyRoute, KeyRouter,
    OverlayAction, PaletteAction, QueueAction,
};

verus! {

/// Turns on bracketed paste: `CSI ? 2004 h`.
pub const PASTE_ON: [u8; 8] = [0x1b, 0x5b, 0x3f, 0x32, 0x30, 0x30, 0x34, 0x68];

/// Turns it off again: `CSI ? 2004 l`.
pub const PASTE_OFF: [u8; 8] = [0x1b, 0x5b, 0x3f, 0x32, 0x30, 0x30, 0x34, 0x6c];

/// Turns on button, drag, and SGR mouse reporting: `CSI ? 1000 h`,
/// `CSI ? 1002 h`, `CSI ? 1006 h`.
pub const MOUSE_ON: [u8; 24] = [
    0x1b, 0x5b, 0x3f, 0x31, 0x30, 0x30, 0x30, 0x68, 0x1b, 0x5b, 0x3f, 0x31, 0x30, 0x30, 0x32, 0x68,
    0x1b, 0x5b, 0x3f, 0x31, 0x30, 0x30, 0x36, 0x68,
];

/// Turns them off, in the reverse order.
pub const MOUSE_OFF: [u8; 24] = [
    0x1b, 0x5b, 0x3f, 0x31, 0x30, 0x30, 0x36, 0x6c, 0x1b, 0x5b, 0x3f, 0x31, 0x30, 0x30, 0x32, 0x6c,
    0x1b, 0x5b, 0x3f, 0x31, 0x30, 0x30, 0x30, 0x6c,
];

/// Turns on focus reporting: `CSI ? 1004 h`.
pub const FOCUS_ON: [u8; 8] = [0x1b, 0x5b, 0x3f, 0x31, 0x30, 0x30, 0x34, 0x68];

/// Turns it off again: `CSI ? 1004 l`.
pub const FOCUS_OFF: [u8; 8] = [0x1b, 0x5b, 0x3f, 0x31, 0x30, 0x30, 0x34, 0x6c];

/// Pushes a Kitty keyboard flag set: `CSI > 1 u`.
pub const KEYS_ON: [u8; 5] = [0x1b, 0x5b, 0x3e, 0x31, 0x75];

/// Pops it again: `CSI < u`.
pub const KEYS_OFF: [u8; 4] = [0x1b, 0x5b, 0x3c, 0x75];

/// The start of a bracketed paste: `CSI 200 ~`.
pub const PASTE_START: [u8; 6] = [0x1b, 0x5b, 0x32, 0x30, 0x30, 0x7e];

/// The end of one: `CSI 201 ~`.
pub const PASTE_END: [u8; 6] = [0x1b, 0x5b, 0x32, 0x30, 0x31, 0x7e];

/// Focus gained: `CSI I`.
pub const FOCUS_IN: [u8; 3] = [0x1b, 0x5b, 0x49];

/// Focus lost: `CSI O`.
pub const FOCUS_OUT: [u8; 3] = [0x1b, 0x5b, 0x4f];

/// The reporting modes the outer terminal was asked for.
#[derive(Clone, Copy, Debug, PartialEq, Eq, Structural)]
pub struct OuterModes {
    /// Bracketed paste was requested, so a paste can be told from typing.
    pub bracketed_paste: bool,
    /// Mouse reporting was requested, in the SGR encoding.
    pub sgr_mouse: bool,
    /// Focus reporting was requested.
    pub focus_events: bool,
    /// The extended keyboard protocol was pushed.
    pub extended_keys: bool,
}

impl Default for OuterModes {
    fn default() -> (modes: OuterModes)
        ensures
            modes == OuterModes::none(),
    {
        OuterModes::none()
    }
}

/// `bytes` where `wanted`, and nothing otherwise.
pub open spec fn if_asked(wanted: bool, bytes: Seq<u8>) -> Seq<u8> {
    if wanted {
        bytes
    } else {
        seq![]
    }
}

fn extend_when(out: &mut Vec<u8>, wanted: bool, bytes: &[u8])
    ensures
        final(out)@ == old(out)@ + if_asked(wanted, bytes@),
{
    if wanted {
        extend_bytes(out, bytes);
    }
}

impl OuterModes {
    /// The modes worth asking for, given what the terminal reported.
    #[verifier::allow_in_spec]
    pub fn negotiated(caps: TermCaps) -> OuterModes
        returns
            (OuterModes {
                bracketed_paste: caps.bracketed_paste,
                sgr_mouse: caps.sgr_mouse,
                focus_events: caps.focus_events,
                extended_keys: caps.extended_keys,
            }),
    {
        OuterModes {
            bracketed_paste: caps.bracketed_paste,
            sgr_mouse: caps.sgr_mouse,
            focus_events: caps.focus_events,
            extended_keys: caps.extended_keys,
        }
    }

    /// Nothing requested. The state every fallback leaves the terminal in.
    #[verifier::allow_in_spec]
    pub fn none() -> OuterModes
        returns
            (OuterModes {
                bracketed_paste: false,
                sgr_mouse: false,
                focus_events: false,
                extended_keys: false,
            }),
    {
        OuterModes {
            bracketed_paste: false,
            sgr_mouse: false,
            focus_events: false,
            extended_keys: false,
        }
    }

    /// What is written to turn these modes on.
    pub open spec fn request(self) -> Seq<u8> {
        if_asked(self.bracketed_paste, PASTE_ON@) + if_asked(self.sgr_mouse, MOUSE_ON@) + if_asked(
            self.focus_events,
            FOCUS_ON@,
        ) + if_asked(self.extended_keys, KEYS_ON@)
    }

    /// What is written to turn them off again.
    pub open spec fn reset(self) -> Seq<u8> {
        if_asked(self.extended_keys, KEYS_OFF@) + if_asked(self.focus_events, FOCUS_OFF@) + if_asked(
            self.sgr_mouse,
            MOUSE_OFF@,
        ) + if_asked(self.bracketed_paste, PASTE_OFF@)
    }

    /// The bytes that turn these modes on.
    pub fn enable(self) -> (out: Vec<u8>)
        ensures
            out@ == self.request(),
    {
        let mut out: Vec<u8> = Vec::new();
        extend_when(&mut out, self.bracketed_paste, &PASTE_ON);
        extend_when(&mut out, self.sgr_mouse, &MOUSE_ON);
        extend_when(&mut out, self.focus_events, &FOCUS_ON);
        extend_when(&mut out, self.extended_keys, &KEYS_ON);
        assert(Seq::<u8>::empty() + if_asked(self.bracketed_paste, PASTE_ON@) =~= if_asked(
            self.bracketed_paste,
            PASTE_ON@,
        ));
        out
    }

    /// The bytes that turn them off again, in the reverse order of
    /// [`enable`](OuterModes::enable).
    pub fn disable(self) -> (out: Vec<u8>)
        ensures
            out@ == self.reset(),
    {
        let mut out: Vec<u8> = Vec::new();
        extend_when(&mut out, self.extended_keys, &KEYS_OFF);
        extend_when(&mut out, self.focus_events, &FOCUS_OFF);
        extend_when(&mut out, self.sgr_mouse, &MOUSE_OFF);
        extend_when(&mut out, self.bracketed_paste, &PASTE_OFF);
        assert(Seq::<u8>::empty() + if_asked(self.extended_keys, KEYS_OFF@) =~= if_asked(
            self.extended_keys,
            KEYS_OFF@,
        ));
        out
    }
}

/// A mouse report as the outer terminal sent it, in zero-based cells of the
/// whole terminal.
#[derive(Clone, Copy, Debug, PartialEq, Eq, Structural)]
pub struct MouseReport {
    pub kind: MouseKind,
    pub mods: MouseMods,
    pub col: u16,
    pub row: u16,
}

/// One thing the user did.
#[derive(Clone, Debug, PartialEq, Eq)]
pub enum InputEvent {
    /// Ordinary typed bytes, already encoded by the terminal.
    Keys(Vec<u8>),
    /// Text the user pasted, with the paste brackets removed.
    Paste(Vec<u8>),
    /// The terminal gained or lost focus.
    Focus(bool),
    /// A mouse report, not yet routed.
    Mouse(MouseReport),
}

/// An event by its contents.
pub enum EventView {
    Keys(Seq<u8>),
    Paste(Seq<u8>),
    Focus(bool),
    Mouse(MouseReport),
}

impl View for InputEvent {
    type V = EventView;

    open spec fn view(&self) -> EventView {
        match self {
            InputEvent::Keys(bytes) => EventView::Keys(bytes@),
            InputEvent::Paste(bytes) => EventView::Paste(bytes@),
            InputEvent::Focus(gained) => EventView::Focus(*gained),
            InputEvent::Mouse(report) => EventView::Mouse(*report),
        }
    }
}

/// Events by their contents.
pub open spec fn event_views(events: Seq<InputEvent>) -> Seq<EventView> {
    events.map_values(|event: InputEvent| event@)
}

/// The smallest things a byte stream decodes to: one typed byte, or one whole
/// paste or report.
pub enum Atom {
    Key(u8),
    Paste(Seq<u8>),
    Focus(bool),
    Mouse(MouseReport),
}

/// The sequences the decoder claims.
#[derive(Clone, Copy, Debug, PartialEq, Eq, Structural)]
pub enum Token {
    PasteStart,
    Focus(bool),
    Mouse(MouseReport),
}

/// What a look at the head of a buffer found.
#[derive(Clone, Copy, Debug, PartialEq, Eq, Structural)]
pub enum Found {
    /// A complete sequence of this length.
    Complete(Token, usize),
    /// The start of one, but not all of it yet.
    Partial,
    /// Not a sequence this decoder claims.
    Other,
}

/// What stands at the head of a buffer, by length in bytes.
pub enum Scan {
    Complete(Token, nat),
    Partial,
    Other,
}

impl View for Found {
    type V = Scan;

    open spec fn view(&self) -> Scan {
        match self {
            Found::Complete(token, len) => Scan::Complete(*token, *len as nat),
            Found::Partial => Scan::Partial,
            Found::Other => Scan::Other,
        }
    }
}

/// Whether a buffer holds, starts, or contradicts a sequence.
#[derive(Clone, Copy, Debug, PartialEq, Eq, Structural)]
pub enum Compare {
    /// The sequence is entirely present.
    Equal,
    /// The buffer ended part-way through it.
    Prefix,
    /// The buffer is something else.
    Different,
}

/// How the head of `buf` relates to `sequence`.
pub open spec fn compared(buf: Seq<u8>, sequence: Seq<u8>) -> Compare {
    if opens_with(buf, sequence) {
        Compare::Equal
    } else if opens_with(sequence, buf) {
        Compare::Prefix
    } else {
        Compare::Different
    }
}

fn compare(buf: &[u8], sequence: &[u8]) -> (compare: Compare)
    ensures
        compare == compared(buf@, sequence@),
{
    if buf.len() >= sequence.len() {
        if starts_with(buf, sequence) {
            return Compare::Equal;
        }
        if buf.len() == sequence.len() {
            assert(sequence@.take(buf@.len() as int) == sequence@);
            assert(buf@.take(sequence@.len() as int) == buf@);
        }
        return Compare::Different;
    }
    if starts_with(sequence, buf) {
        return Compare::Prefix;
    }
    Compare::Different
}

/// The report a decoded `code;col;row` triple stands for, if it is one a
/// terminal sends: a known button, and coordinates that count from one.
pub open spec fn report_of(code: u32, col: u32, row: u32, released: bool) -> Option<MouseReport> {
    let mods = MouseMods { shift: code & 4 != 0, alt: code & 8 != 0, ctrl: code & 16 != 0 };
    let motion = code & 32 != 0;
    let button = code & 0xc3;
    let held = if button == 0 {
        Some(MouseButton::Left)
    } else if button == 1 {
        Some(MouseButton::Middle)
    } else if button == 2 {
        Some(MouseButton::Right)
    } else {
        None
    };
    let kind = if button == 64 {
        Some(MouseKind::ScrollUp)
    } else if button == 65 {
        Some(MouseKind::ScrollDown)
    } else if button > 3 {
        None
    } else if motion {
        Some(MouseKind::Motion(held))
    } else if held is None {
        None
    } else if released {
        Some(MouseKind::Release(held->0))
    } else {
        Some(MouseKind::Press(held->0))
    };
    if kind is Some && 1 <= col <= 65536 && 1 <= row <= 65536 {
        Some(
            MouseReport {
                kind: kind->0,
                mods,
                col: (col - 1) as u16,
                row: (row - 1) as u16,
            },
        )
    } else {
        None
    }
}

fn sgr_report(code: u32, col: u32, row: u32, released: bool) -> (report: Option<MouseReport>)
    ensures
        report == report_of(code, col, row, released),
{
    let mods = MouseMods { shift: code & 4 != 0, alt: code & 8 != 0, ctrl: code & 16 != 0 };
    let motion: bool = code & 32 != 0;
    let held: Option<MouseButton> = match code & 0xc3 {
        0 => Some(MouseButton::Left),
        1 => Some(MouseButton::Middle),
        2 => Some(MouseButton::Right),
        3 => None,
        64 => return build(MouseKind::ScrollUp, mods, col, row),
        65 => return build(MouseKind::ScrollDown, mods, col, row),
        _ => return None,
    };
    let kind: MouseKind = if motion {
        MouseKind::Motion(held)
    } else {
        match held {
            Some(button) => if released {
                MouseKind::Release(button)
            } else {
                MouseKind::Press(button)
            },
            None => return None,
        }
    };
    build(kind, mods, col, row)
}

/// Turns one-based coordinates into zero-based cells.
fn build(kind: MouseKind, mods: MouseMods, col: u32, row: u32) -> (report: Option<MouseReport>)
    ensures
        report is Some <==> 1 <= col <= 65536 && 1 <= row <= 65536,
        report matches Some(made) ==> made == (MouseReport {
            kind,
            mods,
            col: (col - 1) as u16,
            row: (row - 1) as u16,
        }),
{
    if 1 <= col && col <= 65536 && 1 <= row && row <= 65536 {
        Some(MouseReport { kind, mods, col: (col - 1) as u16, row: (row - 1) as u16 })
    } else {
        None
    }
}

/// Reads `code;col;row` and its final byte from `index` on, given the fields
/// already read, the value of the one being read, and whether it has a digit.
pub open spec fn sgr_from(
    buf: Seq<u8>,
    index: nat,
    done: Seq<u32>,
    value: u32,
    digits: bool,
) -> Scan
    decreases buf.len() - index,
{
    if index >= buf.len() {
        Scan::Partial
    } else {
        let byte = buf[index as int];
        if 0x30 <= byte <= 0x39 {
            let next = value * 10 + (byte - 0x30);
            if next > u32::MAX {
                Scan::Other
            } else {
                sgr_from(buf, index + 1, done, next as u32, true)
            }
        } else if byte == 0x3b && done.len() < 2 && digits {
            sgr_from(buf, index + 1, done.push(value), 0, false)
        } else if (byte == 0x4d || byte == 0x6d) && done.len() == 2 && digits {
            match report_of(done[0], done[1], value, byte == 0x6d) {
                Some(report) => Scan::Complete(Token::Mouse(report), index + 1),
                None => Scan::Other,
            }
        } else {
            Scan::Other
        }
    }
}

/// What an SGR mouse report at the head of `buf` amounts to:
/// `ESC [ < code ; col ; row (M|m)`.
pub open spec fn sgr_at(buf: Seq<u8>) -> Scan {
    if buf.len() < 2 {
        Scan::Partial
    } else if buf[1] != 0x5b {
        Scan::Other
    } else if buf.len() < 3 {
        Scan::Partial
    } else if buf[2] != 0x3c {
        Scan::Other
    } else {
        sgr_from(buf, 3, seq![], 0, false)
    }
}

fn decode_sgr_mouse(buf: &[u8]) -> (found: Found)
    requires
        buf.len() > 0,
    ensures
        found@ == sgr_at(buf@),
{
    if buf.len() < 2 {
        return Found::Partial;
    }
    if buf[1] != 0x5b {
        return Found::Other;
    }
    if buf.len() < 3 {
        return Found::Partial;
    }
    if buf[2] != 0x3c {
        return Found::Other;
    }
    let mut done: Vec<u32> = Vec::new();
    let mut value: u32 = 0;
    let mut digits: bool = false;
    let mut index: usize = 3;
    while index < buf.len()
        invariant
            3 <= index <= buf.len(),
            done.len() <= 2,
            sgr_at(buf@) == sgr_from(buf@, index as nat, done@, value, digits),
        decreases buf.len() - index,
    {
        let byte: u8 = buf[index];
        if 0x30 <= byte && byte <= 0x39 {
            let next: u64 = (value as u64) * 10 + ((byte - 0x30) as u64);
            if next > 0xffff_ffff {
                return Found::Other;
            }
            value = next as u32;
            digits = true;
        } else if byte == 0x3b && done.len() < 2 && digits {
            done.push(value);
            value = 0;
            digits = false;
        } else if (byte == 0x4d || byte == 0x6d) && done.len() == 2 && digits {
            return match sgr_report(done[0], done[1], value, byte == 0x6d) {
                Some(report) => Found::Complete(Token::Mouse(report), index + 1),
                None => Found::Other,
            };
        } else {
            return Found::Other;
        }
        index = index + 1;
    }
    Found::Partial
}

/// What stands at the head of `buf`, for a terminal in `modes`. Only the
/// sequences of modes that were asked for are claimed.
pub open spec fn found_at(modes: OuterModes, buf: Seq<u8>) -> Scan {
    let paste = compared(buf, PASTE_START@);
    let gained = compared(buf, FOCUS_IN@);
    let lost = compared(buf, FOCUS_OUT@);
    if buf[0] != 0x1b {
        Scan::Other
    } else if modes.bracketed_paste && paste is Equal {
        Scan::Complete(Token::PasteStart, 6)
    } else if modes.bracketed_paste && paste is Prefix {
        Scan::Partial
    } else if modes.focus_events && gained is Equal {
        Scan::Complete(Token::Focus(true), 3)
    } else if modes.focus_events && gained is Prefix {
        Scan::Partial
    } else if modes.focus_events && lost is Equal {
        Scan::Complete(Token::Focus(false), 3)
    } else if modes.focus_events && lost is Prefix {
        Scan::Partial
    } else if modes.sgr_mouse {
        sgr_at(buf)
    } else {
        Scan::Other
    }
}

/// Looks at the sequence at the head of `buf`.
fn look(modes: OuterModes, buf: &[u8]) -> (found: Found)
    requires
        buf.len() > 0,
    ensures
        found@ == found_at(modes, buf@),
{
    if buf[0] != 0x1b {
        return Found::Other;
    }
    if modes.bracketed_paste {
        match compare(buf, &PASTE_START) {
            Compare::Equal => return Found::Complete(Token::PasteStart, 6),
            Compare::Prefix => return Found::Partial,
            Compare::Different => {},
        }
    }
    if modes.focus_events {
        match compare(buf, &FOCUS_IN) {
            Compare::Equal => return Found::Complete(Token::Focus(true), 3),
            Compare::Prefix => return Found::Partial,
            Compare::Different => {},
        }
        match compare(buf, &FOCUS_OUT) {
            Compare::Equal => return Found::Complete(Token::Focus(false), 3),
            Compare::Prefix => return Found::Partial,
            Compare::Different => {},
        }
    }
    if modes.sgr_mouse {
        return decode_sgr_mouse(buf);
    }
    Found::Other
}

/// What a decoder remembers between reads.
pub struct Reading {
    /// Bytes not yet resolved into an event.
    pub pending: Seq<u8>,
    /// Whether a paste has started and not ended.
    pub pasting: bool,
    /// What of that paste has been read.
    pub paste: Seq<u8>,
}

/// A decoder that has read nothing.
pub open spec fn nothing_read() -> Reading {
    Reading { pending: seq![], pasting: false, paste: seq![] }
}

/// `reading` with `bytes` read behind what is pending.
pub open spec fn reading_more(reading: Reading, bytes: Seq<u8>) -> Reading {
    Reading { pending: reading.pending + bytes, ..reading }
}

/// Everything the pending bytes decode to, and what is still held.
///
/// Inside a paste everything up to the end marker is content. Outside, a
/// claimed sequence is one atom, a byte nothing claims is a key, and the start
/// of a sequence that is not all there is held.
pub open spec fn decoded(modes: OuterModes, reading: Reading) -> (Seq<Atom>, Reading)
    decreases reading.pending.len(),
{
    let buf = reading.pending;
    if buf.len() == 0 {
        (seq![], reading)
    } else if reading.pasting {
        match first_at(buf, PASTE_END@) {
            Some(at) => if at + 6 > buf.len() {
                (seq![], reading)
            } else {
                let rest = Reading {
                    pending: buf.skip(at as int + 6),
                    pasting: false,
                    paste: seq![],
                };
                let (atoms, end) = decoded(modes, rest);
                (seq![Atom::Paste(reading.paste + buf.take(at as int))] + atoms, end)
            },
            None => {
                let upto = buf.len() - held(buf, PASTE_END@);
                (
                    seq![],
                    Reading {
                        pending: buf.skip(upto),
                        pasting: true,
                        paste: reading.paste + buf.take(upto),
                    },
                )
            },
        }
    } else {
        match found_at(modes, buf) {
            Scan::Partial => (seq![], reading),
            Scan::Complete(token, len) => if len == 0 || len > buf.len() {
                (seq![], reading)
            } else {
                let rest = Reading {
                    pending: buf.skip(len as int),
                    pasting: token is PasteStart,
                    paste: reading.paste,
                };
                let (atoms, end) = decoded(modes, rest);
                (token_atoms(token) + atoms, end)
            },
            Scan::Other => {
                let rest = Reading { pending: buf.drop_first(), ..reading };
                let (atoms, end) = decoded(modes, rest);
                (seq![Atom::Key(buf[0])] + atoms, end)
            },
        }
    }
}

/// The atoms a claimed sequence is. The start of a paste is none: the paste is
/// one once its end arrives.
pub open spec fn token_atoms(token: Token) -> Seq<Atom> {
    match token {
        Token::PasteStart => seq![],
        Token::Focus(gained) => seq![Atom::Focus(gained)],
        Token::Mouse(report) => seq![Atom::Mouse(report)],
    }
}

/// The typed bytes `run`, as an event, where there are any.
pub open spec fn keys_event(run: Seq<u8>) -> Seq<EventView> {
    if run.len() == 0 {
        seq![]
    } else {
        seq![EventView::Keys(run)]
    }
}

/// The events `atoms` make up behind the typed bytes `run`: bytes typed in a
/// row are one event.
pub open spec fn grouped(run: Seq<u8>, atoms: Seq<Atom>) -> Seq<EventView>
    decreases atoms.len(),
{
    if atoms.len() == 0 {
        keys_event(run)
    } else {
        let rest = atoms.drop_first();
        match atoms[0] {
            Atom::Key(byte) => grouped(run.push(byte), rest),
            Atom::Paste(bytes) => keys_event(run) + seq![EventView::Paste(bytes)] + grouped(
                seq![],
                rest,
            ),
            Atom::Focus(gained) => keys_event(run) + seq![EventView::Focus(gained)] + grouped(
                seq![],
                rest,
            ),
            Atom::Mouse(report) => keys_event(run) + seq![EventView::Mouse(report)] + grouped(
                seq![],
                rest,
            ),
        }
    }
}

/// Splits a terminal's byte stream into [`InputEvent`]s.
///
/// A sequence split across two reads is held rather than mis-decoded;
/// [`flush`](InputDecoder::flush) releases what is held, so that a lone Escape
/// is not held forever.
#[derive(Clone, Debug)]
pub struct InputDecoder {
    modes: OuterModes,
    pending: Vec<u8>,
    pasting: bool,
    paste: Vec<u8>,
}

impl View for InputDecoder {
    type V = Reading;

    closed spec fn view(&self) -> Reading {
        Reading { pending: self.pending@, pasting: self.pasting, paste: self.paste@ }
    }
}

impl InputDecoder {
    /// The modes this decoder recognises sequences for.
    pub closed spec fn recognised(&self) -> OuterModes {
        self.modes
    }

    /// A decoder for a terminal in `modes`.
    pub fn new(modes: OuterModes) -> (decoder: InputDecoder)
        ensures
            decoder.recognised() == modes,
            decoder@ == nothing_read(),
    {
        InputDecoder { modes, pending: Vec::new(), pasting: false, paste: Vec::new() }
    }

    /// The modes this decoder recognises sequences for.
    pub fn modes(&self) -> (modes: OuterModes)
        ensures
            modes == self.recognised(),
    {
        self.modes
    }

    /// Whether anything is being held back for more bytes.
    pub fn is_holding(&self) -> (holding: bool)
        ensures
            holding == (self@.pending.len() > 0),
    {
        self.pending.len() > 0
    }

    /// Decodes everything `bytes` completes, holding back any partial sequence.
    pub fn feed(&mut self, bytes: &[u8]) -> (events: Vec<InputEvent>)
        ensures
            final(self).recognised() == old(self).recognised(),
            event_views(events@) == grouped(
                seq![],
                decoded(old(self).recognised(), reading_more(old(self)@, bytes@)).0,
            ),
            final(self)@ == decoded(old(self).recognised(), reading_more(old(self)@, bytes@)).1,
    {
        let ghost modes = self.modes;
        let ghost whole = reading_more(self@, bytes@);
        extend_bytes(&mut self.pending, bytes);
        let mut events: Vec<InputEvent> = Vec::new();
        let mut keys: Vec<u8> = Vec::new();
        let mut index: usize = 0;
        let mut stopped: bool = false;
        proof {
            assert(self.pending@.skip(0) == self.pending@);
            assert(event_views(events@) =~= seq![]);
            assert(seq![] + grouped(keys@, decoded(modes, whole).0) =~= grouped(
                seq![],
                decoded(modes, whole).0,
            ));
        }
        while !stopped && index < self.pending.len()
            invariant
                self.modes == modes,
                index <= self.pending.len(),
                event_views(events@) + grouped(
                    keys@,
                    decoded(
                        modes,
                        Reading {
                            pending: self.pending@.skip(index as int),
                            pasting: self.pasting,
                            paste: self.paste@,
                        },
                    ).0,
                ) == grouped(seq![], decoded(modes, whole).0),
                decoded(
                    modes,
                    Reading {
                        pending: self.pending@.skip(index as int),
                        pasting: self.pasting,
                        paste: self.paste@,
                    },
                ).1 == decoded(modes, whole).1,
                self.pasting ==> keys.len() == 0,
                stopped ==> decoded(
                    modes,
                    Reading {
                        pending: self.pending@.skip(index as int),
                        pasting: self.pasting,
                        paste: self.paste@,
                    },
                ) == (
                    Seq::<Atom>::empty(),
                    Reading {
                        pending: self.pending@.skip(index as int),
                        pasting: self.pasting,
                        paste: self.paste@,
                    },
                ),
            decreases (if stopped { 0int } else { 1int }), self.pending.len() - index,
        {
            let ghost here = Reading {
                pending: self.pending@.skip(index as int),
                pasting: self.pasting,
                paste: self.paste@,
            };
            let ghost buf = here.pending;
            let ghost events_before = event_views(events@);
            let ghost keys_before = keys@;
            if self.pasting {
                match find(self.pending.as_slice(), index, &PASTE_END) {
                    Some(at) => {
                        let ghost k = at as int;
                        let content = vstd::slice::slice_subrange(
                            self.pending.as_slice(),
                            index,
                            index + at,
                        );
                        let mut paste: Vec<u8> = Vec::new();
                        std::mem::swap(&mut paste, &mut self.paste);
                        extend_bytes(&mut paste, content);
                        assert(content@ == buf.take(k));
                        index = index + at + 6;
                        self.pasting = false;
                        assert(self.pending@.skip(index as int) == buf.skip(k + 6));
                        events.push(InputEvent::Paste(paste));
                        proof {
                            let rest = Reading {
                                pending: buf.skip(k + 6),
                                pasting: false,
                                paste: seq![],
                            };
                            assert(self.paste@ =~= Seq::<u8>::empty());
                            let atoms = decoded(modes, rest).0;
                            let all = decoded(modes, here).0;
                            assert(all == seq![Atom::Paste(here.paste + buf.take(k))] + atoms);
                            assert(all.drop_first() =~= atoms);
                            assert(event_views(events@) =~= events_before.push(
                                EventView::Paste(here.paste + buf.take(k)),
                            ));
                            assert(keys@ =~= Seq::<u8>::empty());
                            assert(events_before + grouped(keys@, all) =~= event_views(events@)
                                + grouped(keys@, atoms));
                        }
                    },
                    None => {
                        let held: usize = partial_suffix(self.pending.as_slice(), index, &PASTE_END);
                        let upto: usize = self.pending.len() - held;
                        let content = vstd::slice::slice_subrange(
                            self.pending.as_slice(),
                            index,
                            upto,
                        );
                        let mut paste: Vec<u8> = Vec::new();
                        std::mem::swap(&mut paste, &mut self.paste);
                        extend_bytes(&mut paste, content);
                        assert(content@ == buf.take(upto - index));
                        self.paste = paste;
                        index = upto;
                        stopped = true;
                        proof {
                            assert(self.pending@.skip(index as int) == buf.skip(
                                buf.len() - held,
                            ));
                            let end = decoded(modes, here).1;
                            held_stays_held(modes, here);
                            assert(end == (Reading {
                                pending: self.pending@.skip(index as int),
                                pasting: self.pasting,
                                paste: self.paste@,
                            }));
                        }
                    },
                }
            } else {
                let tail = vstd::slice::slice_subrange(
                    self.pending.as_slice(),
                    index,
                    self.pending.len(),
                );
                assert(tail@ == buf);
                let found = look(self.modes, tail);
                proof {
                    found_fits(modes, buf);
                }
                match found {
                    Found::Complete(token, len) => {
                        let ghost rest = Reading {
                            pending: buf.skip(len as int),
                            pasting: token is PasteStart,
                            paste: here.paste,
                        };
                        let ghost atoms = decoded(modes, rest).0;
                        let ghost all = decoded(modes, here).0;
                        let ghost flushed = events_before + keys_event(keys_before);
                        if keys.len() > 0 {
                            let mut run: Vec<u8> = Vec::new();
                            std::mem::swap(&mut run, &mut keys);
                            events.push(InputEvent::Keys(run));
                        }
                        assert(keys@ =~= Seq::<u8>::empty());
                        assert(event_views(events@) =~= flushed);
                        index = index + len;
                        assert(self.pending@.skip(index as int) == buf.skip(len as int));
                        match token {
                            Token::PasteStart => {
                                self.pasting = true;
                                proof {
                                    assert(all =~= atoms);
                                    paste_comes_first(modes, rest, keys_before);
                                    assert(events_before + grouped(keys_before, all) =~= flushed
                                        + grouped(keys@, atoms));
                                }
                            },
                            Token::Focus(gained) => {
                                events.push(InputEvent::Focus(gained));
                                proof {
                                    assert(all.drop_first() =~= atoms);
                                    assert(event_views(events@) =~= flushed.push(
                                        EventView::Focus(gained),
                                    ));
                                    assert(events_before + grouped(keys_before, all)
                                        =~= event_views(events@) + grouped(keys@, atoms));
                                }
                            },
                            Token::Mouse(report) => {
                                events.push(InputEvent::Mouse(report));
                                proof {
                                    assert(all.drop_first() =~= atoms);
                                    assert(event_views(events@) =~= flushed.push(
                                        EventView::Mouse(report),
                                    ));
                                    assert(events_before + grouped(keys_before, all)
                                        =~= event_views(events@) + grouped(keys@, atoms));
                                }
                            },
                        }
                    },
                    Found::Partial => {
                        stopped = true;
                    },
                    Found::Other => {
                        keys.push(self.pending[index]);
                        index = index + 1;
                        proof {
                            assert(self.pending@.skip(index as int) == buf.drop_first());
                            let all = decoded(modes, here).0;
                            let rest = Reading { pending: buf.drop_first(), ..here };
                            assert(all.drop_first() =~= decoded(modes, rest).0);
                        }
                    },
                }
            }
        }
        let rest = self.pending.split_off(index);
        self.pending = rest;
        if keys.len() > 0 {
            events.push(InputEvent::Keys(keys));
        }
        events
    }

    /// Releases anything held back as ordinary keys. A paste in progress is
    /// never flushed: its terminator really is still coming.
    pub fn flush(&mut self) -> (event: Option<InputEvent>)
        ensures
            final(self).recognised() == old(self).recognised(),
            old(self)@.pasting || old(self)@.pending.len() == 0 ==> event is None && final(self)@
                == old(self)@,
            !old(self)@.pasting && old(self)@.pending.len() > 0 ==> event is Some && event->0@
                == EventView::Keys(old(self)@.pending) && final(self)@ == (Reading {
                pending: seq![],
                ..old(self)@
            }),
    {
        if self.pasting || self.pending.len() == 0 {
            return None;
        }
        let mut run: Vec<u8> = Vec::new();
        std::mem::swap(&mut run, &mut self.pending);
        Some(InputEvent::Keys(run))
    }
}

/// A complete sequence is one the buffer really holds.
proof fn found_fits(modes: OuterModes, buf: Seq<u8>)
    requires
        buf.len() > 0,
    ensures
        found_at(modes, buf) matches Scan::Complete(_, len) ==> 0 < len <= buf.len(),
{
    sgr_fits(buf, 3, seq![], 0, false);
}

proof fn sgr_fits(buf: Seq<u8>, index: nat, done: Seq<u32>, value: u32, digits: bool)
    ensures
        sgr_from(buf, index, done, value, digits) matches Scan::Complete(_, len) ==> index < len
            <= buf.len(),
    decreases buf.len() - index,
{
    if index < buf.len() {
        let byte = buf[index as int];
        if 0x30 <= byte <= 0x39 {
            if value * 10 + (byte - 0x30) <= u32::MAX {
                sgr_fits(buf, index + 1, done, (value * 10 + (byte - 0x30)) as u32, true);
            }
        } else if byte == 0x3b && done.len() < 2 && digits {
            sgr_fits(buf, index + 1, done.push(value), 0, false);
        }
    }
}

/// What a paste holds back decodes to nothing until more is read.
proof fn held_stays_held(modes: OuterModes, reading: Reading)
    requires
        reading.pasting,
        reading.pending.len() > 0,
        first_at(reading.pending, PASTE_END@) is None,
    ensures
        decoded(modes, decoded(modes, reading).1) == (
            Seq::<Atom>::empty(),
            decoded(modes, reading).1,
        ),
{
    let buf = reading.pending;
    let end = decoded(modes, reading).1;
    let len = held(buf, PASTE_END@);
    held_is_longest(buf, PASTE_END@);
    if len > 0 {
        let tail = end.pending;
        assert(tail.len() == len);
        assert(tail.skip(tail.len() - len) =~= tail);
        assert(could_become(tail, PASTE_END@, len));
        held_is_longest(tail, PASTE_END@);
        assert(held(tail, PASTE_END@) == len);
        assert(first_at(tail, PASTE_END@) is None);
        assert(tail.skip(0) =~= tail);
        assert(end.paste + tail.take(0) =~= end.paste);
    }
}

/// Inside a paste, the next atom is that paste.
proof fn paste_comes_first(modes: OuterModes, reading: Reading, run: Seq<u8>)
    requires
        reading.pasting,
    ensures
        grouped(run, decoded(modes, reading).0) == keys_event(run) + grouped(
            seq![],
            decoded(modes, reading).0,
        ),
{
    let atoms = decoded(modes, reading).0;
    if atoms.len() == 0 {
        assert(keys_event(run) + keys_event(seq![]) =~= keys_event(run));
    } else {
        assert(atoms[0] is Paste);
        assert(grouped(run, atoms) =~= keys_event(run) + grouped(seq![], atoms));
    }
}

proof fn settled_comparison(buf: Seq<u8>, more: Seq<u8>, sequence: Seq<u8>)
    requires
        compared(buf, sequence) !is Prefix,
    ensures
        compared(buf + more, sequence) == compared(buf, sequence),
{
    let longer = buf + more;
    let n = sequence.len() as int;
    if opens_with(buf, sequence) {
        assert(longer.take(n) =~= buf.take(n));
    } else {
        if opens_with(longer, sequence) {
            if buf.len() >= n {
                assert(buf.take(n) =~= longer.take(n));
            } else {
                assert(sequence.take(buf.len() as int) =~= buf);
            }
        }
        if opens_with(sequence, longer) {
            assert(sequence.take(buf.len() as int) =~= longer.take(buf.len() as int));
            assert(longer.take(buf.len() as int) =~= buf);
        }
    }
}

proof fn settled_sgr(buf: Seq<u8>, more: Seq<u8>, index: nat, done: Seq<u32>, value: u32, digits: bool)
    requires
        sgr_from(buf, index, done, value, digits) !is Partial,
    ensures
        sgr_from(buf + more, index, done, value, digits) == sgr_from(
            buf,
            index,
            done,
            value,
            digits,
        ),
    decreases buf.len() - index,
{
    let byte = buf[index as int];
    assert((buf + more)[index as int] == byte);
    if 0x30 <= byte <= 0x39 {
        if value * 10 + (byte - 0x30) <= u32::MAX {
            settled_sgr(buf, more, index + 1, done, (value * 10 + (byte - 0x30)) as u32, true);
        }
    } else if byte == 0x3b && done.len() < 2 && digits {
        settled_sgr(buf, more, index + 1, done.push(value), 0, false);
    }
}

/// What was found does not change when more is read, except where a sequence
/// was only begun.
pub proof fn found_is_final(modes: OuterModes, buf: Seq<u8>, more: Seq<u8>)
    requires
        buf.len() > 0,
        found_at(modes, buf) !is Partial,
    ensures
        found_at(modes, buf + more) == found_at(modes, buf),
{
    let longer = buf + more;
    assert(longer[0] == buf[0]);
    if buf[0] == 0x1b {
        if modes.bracketed_paste {
            settled_comparison(buf, more, PASTE_START@);
        }
        if !(modes.bracketed_paste && compared(buf, PASTE_START@) is Equal) {
            if modes.focus_events {
                settled_comparison(buf, more, FOCUS_IN@);
                if compared(buf, FOCUS_IN@) !is Equal {
                    settled_comparison(buf, more, FOCUS_OUT@);
                }
            }
            let focus = modes.focus_events && (compared(buf, FOCUS_IN@) is Equal || compared(
                buf,
                FOCUS_OUT@,
            ) is Equal);
            if !focus && modes.sgr_mouse {
                assert(longer[1] == buf[1]);
                if buf[1] == 0x5b {
                    assert(longer[2] == buf[2]);
                    if buf[2] == 0x3c {
                        settled_sgr(buf, more, 3, seq![], 0, false);
                    }
                }
            }
        }
    }
}

/// A paste that has not ended goes on where it was, whatever was held back.
proof fn unfinished_paste_loses_nothing(modes: OuterModes, reading: Reading, more: Seq<u8>)
    requires
        reading.pasting,
        reading.pending.len() > 0,
        first_at(reading.pending, PASTE_END@) is None,
    ensures
        decoded(modes, reading).0 == Seq::<Atom>::empty(),
        decoded(modes, reading_more(reading, more)) == decoded(
            modes,
            reading_more(decoded(modes, reading).1, more),
        ),
{
    let buf = reading.pending;
    let longer = buf + more;
    let end = decoded(modes, reading).1;
    let marker = PASTE_END@;
    let kept = held(buf, marker);
    held_is_longest(buf, marker);
    let upto = buf.len() - kept;
    assert forall|j: int| 0 <= j < upto implies !stands_at(longer, marker, j) by {
        starts_after_content(buf, more, marker, j);
    }
    first_at_after_skip(longer, marker, upto as nat);
    let tail = end.pending + more;
    assert(longer.skip(upto) =~= tail);
    match first_at(tail, marker) {
        Some(at) => {
            let k = at as int;
            first_at_is_first(tail, marker);
            assert(longer.skip(upto + k + 6) =~= tail.skip(k + 6));
            assert(reading.paste + longer.take(upto + k) =~= end.paste + tail.take(k));
        },
        None => {
            held_after_content(buf, more, marker);
            let last = held(longer, marker);
            held_is_longest(tail, marker);
            if tail.len() > 0 {
                assert(longer.skip(longer.len() - last) =~= tail.skip(tail.len() - last));
                assert(reading.paste + longer.take(longer.len() - last) =~= end.paste + tail.take(
                    tail.len() - last,
                ));
            } else {
                assert(last == 0);
                assert(longer.skip(longer.len() as int) =~= tail);
                assert(reading.paste + longer.take(longer.len() as int) =~= end.paste);
            }
        },
    }
}

/// Reading what comes after some held bytes gives what reading everything at
/// once would have given.
proof fn held_bytes_lose_nothing(modes: OuterModes, reading: Reading, more: Seq<u8>)
    ensures
        decoded(modes, reading_more(reading, more)).0 == decoded(modes, reading).0 + decoded(
            modes,
            reading_more(decoded(modes, reading).1, more),
        ).0,
        decoded(modes, reading_more(reading, more)).1 == decoded(
            modes,
            reading_more(decoded(modes, reading).1, more),
        ).1,
    decreases reading.pending.len(),
{
    let buf = reading.pending;
    let longer = buf + more;
    let whole = reading_more(reading, more);
    let (atoms, end) = decoded(modes, reading);
    let after = decoded(modes, reading_more(end, more));
    if buf.len() == 0 {
        assert(atoms + after.0 =~= after.0);
    } else if reading.pasting {
        first_at_is_first(buf, PASTE_END@);
        match first_at(buf, PASTE_END@) {
            Some(at) => {
                let k = at as int;
                assert forall|j: int| 0 <= j < k implies !stands_at(longer, PASTE_END@, j) by {
                    if stands_at(longer, PASTE_END@, j) {
                        assert(longer.subrange(j, j + 6) =~= buf.subrange(j, j + 6));
                        assert(stands_at(buf, PASTE_END@, j));
                    }
                }
                assert(longer.subrange(k, k + 6) =~= buf.subrange(k, k + 6));
                first_at_finds(longer, PASTE_END@, at);
                let rest = Reading { pending: buf.skip(k + 6), pasting: false, paste: seq![] };
                held_bytes_lose_nothing(modes, rest, more);
                assert(longer.skip(k + 6) =~= buf.skip(k + 6) + more);
                assert(longer.take(k) =~= buf.take(k));
                assert(decoded(modes, whole).0 =~= atoms + after.0);
            },
            None => {
                unfinished_paste_loses_nothing(modes, reading, more);
            },
        }
    } else {
        found_fits(modes, buf);
        match found_at(modes, buf) {
            Scan::Partial => {
                assert(atoms + after.0 =~= after.0);
            },
            Scan::Complete(token, len) => {
                found_is_final(modes, buf, more);
                let rest = Reading {
                    pending: buf.skip(len as int),
                    pasting: token is PasteStart,
                    paste: reading.paste,
                };
                held_bytes_lose_nothing(modes, rest, more);
                assert(longer.skip(len as int) =~= buf.skip(len as int) + more);
                assert(decoded(modes, whole).0 =~= atoms + after.0);
            },
            Scan::Other => {
                found_is_final(modes, buf, more);
                let rest = Reading { pending: buf.drop_first(), ..reading };
                held_bytes_lose_nothing(modes, rest, more);
                assert(longer.drop_first() =~= buf.drop_first() + more);
                assert(decoded(modes, whole).0 =~= atoms + after.0);
            },
        }
    }
}

/// A read can be split anywhere: decoding `first` and then `second` gives the
/// atoms, and leaves the decoder as, decoding both at once.
pub proof fn reads_can_be_split(
    modes: OuterModes,
    reading: Reading,
    first: Seq<u8>,
    second: Seq<u8>,
)
    ensures
        ({
            let (head, between) = decoded(modes, reading_more(reading, first));
            let (tail, end) = decoded(modes, reading_more(between, second));
            decoded(modes, reading_more(reading, first + second)) == (head + tail, end)
        }),
{
    held_bytes_lose_nothing(modes, reading_more(reading, first), second);
    assert(reading.pending + (first + second) =~= reading.pending + first + second);
}

/// The atoms an event is made of.
pub open spec fn event_atoms(event: EventView) -> Seq<Atom> {
    match event {
        EventView::Keys(bytes) => bytes.map_values(|byte: u8| Atom::Key(byte)),
        EventView::Paste(bytes) => seq![Atom::Paste(bytes)],
        EventView::Focus(gained) => seq![Atom::Focus(gained)],
        EventView::Mouse(report) => seq![Atom::Mouse(report)],
    }
}

/// The atoms `events` are made of, in order.
pub open spec fn spelled(events: Seq<EventView>) -> Seq<Atom>
    decreases events.len(),
{
    if events.len() == 0 {
        seq![]
    } else {
        event_atoms(events[0]) + spelled(events.drop_first())
    }
}

proof fn spelled_append(a: Seq<EventView>, b: Seq<EventView>)
    ensures
        spelled(a + b) == spelled(a) + spelled(b),
    decreases a.len(),
{
    if a.len() == 0 {
        assert(a + b =~= b);
        assert(spelled(a) + spelled(b) =~= spelled(b));
    } else {
        assert((a + b).drop_first() =~= a.drop_first() + b);
        spelled_append(a.drop_first(), b);
        assert(spelled(a + b) =~= spelled(a) + spelled(b));
    }
}

/// Grouping typed bytes into events keeps every atom, in order.
pub proof fn grouping_keeps_every_atom(run: Seq<u8>, atoms: Seq<Atom>)
    ensures
        spelled(grouped(run, atoms)) == run.map_values(|byte: u8| Atom::Key(byte)) + atoms,
    decreases atoms.len(),
{
    let typed = run.map_values(|byte: u8| Atom::Key(byte));
    assert(spelled(keys_event(run)) =~= typed) by {
        if run.len() > 0 {
            assert(keys_event(run).drop_first() =~= seq![]);
            assert(typed + spelled(seq![]) =~= typed);
        }
    }
    if atoms.len() == 0 {
        assert(typed + atoms =~= typed);
    } else {
        let rest = atoms.drop_first();
        match atoms[0] {
            Atom::Key(byte) => {
                grouping_keeps_every_atom(run.push(byte), rest);
                assert(run.push(byte).map_values(|byte: u8| Atom::Key(byte)) + rest =~= typed
                    + atoms);
            },
            _ => {
                grouping_keeps_every_atom(seq![], rest);
                let event = match atoms[0] {
                    Atom::Paste(bytes) => EventView::Paste(bytes),
                    Atom::Focus(gained) => EventView::Focus(gained),
                    Atom::Mouse(report) => EventView::Mouse(report),
                    Atom::Key(_) => arbitrary(),
                };
                spelled_append(keys_event(run) + seq![event], grouped(seq![], rest));
                spelled_append(keys_event(run), seq![event]);
                assert(seq![event].drop_first() =~= seq![]);
                assert(event_atoms(event) =~= seq![atoms[0]]);
                assert(spelled(seq![event]) =~= event_atoms(event) + spelled(seq![]));
                assert(spelled(seq![event]) =~= seq![atoms[0]]);
                assert(Seq::<u8>::empty().map_values(|byte: u8| Atom::Key(byte)) + rest =~= rest);
                assert(typed + seq![atoms[0]] + rest =~= typed + atoms);
            },
        }
    }
}

/// Two reads give the same atoms, whichever events they were grouped into, as
/// one read of both.
pub proof fn events_do_not_depend_on_reads(
    modes: OuterModes,
    reading: Reading,
    first: Seq<u8>,
    second: Seq<u8>,
)
    ensures
        ({
            let (head, between) = decoded(modes, reading_more(reading, first));
            let (tail, end) = decoded(modes, reading_more(between, second));
            let (all, same_end) = decoded(modes, reading_more(reading, first + second));
            &&& spelled(grouped(seq![], head) + grouped(seq![], tail)) == spelled(
                grouped(seq![], all),
            )
            &&& end == same_end
        }),
{
    reads_can_be_split(modes, reading, first, second);
    let (head, between) = decoded(modes, reading_more(reading, first));
    let tail = decoded(modes, reading_more(between, second)).0;
    grouping_keeps_every_atom(seq![], head);
    grouping_keeps_every_atom(seq![], tail);
    grouping_keeps_every_atom(seq![], head + tail);
    spelled_append(grouped(seq![], head), grouped(seq![], tail));
    let none = Seq::<u8>::empty().map_values(|byte: u8| Atom::Key(byte));
    assert(none + head =~= head);
    assert(none + tail =~= tail);
    assert(none + (head + tail) =~= head + tail);
}

/// Where no mode was asked for, nothing is claimed and nothing is held: every
/// byte is a key.
pub proof fn nothing_requested_claims_nothing(bytes: Seq<u8>)
    ensures
        decoded(OuterModes::none(), reading_more(nothing_read(), bytes)) == (
            bytes.map_values(|byte: u8| Atom::Key(byte)),
            nothing_read(),
        ),
    decreases bytes.len(),
{
    let reading = reading_more(nothing_read(), bytes);
    assert(reading.pending =~= bytes);
    if bytes.len() > 0 {
        let rest = bytes.drop_first();
        nothing_requested_claims_nothing(rest);
        assert(nothing_read().pending + rest =~= rest);
        assert(seq![Atom::Key(bytes[0])] + rest.map_values(|byte: u8| Atom::Key(byte))
            =~= bytes.map_values(|byte: u8| Atom::Key(byte)));
    } else {
        assert(bytes.map_values(|byte: u8| Atom::Key(byte)) =~= seq![]);
    }
}

/// A paste arrives whole, whatever it holds, as one event without its
/// brackets: reports inside it are content.
pub proof fn paste_arrives_whole(modes: OuterModes, content: Seq<u8>)
    requires
        modes.bracketed_paste,
        forall|at: int| 0 <= at < content.len() ==> !stands_at(content + PASTE_END@, PASTE_END@, at),
    ensures
        decoded(
            modes,
            reading_more(nothing_read(), PASTE_START@ + content + PASTE_END@),
        ) == (seq![Atom::Paste(content)], nothing_read()),
{
    let bytes = PASTE_START@ + content + PASTE_END@;
    let reading = reading_more(nothing_read(), bytes);
    assert(reading.pending =~= bytes);
    assert(bytes.take(6) =~= PASTE_START@);
    let inside = content + PASTE_END@;
    assert(bytes.skip(6) =~= inside);
    assert(inside.subrange(content.len() as int, content.len() as int + 6) =~= PASTE_END@);
    first_at_finds(inside, PASTE_END@, content.len());
    let second = Reading { pending: inside, pasting: true, paste: seq![] };
    let third = Reading { pending: seq![], pasting: false, paste: seq![] };
    assert(inside.skip(content.len() as int + 6) =~= seq![]);
    assert(Seq::<u8>::empty() + inside.take(content.len() as int) =~= content);
    assert(decoded(modes, third) == (Seq::<Atom>::empty(), third));
    assert(decoded(modes, second).0 =~= seq![Atom::Paste(content)]);
    assert(decoded(modes, reading).0 =~= seq![Atom::Paste(content)]);
}

/// Who a mouse event belongs to.
#[derive(Clone, Copy, Debug, PartialEq, Eq, Structural)]
pub enum MouseOwner {
    /// The client's own chrome. Never forwarded to a child.
    Chrome,
    /// The pane's application, which asked to hear about the mouse.
    Application,
}

/// Whether a mouse event is the application's or the chrome's. A pointer that
/// is not over the pane `modes` describes, a held shift, and an application
/// that tracks nothing each make it the chrome's.
#[verifier::allow_in_spec]
pub fn mouse_owner(modes: PaneModes, report: &MouseReport, over_pane: bool) -> MouseOwner
    returns
        (if over_pane && !report.mods.shift && modes.mouse != MouseTracking::Off {
            MouseOwner::Application
        } else {
            MouseOwner::Chrome
        }),
{
    if !over_pane || report.mods.shift || modes.mouse == MouseTracking::Off {
        return MouseOwner::Chrome;
    }
    MouseOwner::Application
}

/// One pane as the client drew it, in the outer terminal's own cells. `size` is
/// the grid alone; the header row sits immediately above it.
#[derive(Clone, Copy, Debug, PartialEq, Eq, Structural)]
pub struct PaneArea {
    pub pane: PaneId,
    pub x: u16,
    pub y: u16,
    pub size: Size,
    pub header: bool,
}

impl PaneArea {
    /// A pane's grid at `(x, y)`, with a header row above it.
    #[verifier::allow_in_spec]
    pub fn new(pane: PaneId, x: u16, y: u16, size: Size) -> PaneArea
        returns
            (PaneArea { pane, x, y, size, header: true }),
    {
        PaneArea { pane, x, y, size, header: true }
    }

    /// The same area with no header row drawn above it.
    #[verifier::allow_in_spec]
    pub fn headerless(self) -> PaneArea
        returns
            (PaneArea { header: false, ..self }),
    {
        PaneArea { header: false, ..self }
    }

    /// Whether `(col, row)` is inside the pane's grid.
    #[verifier::allow_in_spec]
    pub fn contains(&self, col: u16, row: u16) -> bool
        returns
            (self.x <= col && self.y <= row && col < self.x.saturating_add(self.size.cols) && row
                < self.y.saturating_add(self.size.rows)),
    {
        col >= self.x && row >= self.y && col < self.x.saturating_add(self.size.cols) && row
            < self.y.saturating_add(self.size.rows)
    }

    /// The cell `(col, row)` names inside this pane, zero-based, if it is
    /// inside at all.
    #[verifier::allow_in_spec]
    pub fn local(&self, col: u16, row: u16) -> Option<Point>
        returns
            (if self.contains(col, row) {
                Some(Point { col: (col - self.x) as u16, row: (row - self.y) as u16 })
            } else {
                None
            }),
    {
        if !self.contains(col, row) {
            return None;
        }
        Some(Point::new(col - self.x, row - self.y))
    }

    /// Whether `(col, row)` is on this pane's header row.
    #[verifier::allow_in_spec]
    pub fn on_header(&self, col: u16, row: u16) -> bool
        returns
            (self.header && row + 1 == self.y && self.x <= col && col < self.x.saturating_add(
                self.size.cols,
            )),
    {
        self.header && self.y > 0 && row == self.y - 1 && col >= self.x && col
            < self.x.saturating_add(self.size.cols)
    }
}

/// What the client drew, in enough detail to place a mouse report.
#[derive(Debug, PartialEq, Eq)]
pub struct ScreenLayout {
    pub size: Size,
    pub tab_row: Option<u16>,
    pub status_row: Option<u16>,
    pub focused: Option<PaneId>,
    pub panes: Vec<PaneArea>,
}

/// A screen by its contents.
#[verifier::ext_equal]
pub struct ScreenView {
    pub size: Size,
    pub tab_row: Option<u16>,
    pub status_row: Option<u16>,
    pub focused: Option<PaneId>,
    pub panes: Seq<PaneArea>,
}

impl View for ScreenLayout {
    type V = ScreenView;

    open spec fn view(&self) -> ScreenView {
        ScreenView {
            size: self.size,
            tab_row: self.tab_row,
            status_row: self.status_row,
            focused: self.focused,
            panes: self.panes@,
        }
    }
}

impl ScreenView {
    /// Where `(col, row)` lands: off the screen, on a chrome row, in a pane's
    /// grid, on a pane's header, or between panes, in that order.
    pub open spec fn target(self, col: u16, row: u16) -> MouseTarget {
        if col >= self.size.cols || row >= self.size.rows {
            MouseTarget::Chrome(ChromeTarget::Outside)
        } else if self.tab_row == Some(row) {
            MouseTarget::Chrome(ChromeTarget::TabRow { col })
        } else if self.status_row == Some(row) {
            MouseTarget::Chrome(ChromeTarget::StatusBar { col })
        } else {
            match grid_at(self.panes, col, row) {
                Some((pane, at)) => MouseTarget::Pane { pane, at },
                None => match header_at(self.panes, col, row) {
                    Some((pane, col)) => MouseTarget::Chrome(ChromeTarget::Header { pane, col }),
                    None => MouseTarget::Chrome(ChromeTarget::Gutter),
                },
            }
        }
    }
}

/// Where a mouse report landed on the screen.
#[derive(Clone, Copy, Debug, PartialEq, Eq, Structural)]
pub enum MouseTarget {
    /// Inside a pane's grid, at a pane-local cell.
    Pane { pane: PaneId, at: Point },
    /// On a piece of the client's own chrome.
    Chrome(ChromeTarget),
}

impl MouseTarget {
    /// The pane whose grid was hit, or `None` for every chrome target.
    #[verifier::allow_in_spec]
    pub fn pane(&self) -> Option<PaneId>
        returns
            (match self {
                MouseTarget::Pane { pane, .. } => Some(*pane),
                MouseTarget::Chrome(_) => None,
            }),
    {
        match self {
            MouseTarget::Pane { pane, .. } => Some(*pane),
            MouseTarget::Chrome(_) => None,
        }
    }
}

/// Which piece of chrome a mouse report landed on.
#[derive(Clone, Copy, Debug, PartialEq, Eq, Structural)]
pub enum ChromeTarget {
    /// The tab row, at a terminal column.
    TabRow { col: u16 },
    /// The status bar, at a terminal column.
    StatusBar { col: u16 },
    /// A pane's header row, at a column of the header.
    Header { pane: PaneId, col: u16 },
    /// Inside a pane's grid, but not the application's.
    PaneBody { pane: PaneId, at: Point },
    /// The space between panes.
    Gutter,
    /// Off the described screen entirely.
    Outside,
}

/// The first pane whose grid holds `(col, row)`, and the cell within it.
pub open spec fn grid_at(panes: Seq<PaneArea>, col: u16, row: u16) -> Option<(PaneId, Point)>
    decreases panes.len(),
{
    if panes.len() == 0 {
        None
    } else {
        match panes[0].local(col, row) {
            Some(at) => Some((panes[0].pane, at)),
            None => grid_at(panes.drop_first(), col, row),
        }
    }
}

/// The first pane whose header row holds `(col, row)`, and the column of it.
pub open spec fn header_at(panes: Seq<PaneArea>, col: u16, row: u16) -> Option<(PaneId, u16)>
    decreases panes.len(),
{
    if panes.len() == 0 {
        None
    } else if panes[0].on_header(col, row) {
        Some((panes[0].pane, (col - panes[0].x) as u16))
    } else {
        header_at(panes.drop_first(), col, row)
    }
}

impl ScreenLayout {
    /// An empty screen of `size`: no chrome rows and no panes.
    pub fn new(size: Size) -> (layout: ScreenLayout)
        ensures
            layout.size == size,
            layout.tab_row is None,
            layout.status_row is None,
            layout.focused is None,
            layout.panes@ == Seq::<PaneArea>::empty(),
    {
        ScreenLayout { size, tab_row: None, status_row: None, focused: None, panes: Vec::new() }
    }

    /// One pane filling the whole terminal, with no chrome at all.
    pub fn single(size: Size, pane: PaneId) -> (layout: ScreenLayout)
        ensures
            layout.size == size,
            layout.tab_row is None,
            layout.status_row is None,
            layout.focused == Some(pane),
            layout.panes@ == seq![PaneArea::new(pane, 0, 0, size).headerless()],
    {
        ScreenLayout::new(size).focus(Some(pane)).pane(
            PaneArea::new(pane, 0, 0, size).headerless(),
        )
    }

    /// Records the terminal row the tab bar occupies.
    pub fn tab_row(self, row: u16) -> (layout: ScreenLayout)
        ensures
            layout == (ScreenLayout { tab_row: Some(row), ..self }),
    {
        ScreenLayout { tab_row: Some(row), ..self }
    }

    /// Records the terminal row the status bar occupies.
    pub fn status_row(self, row: u16) -> (layout: ScreenLayout)
        ensures
            layout == (ScreenLayout { status_row: Some(row), ..self }),
    {
        ScreenLayout { status_row: Some(row), ..self }
    }

    /// Records which pane holds focus, and so whose modes the client has.
    pub fn focus(self, pane: Option<PaneId>) -> (layout: ScreenLayout)
        ensures
            layout == (ScreenLayout { focused: pane, ..self }),
    {
        ScreenLayout { focused: pane, ..self }
    }

    /// Adds one drawn pane.
    pub fn pane(self, area: PaneArea) -> (layout: ScreenLayout)
        ensures
            layout.size == self.size,
            layout.tab_row == self.tab_row,
            layout.status_row == self.status_row,
            layout.focused == self.focused,
            layout.panes@ == self.panes@.push(area),
    {
        let ScreenLayout { size, tab_row, status_row, focused, panes } = self;
        let mut panes = panes;
        panes.push(area);
        ScreenLayout { size, tab_row, status_row, focused, panes }
    }

    /// The focused pane, if the screen has one.
    #[verifier::allow_in_spec]
    pub fn focused(&self) -> Option<PaneId>
        returns
            (self.focused),
    {
        self.focused
    }

    /// Every pane on the screen, in the order they were added.
    pub fn panes(&self) -> (panes: &[PaneArea])
        ensures
            panes@ == self.panes@,
    {
        self.panes.as_slice()
    }

    /// Where `(col, row)` landed.
    pub fn hit(&self, col: u16, row: u16) -> (target: MouseTarget)
        ensures
            target == self@.target(col, row),
    {
        if col >= self.size.cols || row >= self.size.rows {
            return MouseTarget::Chrome(ChromeTarget::Outside);
        }
        if self.tab_row == Some(row) {
            return MouseTarget::Chrome(ChromeTarget::TabRow { col });
        }
        if self.status_row == Some(row) {
            return MouseTarget::Chrome(ChromeTarget::StatusBar { col });
        }
        let mut i: usize = 0;
        assert(self.panes@.skip(0) =~= self.panes@);
        while i < self.panes.len()
            invariant
                i <= self.panes.len(),
                col < self.size.cols,
                row < self.size.rows,
                self.tab_row != Some(row),
                self.status_row != Some(row),
                grid_at(self.panes@, col, row) == grid_at(self.panes@.skip(i as int), col, row),
            decreases self.panes.len() - i,
        {
            let area = self.panes[i];
            if let Some(at) = area.local(col, row) {
                return MouseTarget::Pane { pane: area.pane, at };
            }
            assert(self.panes@.skip(i as int).drop_first() =~= self.panes@.skip(i + 1));
            i = i + 1;
        }
        assert(grid_at(self.panes@, col, row) is None);
        let mut j: usize = 0;
        while j < self.panes.len()
            invariant
                j <= self.panes.len(),
                col < self.size.cols,
                row < self.size.rows,
                self.tab_row != Some(row),
                self.status_row != Some(row),
                grid_at(self.panes@, col, row) is None,
                header_at(self.panes@, col, row) == header_at(self.panes@.skip(j as int), col, row),
            decreases self.panes.len() - j,
        {
            let area = self.panes[j];
            if area.on_header(col, row) {
                return MouseTarget::Chrome(
                    ChromeTarget::Header { pane: area.pane, col: col - area.x },
                );
            }
            assert(self.panes@.skip(j as int).drop_first() =~= self.panes@.skip(j + 1));
            j = j + 1;
        }
        MouseTarget::Chrome(ChromeTarget::Gutter)
    }
}

/// Where one mouse report is going. A chrome event has no wire shape, so there
/// is nothing for a caller to send by mistake.
#[derive(Clone, Copy, Debug, PartialEq, Eq, Structural)]
pub enum MouseRoute {
    /// The pane's application owns it.
    Application(MouseEvent),
    /// The client's own.
    Chrome(ChromeTarget),
}

impl MouseRoute {
    /// The event to send, if there is one.
    pub fn wire_event(&self) -> (event: Option<&MouseEvent>)
        ensures
            event == (match self {
                MouseRoute::Application(event) => Some(event),
                MouseRoute::Chrome(_) => None,
            }),
    {
        match self {
            MouseRoute::Application(event) => Some(event),
            MouseRoute::Chrome(_) => None,
        }
    }
}

/// Whose a mouse report over `layout` is, given the focused pane's modes.
pub open spec fn mouse_route(layout: ScreenView, modes: PaneModes, report: MouseReport) -> MouseRoute {
    match layout.target(report.col, report.row) {
        MouseTarget::Chrome(target) => MouseRoute::Chrome(target),
        MouseTarget::Pane { pane, at } => if mouse_owner(
            modes,
            &report,
            layout.focused == Some(pane),
        ) is Application {
            MouseRoute::Application(
                MouseEvent { pane, at, kind: report.kind, mods: report.mods },
            )
        } else {
            MouseRoute::Chrome(ChromeTarget::PaneBody { pane, at })
        },
    }
}

/// Routes a mouse report over the screen the client drew.
pub fn route_mouse(layout: &ScreenLayout, modes: PaneModes, report: &MouseReport) -> (route:
    MouseRoute)
    ensures
        route == mouse_route(layout@, modes, *report),
{
    match layout.hit(report.col, report.row) {
        MouseTarget::Chrome(target) => MouseRoute::Chrome(target),
        MouseTarget::Pane { pane, at } => {
            let known: bool = layout.focused() == Some(pane);
            if mouse_owner(modes, report, known) == MouseOwner::Application {
                MouseRoute::Application(
                    MouseEvent { pane, at, kind: report.kind, mods: report.mods },
                )
            } else {
                MouseRoute::Chrome(ChromeTarget::PaneBody { pane, at })
            }
        },
    }
}

/// A chrome row is claimed before any pane is consulted, whatever the panes
/// say they cover.
pub proof fn chrome_rows_come_first(layout: ScreenView, col: u16, row: u16)
    requires
        layout.tab_row == Some(row) || layout.status_row == Some(row),
    ensures
        layout.target(col, row) is Chrome,
        layout.target(col, row).pane() is None,
{
}

/// A header never swallows a cell some pane's grid occupies.
pub proof fn headers_never_cover_a_grid(layout: ScreenView, col: u16, row: u16, i: int)
    requires
        0 <= i < layout.panes.len(),
        layout.panes[i].contains(col, row),
        col < layout.size.cols,
        row < layout.size.rows,
        layout.tab_row != Some(row),
        layout.status_row != Some(row),
    ensures
        layout.target(col, row) is Pane,
{
    grid_is_found(layout.panes, col, row, i);
}

proof fn grid_is_found(panes: Seq<PaneArea>, col: u16, row: u16, i: int)
    requires
        0 <= i < panes.len(),
        panes[i].contains(col, row),
    ensures
        grid_at(panes, col, row) is Some,
    decreases panes.len(),
{
    if i > 0 {
        grid_is_found(panes.drop_first(), col, row, i - 1);
    }
}

/// A mouse event reaches the wire only for the focused pane, from a cell of
/// that pane's own grid, while its application tracks the mouse and shift is
/// not held. Nothing over chrome ever does.
pub proof fn only_the_tracking_pane_hears_the_mouse(
    layout: ScreenView,
    modes: PaneModes,
    report: MouseReport,
)
    ensures
        mouse_route(layout, modes, report) matches MouseRoute::Application(event) ==> {
            &&& layout.focused == Some(event.pane)
            &&& layout.target(report.col, report.row) == (MouseTarget::Pane {
                pane: event.pane,
                at: event.at,
            })
            &&& modes.mouse != MouseTracking::Off
            &&& !report.mods.shift
        },
        layout.target(report.col, report.row) is Chrome ==> mouse_route(
            layout,
            modes,
            report,
        ) is Chrome,
{
}

/// Every mode that is turned on is turned off again, in the reverse order, and
/// a terminal asked for nothing is written nothing.
pub proof fn modes_are_reset_as_they_were_requested(modes: OuterModes)
    ensures
        modes.request().len() == 0 <==> modes == OuterModes::none(),
        modes.reset().len() == 0 <==> modes == OuterModes::none(),
        (OuterModes { extended_keys: false, ..modes }).request() + if_asked(
            modes.extended_keys,
            KEYS_ON@,
        ) == modes.request(),
        if_asked(modes.extended_keys, KEYS_OFF@) + (OuterModes { extended_keys: false, ..modes }).reset()
            == modes.reset(),
{
    assert((OuterModes { extended_keys: false, ..modes }).request() + if_asked(
        modes.extended_keys,
        KEYS_ON@,
    ) =~= modes.request());
    assert(if_asked(modes.extended_keys, KEYS_OFF@) + (OuterModes { extended_keys: false, ..modes }).reset()
        =~= modes.reset());
}

/// Nothing is asked of the outer terminal that it did not report.
pub proof fn only_reported_modes_are_requested(caps: TermCaps)
    ensures
        OuterModes::negotiated(caps).request() == if_asked(caps.bracketed_paste, PASTE_ON@)
            + if_asked(caps.sgr_mouse, MOUSE_ON@) + if_asked(caps.focus_events, FOCUS_ON@)
            + if_asked(caps.extended_keys, KEYS_ON@),
{
}

/// The number a terminal writes for what a mouse did: the button, plus what each
/// modifier and motion add.
pub open spec fn wire_code(kind: MouseKind, mods: MouseMods) -> nat {
    let button: nat = match kind {
        MouseKind::Press(button) => button_code(button),
        MouseKind::Release(button) => button_code(button),
        MouseKind::Motion(Some(button)) => 32 + button_code(button),
        MouseKind::Motion(None) => 35,
        MouseKind::ScrollUp => 64,
        MouseKind::ScrollDown => 65,
    };
    let shift: nat = if mods.shift {
        4
    } else {
        0
    };
    let alt: nat = if mods.alt {
        8
    } else {
        0
    };
    let ctrl: nat = if mods.ctrl {
        16
    } else {
        0
    };
    button + shift + alt + ctrl
}

/// The number of a button.
pub open spec fn button_code(button: MouseButton) -> nat {
    match button {
        MouseButton::Left => 0,
        MouseButton::Middle => 1,
        MouseButton::Right => 2,
    }
}

/// An SGR mouse report: its three numbers, and `m` where a button was let go.
pub open spec fn sgr_bytes(code: Seq<u8>, col: Seq<u8>, row: Seq<u8>, released: bool) -> Seq<u8> {
    seq![0x1bu8, 0x5bu8, 0x3cu8] + code + seq![0x3bu8] + col + seq![0x3bu8] + row + seq![
        if released {
            0x6du8
        } else {
            0x4du8
        },
    ]
}

proof fn sgr_reads_digits(
    buf: Seq<u8>,
    index: nat,
    done: Seq<u32>,
    value: u32,
    digits: bool,
    number: Seq<u8>,
)
    requires
        index + number.len() <= buf.len(),
        buf.subrange(index as int, index as int + number.len()) == number,
        forall|i: int| 0 <= i < number.len() ==> 0x30 <= #[trigger] number[i] <= 0x39,
        number_from(value as nat, number) <= u32::MAX,
    ensures
        sgr_from(buf, index, done, value, digits) == sgr_from(
            buf,
            index + number.len(),
            done,
            number_from(value as nat, number) as u32,
            digits || number.len() > 0,
        ),
    decreases number.len(),
{
    if number.len() > 0 {
        let rest = number.drop_first();
        let next = (value * 10 + (number[0] - 0x30)) as nat;
        assert(buf[index as int] == number[0]) by {
            assert(buf.subrange(index as int, index as int + number.len())[0] == number[0]);
        }
        assert forall|i: int| 0 <= i < rest.len() implies 0x30 <= #[trigger] rest[i] <= 0x39 by {
            assert(rest[i] == number[i + 1]);
        }
        digits_only_add(next, rest);
        assert(buf.subrange(index as int + 1, index as int + 1 + rest.len()) =~= rest) by {
            assert(buf.subrange(index as int, index as int + number.len()).drop_first() =~= buf.subrange(
                index as int + 1,
                index as int + 1 + rest.len(),
            ));
        }
        sgr_reads_digits(buf, index + 1, done, next as u32, true, rest);
    }
}

/// The report of a code: buttons, modifiers and motion each have their own place
/// in it, and the coordinates count from one.
pub proof fn a_code_says_what_the_mouse_did(code: u32, col: u32, row: u32, released: bool)
    ensures
        ({
            let button = code % 4;
            let wheel = code / 64 % 4;
            let moves = code / 32 % 2 == 1;
            let held = if button == 0 {
                Some(MouseButton::Left)
            } else if button == 1 {
                Some(MouseButton::Middle)
            } else if button == 2 {
                Some(MouseButton::Right)
            } else {
                None
            };
            let known = (wheel == 0 && (moves || button < 3)) || (wheel == 1 && button < 2);
            let placed = 1 <= col <= 65536 && 1 <= row <= 65536;
            &&& report_of(code, col, row, released) is Some <==> known && placed
            &&& report_of(code, col, row, released) matches Some(report) ==> {
                &&& report.col + 1 == col
                &&& report.row + 1 == row
                &&& report.mods.shift == (code / 4 % 2 == 1)
                &&& report.mods.alt == (code / 8 % 2 == 1)
                &&& report.mods.ctrl == (code / 16 % 2 == 1)
                &&& report.kind == if wheel == 1 {
                    if button == 0 {
                        MouseKind::ScrollUp
                    } else {
                        MouseKind::ScrollDown
                    }
                } else if moves {
                    MouseKind::Motion(held)
                } else if released {
                    MouseKind::Release(held->0)
                } else {
                    MouseKind::Press(held->0)
                }
            }
        }),
{
    assert(code & 0xc3 == code % 4 + 64 * (code / 64 % 4)) by (bit_vector);
    assert((code & 4 != 0) == (code / 4 % 2 == 1)) by (bit_vector);
    assert((code & 8 != 0) == (code / 8 % 2 == 1)) by (bit_vector);
    assert((code & 16 != 0) == (code / 16 % 2 == 1)) by (bit_vector);
    assert((code & 32 != 0) == (code / 32 % 2 == 1)) by (bit_vector);
}

/// What a mouse did is read as it was done: the report a terminal writes for a
/// press, a release, a motion or a turn of the wheel, at any place and with any
/// modifiers, is one event that says exactly that.
#[verifier::rlimit(40)]
pub proof fn a_mouse_report_reads_back(
    modes: OuterModes,
    kind: MouseKind,
    mods: MouseMods,
    code: Seq<u8>,
    col: Seq<u8>,
    row: Seq<u8>,
    released: bool,
)
    requires
        modes.sgr_mouse,
        is_number(code),
        is_number(col),
        is_number(row),
        number_of(code) == wire_code(kind, mods),
        1 <= number_of(col) <= 65536,
        1 <= number_of(row) <= 65536,
        kind is Press ==> !released,
        kind is Release ==> released,
    ensures
        ({
            let report = MouseReport {
                kind,
                mods,
                col: (number_of(col) - 1) as u16,
                row: (number_of(row) - 1) as u16,
            };
            let (atoms, left) = decoded(
                modes,
                reading_more(nothing_read(), sgr_bytes(code, col, row, released)),
            );
            &&& grouped(seq![], atoms) == seq![EventView::Mouse(report)]
            &&& left == nothing_read()
        }),
{
    let buf = sgr_bytes(code, col, row, released);
    let report = MouseReport {
        kind,
        mods,
        col: (number_of(col) - 1) as u16,
        row: (number_of(row) - 1) as u16,
    };
    let at1 = 3 + code.len();
    let at2 = at1 + 1 + col.len();
    let at3 = at2 + 1 + row.len();
    assert(buf.len() == at3 + 1);
    assert(buf.subrange(3, at1 as int) =~= code);
    assert(buf[at1 as int] == 0x3b);
    assert(buf.subrange(at1 as int + 1, at2 as int) =~= col);
    assert(buf[at2 as int] == 0x3b);
    assert(buf.subrange(at2 as int + 1, at3 as int) =~= row);
    let none = Seq::<u32>::empty();
    let (c, x, y) = (number_of(code) as u32, number_of(col) as u32, number_of(row) as u32);
    sgr_reads_digits(buf, 3, none, 0, false, code);
    sgr_reads_digits(buf, at1 + 1, none.push(c), 0, false, col);
    sgr_reads_digits(buf, at2 + 1, none.push(c).push(x), 0, false, row);
    a_code_says_what_the_mouse_did(c, x, y, released);
    assert(report_of(c, x, y, released) == Some(report));
    assert(sgr_from(buf, 3, none, 0, false) == Scan::Complete(
        Token::Mouse(report),
        buf.len(),
    ));
    assert(buf[0] == 0x1b && buf[1] == 0x5b && buf[2] == 0x3c);
    not_a_marker(buf, PASTE_START@);
    not_a_marker(buf, FOCUS_IN@);
    not_a_marker(buf, FOCUS_OUT@);
    assert(found_at(modes, buf) == Scan::Complete(Token::Mouse(report), buf.len()));
    one_token_decodes(modes, buf, Token::Mouse(report));
    let atoms = decoded(modes, reading_more(nothing_read(), buf)).0;
    assert(atoms =~= seq![Atom::Mouse(report)]);
    assert(atoms.drop_first() =~= seq![]);
    assert(grouped(seq![], atoms.drop_first()) =~= seq![]);
    assert(grouped(seq![], atoms) =~= seq![EventView::Mouse(report)]);
}

proof fn not_a_marker(buf: Seq<u8>, marker: Seq<u8>)
    requires
        buf.len() >= 3,
        marker.len() >= 3,
        buf[2] != marker[2],
    ensures
        compared(buf, marker) is Different,
{
    if opens_with(buf, marker) {
        assert(buf.take(marker.len() as int)[2] == buf[2]);
    }
    if opens_with(marker, buf) {
        assert(marker.take(buf.len() as int)[2] == marker[2]);
    }
}

proof fn one_token_decodes(modes: OuterModes, buf: Seq<u8>, token: Token)
    requires
        buf.len() > 0,
        token !is PasteStart,
        found_at(modes, buf) == Scan::Complete(token, buf.len()),
    ensures
        decoded(modes, reading_more(nothing_read(), buf)) == (token_atoms(token), nothing_read()),
{
    let reading = reading_more(nothing_read(), buf);
    assert(reading.pending =~= buf);
    let rest = Reading { pending: buf.skip(buf.len() as int), pasting: false, paste: seq![] };
    assert(rest.pending =~= seq![]);
    assert(decoded(modes, rest) == (Seq::<Atom>::empty(), rest));
    assert(rest == nothing_read());
    assert(token_atoms(token) + Seq::<Atom>::empty() =~= token_atoms(token));
}

/// The terminal's focus is read where it was asked for: `CSI I` gained it and
/// `CSI O` lost it.
pub proof fn focus_reads_back(modes: OuterModes, gained: bool)
    requires
        modes.focus_events,
    ensures
        ({
            let bytes = seq![
                0x1bu8,
                0x5bu8,
                if gained {
                    0x49u8
                } else {
                    0x4fu8
                },
            ];
            let (atoms, left) = decoded(modes, reading_more(nothing_read(), bytes));
            &&& grouped(seq![], atoms) == seq![EventView::Focus(gained)]
            &&& left == nothing_read()
        }),
{
    let bytes = seq![
        0x1bu8,
        0x5bu8,
        if gained {
            0x49u8
        } else {
            0x4fu8
        },
    ];
    not_a_marker(bytes, PASTE_START@);
    if gained {
        assert(bytes.take(3) =~= FOCUS_IN@);
    } else {
        not_a_marker(bytes, FOCUS_IN@);
        assert(bytes.take(3) =~= FOCUS_OUT@);
    }
    one_token_decodes(modes, bytes, Token::Focus(gained));
    let atoms = decoded(modes, reading_more(nothing_read(), bytes)).0;
    assert(atoms =~= seq![Atom::Focus(gained)]);
    assert(atoms.drop_first() =~= seq![]);
    assert(grouped(seq![], atoms.drop_first()) =~= seq![]);
    assert(grouped(seq![], atoms) =~= seq![EventView::Focus(gained)]);
}

/// A paste is what stands between `CSI 200 ~` and `CSI 201 ~`, as one event and
/// byte for byte, whatever else it holds.
#[verifier::rlimit(40)]
pub proof fn a_paste_reads_back(modes: OuterModes, content: Seq<u8>)
    requires
        modes.bracketed_paste,
        forall|i: int|
            0 <= i && i + 6 <= content.len() ==> #[trigger] content.subrange(i, i + 6) != seq![
                0x1bu8,
                0x5bu8,
                0x32u8,
                0x30u8,
                0x31u8,
                0x7eu8,
            ],
    ensures
        ({
            let bytes = seq![0x1bu8, 0x5bu8, 0x32u8, 0x30u8, 0x30u8, 0x7eu8] + content + seq![
                0x1bu8,
                0x5bu8,
                0x32u8,
                0x30u8,
                0x31u8,
                0x7eu8,
            ];
            let (atoms, left) = decoded(modes, reading_more(nothing_read(), bytes));
            &&& grouped(seq![], atoms) == seq![EventView::Paste(content)]
            &&& left == nothing_read()
        }),
{
    let start = seq![0x1bu8, 0x5bu8, 0x32u8, 0x30u8, 0x30u8, 0x7eu8];
    let end = seq![0x1bu8, 0x5bu8, 0x32u8, 0x30u8, 0x31u8, 0x7eu8];
    assert(start =~= PASTE_START@);
    assert(end =~= PASTE_END@);
    let inside = content + end;
    assert forall|at: int| 0 <= at < content.len() implies !stands_at(inside, PASTE_END@, at) by {
        if stands_at(inside, PASTE_END@, at) {
            let seen = inside.subrange(at, at + 6);
            if at + 6 <= content.len() {
                assert(content.subrange(at, at + 6) =~= seen);
            } else {
                let from = content.len() - at;
                assert(0 < from < 6);
                assert(seen[from] == end[0]);
                assert(PASTE_END@[from] != 0x1b);
            }
        }
    }
    paste_arrives_whole(modes, content);
    let atoms = seq![Atom::Paste(content)];
    assert(atoms.drop_first() =~= seq![]);
    assert(grouped(seq![], atoms.drop_first()) =~= seq![]);
    assert(grouped(seq![], atoms) =~= seq![EventView::Paste(content)]);
}

/// Typed bytes that open no sequence are keys, unchanged, as one event and at
/// once, whatever was asked of the terminal.
pub proof fn typing_reads_as_typed(modes: OuterModes, bytes: Seq<u8>)
    requires
        bytes.len() > 0,
        forall|i: int| 0 <= i < bytes.len() ==> #[trigger] bytes[i] != 0x1b,
    ensures
        ({
            let (atoms, left) = decoded(modes, reading_more(nothing_read(), bytes));
            &&& grouped(seq![], atoms) == seq![EventView::Keys(bytes)]
            &&& left == nothing_read()
        }),
{
    assert(nothing_read().pending + bytes =~= bytes);
    plain_bytes_are_keys(modes, bytes);
    keys_group_as_one(seq![], bytes);
    assert(Seq::<u8>::empty() + bytes =~= bytes);
}

proof fn plain_bytes_are_keys(modes: OuterModes, bytes: Seq<u8>)
    requires
        forall|i: int| 0 <= i < bytes.len() ==> #[trigger] bytes[i] != 0x1b,
    ensures
        decoded(modes, Reading { pending: bytes, ..nothing_read() }) == (
            bytes.map_values(|byte: u8| Atom::Key(byte)),
            nothing_read(),
        ),
    decreases bytes.len(),
{
    if bytes.len() > 0 {
        let rest = bytes.drop_first();
        assert forall|i: int| 0 <= i < rest.len() implies #[trigger] rest[i] != 0x1b by {
            assert(rest[i] == bytes[i + 1]);
        }
        plain_bytes_are_keys(modes, rest);
        assert(bytes[0] != 0x1b);
        assert(seq![Atom::Key(bytes[0])] + rest.map_values(|byte: u8| Atom::Key(byte))
            =~= bytes.map_values(|byte: u8| Atom::Key(byte)));
    } else {
        assert(bytes.map_values(|byte: u8| Atom::Key(byte)) =~= seq![]);
        assert(bytes =~= seq![]);
    }
}

proof fn keys_group_as_one(run: Seq<u8>, bytes: Seq<u8>)
    ensures
        grouped(run, bytes.map_values(|byte: u8| Atom::Key(byte))) == keys_event(run + bytes),
    decreases bytes.len(),
{
    let atoms = bytes.map_values(|byte: u8| Atom::Key(byte));
    if bytes.len() > 0 {
        let rest = bytes.drop_first();
        assert(atoms.drop_first() =~= rest.map_values(|byte: u8| Atom::Key(byte)));
        keys_group_as_one(run.push(bytes[0]), rest);
        assert(run.push(bytes[0]) + rest =~= run + bytes);
    } else {
        assert(run + bytes =~= run);
    }
}

/// A report that was not asked for is not claimed: with the mouse off its bytes
/// are typed, and so are those of focus and paste.
pub proof fn what_was_not_asked_for_is_typed(modes: OuterModes, buf: Seq<u8>)
    requires
        buf.len() >= 3,
    ensures
        !modes.sgr_mouse && buf[2] == 0x3c ==> found_at(modes, buf) is Other,
        !modes.focus_events && (buf[2] == 0x49 || buf[2] == 0x4f) ==> found_at(modes, buf) is Other,
        !modes.bracketed_paste && buf[2] == 0x32 ==> found_at(modes, buf) is Other,
{
    if buf[2] != PASTE_START@[2] {
        not_a_marker(buf, PASTE_START@);
    }
    if buf[2] != FOCUS_IN@[2] {
        not_a_marker(buf, FOCUS_IN@);
    }
    if buf[2] != FOCUS_OUT@[2] {
        not_a_marker(buf, FOCUS_OUT@);
    }
}

/// What is written to turn the modes on, and off again: each mode its own
/// sequence, where it was asked for, and the reverse order on the way out.
pub proof fn modes_are_written_as_terminals_spell_them(modes: OuterModes)
    ensures
        ({
            let none = Seq::<u8>::empty();
            let private = |a: u8, b: u8, c: u8, d: u8, end: u8|
                seq![0x1bu8, 0x5bu8, 0x3fu8, a, b, c, d, end];
            let paste = |end: u8| private(0x32, 0x30, 0x30, 0x34, end);
            let click = |end: u8| private(0x31, 0x30, 0x30, 0x30, end);
            let drag = |end: u8| private(0x31, 0x30, 0x30, 0x32, end);
            let sgr = |end: u8| private(0x31, 0x30, 0x30, 0x36, end);
            let focus = |end: u8| private(0x31, 0x30, 0x30, 0x34, end);
            &&& modes.request() == (if modes.bracketed_paste {
                paste(0x68)
            } else {
                none
            }) + (if modes.sgr_mouse {
                click(0x68) + drag(0x68) + sgr(0x68)
            } else {
                none
            }) + (if modes.focus_events {
                focus(0x68)
            } else {
                none
            }) + (if modes.extended_keys {
                seq![0x1bu8, 0x5bu8, 0x3eu8, 0x31u8, 0x75u8]
            } else {
                none
            })
            &&& modes.reset() == (if modes.extended_keys {
                seq![0x1bu8, 0x5bu8, 0x3cu8, 0x75u8]
            } else {
                none
            }) + (if modes.focus_events {
                focus(0x6c)
            } else {
                none
            }) + (if modes.sgr_mouse {
                sgr(0x6c) + drag(0x6c) + click(0x6c)
            } else {
                none
            }) + (if modes.bracketed_paste {
                paste(0x6c)
            } else {
                none
            })
        }),
{
    let private = |a: u8, b: u8, c: u8, d: u8, end: u8|
        seq![0x1bu8, 0x5bu8, 0x3fu8, a, b, c, d, end];
    assert(PASTE_ON@ =~= private(0x32, 0x30, 0x30, 0x34, 0x68));
    assert(PASTE_OFF@ =~= private(0x32, 0x30, 0x30, 0x34, 0x6c));
    assert(MOUSE_ON@ =~= private(0x31, 0x30, 0x30, 0x30, 0x68) + private(
        0x31,
        0x30,
        0x30,
        0x32,
        0x68,
    ) + private(0x31, 0x30, 0x30, 0x36, 0x68));
    assert(MOUSE_OFF@ =~= private(0x31, 0x30, 0x30, 0x36, 0x6c) + private(
        0x31,
        0x30,
        0x30,
        0x32,
        0x6c,
    ) + private(0x31, 0x30, 0x30, 0x30, 0x6c));
    assert(FOCUS_ON@ =~= private(0x31, 0x30, 0x30, 0x34, 0x68));
    assert(FOCUS_OFF@ =~= private(0x31, 0x30, 0x30, 0x34, 0x6c));
    assert(KEYS_ON@ =~= seq![0x1bu8, 0x5bu8, 0x3eu8, 0x31u8, 0x75u8]);
    assert(KEYS_OFF@ =~= seq![0x1bu8, 0x5bu8, 0x3cu8, 0x75u8]);
}

/// Each mode is asked for exactly where the terminal reported it.
pub proof fn each_mode_follows_its_capability(caps: TermCaps)
    ensures
        OuterModes::negotiated(caps).bracketed_paste == caps.bracketed_paste,
        OuterModes::negotiated(caps).sgr_mouse == caps.sgr_mouse,
        OuterModes::negotiated(caps).focus_events == caps.focus_events,
        OuterModes::negotiated(caps).extended_keys == caps.extended_keys,
{
}

/// Whether a pane's grid is drawn over a cell.
pub open spec fn covers(area: PaneArea, col: int, row: int) -> bool {
    area.x <= col < area.x + area.size.cols && area.y <= row < area.y + area.size.rows
}

/// Whether a pane's header is drawn over a cell: the row above its grid.
pub open spec fn heads(area: PaneArea, col: int, row: int) -> bool {
    area.header && row == area.y - 1 && area.x <= col < area.x + area.size.cols
}

proof fn first_grid_wins(panes: Seq<PaneArea>, col: u16, row: u16, i: int)
    requires
        forall|k: int|
            0 <= k < panes.len() ==> (#[trigger] panes[k]).x + panes[k].size.cols <= u16::MAX
                && panes[k].y + panes[k].size.rows <= u16::MAX,
    ensures
        (0 <= i < panes.len() && covers(panes[i], col as int, row as int) && forall|k: int|
            0 <= k < i ==> !covers(#[trigger] panes[k], col as int, row as int)) ==> grid_at(
            panes,
            col,
            row,
        ) == Some(
            (
                panes[i].pane,
                Point { col: (col - panes[i].x) as u16, row: (row - panes[i].y) as u16 },
            ),
        ),
        (forall|k: int|
            0 <= k < panes.len() ==> !covers(#[trigger] panes[k], col as int, row as int))
            ==> grid_at(panes, col, row) is None,
    decreases panes.len(),
{
    if panes.len() > 0 {
        let rest = panes.drop_first();
        assert forall|k: int| 0 <= k < rest.len() implies (#[trigger] rest[k]).x
            + rest[k].size.cols <= u16::MAX && rest[k].y + rest[k].size.rows <= u16::MAX by {
            assert(rest[k] == panes[k + 1]);
        }
        first_grid_wins(rest, col, row, i - 1);
        assert(panes[0].contains(col, row) == covers(panes[0], col as int, row as int));
        if 0 < i < panes.len() && covers(panes[i], col as int, row as int) && (forall|k: int|
            0 <= k < i ==> !covers(#[trigger] panes[k], col as int, row as int)) {
            assert(rest[i - 1] == panes[i]);
            assert forall|k: int| 0 <= k < i - 1 implies !covers(
                #[trigger] rest[k],
                col as int,
                row as int,
            ) by {
                assert(rest[k] == panes[k + 1]);
            }
        }
        if forall|k: int|
            0 <= k < panes.len() ==> !covers(#[trigger] panes[k], col as int, row as int) {
            assert forall|k: int| 0 <= k < rest.len() implies !covers(
                #[trigger] rest[k],
                col as int,
                row as int,
            ) by {
                assert(rest[k] == panes[k + 1]);
            }
        }
    }
}

proof fn first_header_wins(panes: Seq<PaneArea>, col: u16, row: u16, i: int)
    requires
        forall|k: int|
            0 <= k < panes.len() ==> (#[trigger] panes[k]).x + panes[k].size.cols <= u16::MAX,
    ensures
        (0 <= i < panes.len() && heads(panes[i], col as int, row as int) && forall|k: int|
            0 <= k < i ==> !heads(#[trigger] panes[k], col as int, row as int)) ==> header_at(
            panes,
            col,
            row,
        ) == Some((panes[i].pane, (col - panes[i].x) as u16)),
        (forall|k: int|
            0 <= k < panes.len() ==> !heads(#[trigger] panes[k], col as int, row as int))
            ==> header_at(panes, col, row) is None,
    decreases panes.len(),
{
    if panes.len() > 0 {
        let rest = panes.drop_first();
        assert forall|k: int| 0 <= k < rest.len() implies (#[trigger] rest[k]).x
            + rest[k].size.cols <= u16::MAX by {
            assert(rest[k] == panes[k + 1]);
        }
        first_header_wins(rest, col, row, i - 1);
        assert(panes[0].on_header(col, row) == heads(panes[0], col as int, row as int));
        if 0 < i < panes.len() && heads(panes[i], col as int, row as int) && (forall|k: int|
            0 <= k < i ==> !heads(#[trigger] panes[k], col as int, row as int)) {
            assert(rest[i - 1] == panes[i]);
            assert forall|k: int| 0 <= k < i - 1 implies !heads(
                #[trigger] rest[k],
                col as int,
                row as int,
            ) by {
                assert(rest[k] == panes[k + 1]);
            }
        }
        if forall|k: int|
            0 <= k < panes.len() ==> !heads(#[trigger] panes[k], col as int, row as int) {
            assert forall|k: int| 0 <= k < rest.len() implies !heads(
                #[trigger] rest[k],
                col as int,
                row as int,
            ) by {
                assert(rest[k] == panes[k + 1]);
            }
        }
    }
}

/// The pointer lands on what is drawn under it: outside the screen, on a chrome
/// row, in the grid of a pane at the cell counted from that grid's corner, on a
/// pane's header at the column counted from its left end, or between the panes.
#[verifier::rlimit(40)]
pub proof fn the_pointer_lands_on_what_is_drawn(layout: ScreenView, col: u16, row: u16, i: int)
    requires
        forall|k: int|
            0 <= k < layout.panes.len() ==> (#[trigger] layout.panes[k]).x
                + layout.panes[k].size.cols <= u16::MAX && layout.panes[k].y
                + layout.panes[k].size.rows <= u16::MAX,
    ensures
        ({
            let target = layout.target(col, row);
            let inside = col < layout.size.cols && row < layout.size.rows;
            let on_tabs = layout.tab_row == Some(row);
            let on_status = layout.status_row == Some(row);
            let free = inside && !on_tabs && !on_status;
            let uncovered = forall|k: int|
                0 <= k < layout.panes.len() ==> !covers(
                    #[trigger] layout.panes[k],
                    col as int,
                    row as int,
                );
            let unheaded = forall|k: int|
                0 <= k < layout.panes.len() ==> !heads(
                    #[trigger] layout.panes[k],
                    col as int,
                    row as int,
                );
            &&& !inside ==> target == MouseTarget::Chrome(ChromeTarget::Outside)
            &&& inside && on_tabs ==> target == MouseTarget::Chrome(ChromeTarget::TabRow { col })
            &&& inside && !on_tabs && on_status ==> target == MouseTarget::Chrome(
                ChromeTarget::StatusBar { col },
            )
            &&& free && 0 <= i < layout.panes.len() && covers(
                layout.panes[i],
                col as int,
                row as int,
            ) && (forall|k: int|
                0 <= k < i ==> !covers(#[trigger] layout.panes[k], col as int, row as int))
                ==> target == (MouseTarget::Pane {
                pane: layout.panes[i].pane,
                at: Point {
                    col: (col - layout.panes[i].x) as u16,
                    row: (row - layout.panes[i].y) as u16,
                },
            })
            &&& free && uncovered && 0 <= i < layout.panes.len() && heads(
                layout.panes[i],
                col as int,
                row as int,
            ) && (forall|k: int|
                0 <= k < i ==> !heads(#[trigger] layout.panes[k], col as int, row as int))
                ==> target == MouseTarget::Chrome(
                ChromeTarget::Header {
                    pane: layout.panes[i].pane,
                    col: (col - layout.panes[i].x) as u16,
                },
            )
            &&& free && uncovered && unheaded ==> target == MouseTarget::Chrome(
                ChromeTarget::Gutter,
            )
        }),
{
    first_grid_wins(layout.panes, col, row, i);
    first_header_wins(layout.panes, col, row, i);
}

/// A report over the grid of the focused pane goes to its application, with what
/// the mouse did and the cell it did it on, exactly while that application tracks
/// the mouse and shift is not held. Every other report stays with the client, and
/// says what it landed on.
#[verifier::rlimit(40)]
pub proof fn the_application_hears_its_mouse(
    layout: ScreenView,
    modes: PaneModes,
    report: MouseReport,
)
    ensures
        ({
            let landed = layout.target(report.col, report.row);
            let route = mouse_route(layout, modes, report);
            match landed {
                MouseTarget::Chrome(target) => route == MouseRoute::Chrome(target),
                MouseTarget::Pane { pane, at } => if layout.focused == Some(pane)
                    && modes.mouse != MouseTracking::Off && !report.mods.shift {
                    route == MouseRoute::Application(
                        MouseEvent { pane, at, kind: report.kind, mods: report.mods },
                    )
                } else {
                    route == MouseRoute::Chrome(ChromeTarget::PaneBody { pane, at })
                },
            }
        }),
{
}

} // verus!
