//! The keyboard's half of input: a run of bytes as chords, and whose each
//! chord is.
//!
//! Nothing belongs to the client until the prefix is pressed. [`KeyRouter`]
//! passes every byte through verbatim until it decodes the prefix chord, and
//! only the single chord after that prefix is looked up.

use vstd::prelude::*;
use vstd::utf8::{decode_utf8, valid_utf8};

use crate::keymap::{bound, Key, KeyCode, KeyMods, Keymap};
use crate::live::Side;
use crate::proto::Action;

verus! {

/// The error `core::str::from_utf8` answers with.
#[verifier::external_type_specification]
#[verifier::external_body]
pub struct ExUtf8Error(core::str::Utf8Error);

/// Contract for `core::str::from_utf8`: it succeeds exactly on valid UTF-8, and
/// then with the text those bytes encode.
pub assume_specification[ core::str::from_utf8 ](bytes: &[u8]) -> (text: Result<
    &str,
    core::str::Utf8Error,
>)
    ensures
        text is Ok <==> valid_utf8(bytes@),
        text matches Ok(decoded) ==> decoded@ == decode_utf8(bytes@),
;

/// How many bytes a character whose encoding opens with `lead` takes.
pub open spec fn encoded_len(lead: u8) -> Option<nat> {
    if lead <= 0x7f {
        Some(1)
    } else if 0xc0 <= lead <= 0xdf {
        Some(2)
    } else if 0xe0 <= lead <= 0xef {
        Some(3)
    } else if 0xf0 <= lead <= 0xf7 {
        Some(4)
    } else {
        None
    }
}

/// The character `bytes` opens with, as a chord.
pub open spec fn char_chord(bytes: Seq<u8>) -> Option<(Key, nat)> {
    match encoded_len(bytes[0]) {
        None => None,
        Some(len) => {
            let head = bytes.take(len as int);
            if len <= bytes.len() && valid_utf8(head) && decode_utf8(head).len() > 0 {
                Some((Key::char(decode_utf8(head)[0]), len))
            } else {
                None
            }
        },
    }
}

fn decode_char(bytes: &[u8]) -> (chord: Option<(Key, usize)>)
    requires
        bytes.len() > 0,
    ensures
        chord_view(chord) == char_chord(bytes@),
{
    let lead: u8 = bytes[0];
    let len: usize = if lead <= 0x7f {
        1
    } else if 0xc0 <= lead && lead <= 0xdf {
        2
    } else if 0xe0 <= lead && lead <= 0xef {
        3
    } else if 0xf0 <= lead && lead <= 0xf7 {
        4
    } else {
        return None;
    };
    if bytes.len() < len {
        return None;
    }
    let head = vstd::slice::slice_subrange(bytes, 0, len);
    assert(head@ =~= bytes@.take(len as int));
    match core::str::from_utf8(head) {
        Err(_) => None,
        Ok(text) => {
            if text.unicode_len() == 0 {
                None
            } else {
                Some((Key::char(text.get_char(0)), len))
            }
        },
    }
}

/// A decoded chord with its length as a number.
pub open spec fn chord_view(chord: Option<(Key, usize)>) -> Option<(Key, nat)> {
    match chord {
        Some((key, len)) => Some((key, len as nat)),
        None => None,
    }
}

/// The key `SS3` followed by `byte` stands for.
pub open spec fn ss3_key(byte: u8) -> Option<KeyCode> {
    match byte {
        0x41u8 => Some(KeyCode::Up),
        0x42u8 => Some(KeyCode::Down),
        0x43u8 => Some(KeyCode::Right),
        0x44u8 => Some(KeyCode::Left),
        0x48u8 => Some(KeyCode::Home),
        0x46u8 => Some(KeyCode::End),
        0x50u8 => Some(KeyCode::Function(1)),
        0x51u8 => Some(KeyCode::Function(2)),
        0x52u8 => Some(KeyCode::Function(3)),
        0x53u8 => Some(KeyCode::Function(4)),
        _ => None,
    }
}

/// The chord an `ESC O` sequence at the head of `bytes` is.
pub open spec fn ss3_chord(bytes: Seq<u8>) -> Option<(Key, nat)> {
    if bytes.len() < 3 {
        None
    } else {
        match ss3_key(bytes[2]) {
            Some(code) => Some((Key::code(code), 3)),
            None => None,
        }
    }
}

fn decode_ss3(bytes: &[u8]) -> (chord: Option<(Key, usize)>)
    ensures
        chord_view(chord) == ss3_chord(bytes@),
{
    if bytes.len() < 3 {
        return None;
    }
    let code: KeyCode = match bytes[2] {
        0x41 => KeyCode::Up,
        0x42 => KeyCode::Down,
        0x43 => KeyCode::Right,
        0x44 => KeyCode::Left,
        0x48 => KeyCode::Home,
        0x46 => KeyCode::End,
        0x50 => KeyCode::Function(1),
        0x51 => KeyCode::Function(2),
        0x52 => KeyCode::Function(3),
        0x53 => KeyCode::Function(4),
        _ => return None,
    };
    Some((Key::code(code), 3))
}

/// The key `CSI number ~` stands for.
pub open spec fn number_key(number: u32) -> Option<KeyCode> {
    if number == 1 || number == 7 {
        Some(KeyCode::Home)
    } else if number == 2 {
        Some(KeyCode::Insert)
    } else if number == 3 {
        Some(KeyCode::Delete)
    } else if number == 4 || number == 8 {
        Some(KeyCode::End)
    } else if number == 5 {
        Some(KeyCode::PageUp)
    } else if number == 6 {
        Some(KeyCode::PageDown)
    } else if 11 <= number <= 15 {
        Some(KeyCode::Function((number - 10) as u8))
    } else if 17 <= number <= 21 {
        Some(KeyCode::Function((number - 11) as u8))
    } else if 23 <= number <= 24 {
        Some(KeyCode::Function((number - 12) as u8))
    } else {
        None
    }
}

fn numbered_key(number: u32) -> (code: Option<KeyCode>)
    ensures
        code == number_key(number),
{
    if number == 1 || number == 7 {
        Some(KeyCode::Home)
    } else if number == 2 {
        Some(KeyCode::Insert)
    } else if number == 3 {
        Some(KeyCode::Delete)
    } else if number == 4 || number == 8 {
        Some(KeyCode::End)
    } else if number == 5 {
        Some(KeyCode::PageUp)
    } else if number == 6 {
        Some(KeyCode::PageDown)
    } else if 11 <= number && number <= 15 {
        Some(KeyCode::Function((number - 10) as u8))
    } else if 17 <= number && number <= 21 {
        Some(KeyCode::Function((number - 11) as u8))
    } else if number == 23 || number == 24 {
        Some(KeyCode::Function((number - 12) as u8))
    } else {
        None
    }
}

/// The modifiers a CSI parameter stands for: one more than their bit set.
pub open spec fn param_mods(param: u32) -> KeyMods {
    let bits = (param - 1) as u32;
    if param < 2 {
        KeyMods::none()
    } else {
        KeyMods { shift: bits & 1 != 0, alt: bits & 2 != 0, ctrl: bits & 4 != 0 }
    }
}

fn csi_mods(param: u32) -> (mods: KeyMods)
    ensures
        mods == param_mods(param),
{
    if param < 2 {
        return KeyMods::none();
    }
    let bits: u32 = param - 1;
    KeyMods { shift: bits & 1 != 0, alt: bits & 2 != 0, ctrl: bits & 4 != 0 }
}

/// A parameter with one more digit, no larger than fits.
pub open spec fn with_digit(param: u32, byte: u8) -> u32 {
    let next = param * 10 + (byte - 0x30);
    if next > u32::MAX {
        u32::MAX
    } else {
        next as u32
    }
}

/// The chord a final byte of a CSI sequence ends, given its two parameters.
pub open spec fn csi_final(byte: u8, first: u32, second: u32) -> Option<Key> {
    let code = match byte {
        0x41u8 => Some(KeyCode::Up),
        0x42u8 => Some(KeyCode::Down),
        0x43u8 => Some(KeyCode::Right),
        0x44u8 => Some(KeyCode::Left),
        0x48u8 => Some(KeyCode::Home),
        0x46u8 => Some(KeyCode::End),
        0x7eu8 => number_key(first),
        _ => None,
    };
    if byte == 0x5a {
        Some(Key::new(KeyCode::Tab, KeyMods::shifted()))
    } else {
        match code {
            Some(code) => Some(Key::new(code, param_mods(second))),
            None => None,
        }
    }
}

/// Reads a CSI sequence from `index` on, given the parameters read so far and
/// which of them is being read. Only the first two count.
pub open spec fn csi_from(bytes: Seq<u8>, index: nat, first: u32, second: u32, field: nat) -> Option<
    (Key, nat),
>
    decreases bytes.len() - index,
{
    if index >= bytes.len() {
        None
    } else {
        let byte = bytes[index as int];
        if 0x30 <= byte <= 0x39 {
            if field == 0 {
                csi_from(bytes, index + 1, with_digit(first, byte), second, field)
            } else if field == 1 {
                csi_from(bytes, index + 1, first, with_digit(second, byte), field)
            } else {
                csi_from(bytes, index + 1, first, second, field)
            }
        } else if byte == 0x3b {
            csi_from(bytes, index + 1, first, second, field + 1)
        } else {
            match csi_final(byte, first, second) {
                Some(key) => Some((key, index + 1)),
                None => None,
            }
        }
    }
}

fn add_digit(param: u32, byte: u8) -> (next: u32)
    requires
        0x30 <= byte <= 0x39,
    ensures
        next == with_digit(param, byte),
{
    let next: u64 = (param as u64) * 10 + ((byte - 0x30) as u64);
    if next > 0xffff_ffff {
        0xffff_ffff
    } else {
        next as u32
    }
}

fn decode_csi(bytes: &[u8]) -> (chord: Option<(Key, usize)>)
    requires
        bytes.len() >= 2,
    ensures
        chord_view(chord) == csi_from(bytes@, 2, 0, 0, 0),
{
    let mut first: u32 = 0;
    let mut second: u32 = 0;
    let mut field: usize = 0;
    let mut index: usize = 2;
    while index < bytes.len()
        invariant
            2 <= index <= bytes.len(),
            field < index,
            csi_from(bytes@, 2, 0, 0, 0) == csi_from(
                bytes@,
                index as nat,
                first,
                second,
                field as nat,
            ),
        decreases bytes.len() - index,
    {
        let byte: u8 = bytes[index];
        if 0x30 <= byte && byte <= 0x39 {
            if field == 0 {
                first = add_digit(first, byte);
            } else if field == 1 {
                second = add_digit(second, byte);
            }
        } else if byte == 0x3b {
            field = field + 1;
        } else {
            let code: KeyCode = match byte {
                0x41 => KeyCode::Up,
                0x42 => KeyCode::Down,
                0x43 => KeyCode::Right,
                0x44 => KeyCode::Left,
                0x48 => KeyCode::Home,
                0x46 => KeyCode::End,
                0x5a => return Some((Key::new(KeyCode::Tab, KeyMods::shifted()), index + 1)),
                0x7e => match numbered_key(first) {
                    Some(code) => code,
                    None => return None,
                },
                _ => return None,
            };
            return Some((Key::new(code, csi_mods(second)), index + 1));
        }
        index = index + 1;
    }
    None
}

/// The symbol a control byte above the letters stands for.
pub open spec fn ctrl_symbol(byte: u8) -> char {
    if byte == 0x1c {
        '\\'
    } else if byte == 0x1d {
        ']'
    } else if byte == 0x1e {
        '^'
    } else {
        '_'
    }
}

/// The chord `bytes` open with, and how many bytes it takes. Nothing where
/// they open with no chord this can name.
#[verifier::opaque]
pub open spec fn chord_at(bytes: Seq<u8>) -> Option<(Key, nat)>
    decreases bytes.len(),
{
    if bytes.len() == 0 {
        None
    } else {
        let first = bytes[0];
        if first == 0x1b {
            if bytes.len() == 1 {
                Some((Key::code(KeyCode::Escape), 1))
            } else if bytes[1] == 0x5b {
                csi_from(bytes, 2, 0, 0, 0)
            } else if bytes[1] == 0x4f {
                ss3_chord(bytes)
            } else {
                match chord_at(bytes.drop_first()) {
                    Some((key, len)) => Some((key.with_alt(), len + 1)),
                    None => None,
                }
            }
        } else if first == 0x0d {
            Some((Key::code(KeyCode::Enter), 1))
        } else if first == 0x09 {
            Some((Key::code(KeyCode::Tab), 1))
        } else if first == 0x7f {
            Some((Key::code(KeyCode::Backspace), 1))
        } else if first == 0x00 {
            Some((Key::ctrl(' '), 1))
        } else if first <= 0x1a {
            Some((Key::ctrl((first + 0x60) as char), 1))
        } else if first <= 0x1f {
            Some((Key::ctrl(ctrl_symbol(first)), 1))
        } else {
            char_chord(bytes)
        }
    }
}

/// A chord takes at least one byte, and only bytes that are there.
pub proof fn chord_fits(bytes: Seq<u8>)
    ensures
        chord_at(bytes) matches Some((_, len)) ==> 0 < len <= bytes.len(),
    decreases bytes.len(),
{
    reveal(chord_at);
    if bytes.len() > 0 && bytes[0] == 0x1b {
        chord_fits(bytes.drop_first());
        csi_fits(bytes, 2, 0, 0, 0);
    }
}

proof fn csi_fits(bytes: Seq<u8>, index: nat, first: u32, second: u32, field: nat)
    ensures
        csi_from(bytes, index, first, second, field) matches Some((_, len)) ==> index < len
            <= bytes.len(),
    decreases bytes.len() - index,
{
    if index < bytes.len() {
        let byte = bytes[index as int];
        if 0x30 <= byte <= 0x39 {
            csi_fits(bytes, index + 1, with_digit(first, byte), second, field);
            csi_fits(bytes, index + 1, first, with_digit(second, byte), field);
            csi_fits(bytes, index + 1, first, second, field);
        } else if byte == 0x3b {
            csi_fits(bytes, index + 1, first, second, field + 1);
        }
    }
}

/// Decodes the chord `bytes` open with, and how many bytes it takes.
pub fn decode_key(bytes: &[u8]) -> (chord: Option<(Key, usize)>)
    ensures
        chord_view(chord) == chord_at(bytes@),
        chord matches Some((_, len)) ==> 0 < len <= bytes.len(),
    decreases bytes.len(),
{
    proof {
        chord_fits(bytes@);
        reveal(chord_at);
    }
    if bytes.len() == 0 {
        return None;
    }
    let first: u8 = bytes[0];
    if first == 0x1b {
        return decode_escape(bytes);
    }
    if first == 0x0d {
        Some((Key::code(KeyCode::Enter), 1))
    } else if first == 0x09 {
        Some((Key::code(KeyCode::Tab), 1))
    } else if first == 0x7f {
        Some((Key::code(KeyCode::Backspace), 1))
    } else if first == 0x00 {
        Some((Key::ctrl(' '), 1))
    } else if first <= 0x1a {
        Some((Key::ctrl((first + 0x60) as char), 1))
    } else if first <= 0x1f {
        let symbol: char = if first == 0x1c {
            '\\'
        } else if first == 0x1d {
            ']'
        } else if first == 0x1e {
            '^'
        } else {
            '_'
        };
        Some((Key::ctrl(symbol), 1))
    } else {
        decode_char(bytes)
    }
}

fn decode_escape(bytes: &[u8]) -> (chord: Option<(Key, usize)>)
    requires
        bytes.len() > 0,
        bytes[0] == 0x1b,
    ensures
        chord_view(chord) == chord_at(bytes@),
        chord matches Some((_, len)) ==> 0 < len <= bytes.len(),
    decreases bytes.len(), 0int,
{
    proof {
        chord_fits(bytes@);
        reveal(chord_at);
    }
    if bytes.len() == 1 {
        return Some((Key::code(KeyCode::Escape), 1));
    }
    if bytes[1] == 0x5b {
        return decode_csi(bytes);
    }
    if bytes[1] == 0x4f {
        return decode_ss3(bytes);
    }
    let rest = vstd::slice::slice_subrange(bytes, 1, bytes.len());
    assert(rest@ =~= bytes@.drop_first());
    match decode_key(rest) {
        Some((key, len)) => Some((key.with_alt(), len + 1)),
        None => None,
    }
}

/// Where one part of a run of typed bytes goes.
#[derive(Clone, Debug, PartialEq, Eq)]
pub enum KeyRoute {
    /// The pane's, verbatim.
    Pane(Vec<u8>),
    /// The prefix was pressed; the next chord is the client's.
    Pending,
    /// A bound chord behind the prefix.
    Command(Action),
    /// An unbound chord behind the prefix, consumed.
    Unbound,
}

/// A route by its contents.
pub enum RouteView {
    Pane(Seq<u8>),
    Pending,
    Command(Action),
    Unbound,
}

impl View for KeyRoute {
    type V = RouteView;

    open spec fn view(&self) -> RouteView {
        match self {
            KeyRoute::Pane(bytes) => RouteView::Pane(bytes@),
            KeyRoute::Pending => RouteView::Pending,
            KeyRoute::Command(action) => RouteView::Command(*action),
            KeyRoute::Unbound => RouteView::Unbound,
        }
    }
}

/// Routes by their contents.
pub open spec fn route_views(routes: Seq<KeyRoute>) -> Seq<RouteView> {
    routes.map_values(|route: KeyRoute| route@)
}

/// The bytes `run`, as the pane's, where there are any.
pub open spec fn pane_route(run: Seq<u8>) -> Seq<RouteView> {
    if run.len() == 0 {
        seq![]
    } else {
        seq![RouteView::Pane(run)]
    }
}

/// What a chord behind the prefix does: its command, the prefix itself to the
/// pane, or nothing.
pub open spec fn prefixed(keymap: Keymap, key: Key, bytes: Seq<u8>) -> RouteView {
    match bound(keymap.bindings@, key) {
        Some(action) => RouteView::Command(action),
        None => if key == keymap.prefix {
            RouteView::Pane(bytes)
        } else {
            RouteView::Unbound
        },
    }
}

/// Where `rest` goes, behind the pass-through bytes `run`, and whether a prefix
/// is pending afterwards.
pub open spec fn routed(keymap: Keymap, pending: bool, run: Seq<u8>, rest: Seq<u8>) -> (
    Seq<RouteView>,
    bool,
)
    decreases rest.len(),
{
    if rest.len() == 0 {
        (pane_route(run), pending)
    } else {
        match chord_at(rest) {
            None => if pending {
                (seq![RouteView::Unbound], false)
            } else {
                (pane_route(run + rest), false)
            },
            Some((key, len)) => if len == 0 || len > rest.len() {
                (seq![], pending)
            } else {
                let head = rest.take(len as int);
                let tail = rest.skip(len as int);
                if pending {
                    let (routes, end) = routed(keymap, false, seq![], tail);
                    (seq![prefixed(keymap, key, head)] + routes, end)
                } else if key == keymap.prefix {
                    let (routes, end) = routed(keymap, true, seq![], tail);
                    (pane_route(run) + seq![RouteView::Pending] + routes, end)
                } else {
                    routed(keymap, false, run + head, tail)
                }
            },
        }
    }
}

/// The side an arrow points to.
#[verifier::allow_in_spec]
pub fn pointed_side(code: KeyCode) -> Option<Side>
    returns
        (match code {
            KeyCode::Left => Some(Side::Left),
            KeyCode::Right => Some(Side::Right),
            KeyCode::Up => Some(Side::Up),
            KeyCode::Down => Some(Side::Down),
            _ => None,
        }),
{
    match code {
        KeyCode::Left => Some(Side::Left),
        KeyCode::Right => Some(Side::Right),
        KeyCode::Up => Some(Side::Up),
        KeyCode::Down => Some(Side::Down),
        _ => None,
    }
}

/// Where one part of a run of typed bytes goes, an unbound arrow by its side
/// and another unbound chord by its bytes.
#[derive(Debug, PartialEq, Eq)]
pub enum ChordRoute {
    /// The pane's, verbatim.
    Pane(Vec<u8>),
    /// The prefix was pressed; the next chord is the client's.
    Pending,
    /// A bound chord behind the prefix.
    Command(Action),
    /// An unbound arrow behind the prefix, with or without modifiers.
    Resize(Side),
    /// Another unbound chord behind the prefix, consumed.
    Unbound(Vec<u8>),
}

/// A route by its contents.
#[verifier::ext_equal]
pub enum ChordView {
    Pane(Seq<u8>),
    Pending,
    Command(Action),
    Resize(Side),
    Unbound(Seq<u8>),
}

impl View for ChordRoute {
    type V = ChordView;

    open spec fn view(&self) -> ChordView {
        match self {
            ChordRoute::Pane(bytes) => ChordView::Pane(bytes@),
            ChordRoute::Pending => ChordView::Pending,
            ChordRoute::Command(action) => ChordView::Command(*action),
            ChordRoute::Resize(side) => ChordView::Resize(*side),
            ChordRoute::Unbound(chord) => ChordView::Unbound(chord@),
        }
    }
}

impl ChordView {
    /// The same route, an unbound chord no matter which.
    pub open spec fn forget(self) -> RouteView {
        match self {
            ChordView::Pane(bytes) => RouteView::Pane(bytes),
            ChordView::Pending => RouteView::Pending,
            ChordView::Command(action) => RouteView::Command(action),
            ChordView::Resize(_) => RouteView::Unbound,
            ChordView::Unbound(_) => RouteView::Unbound,
        }
    }
}

/// Routes, unbound chords no matter which.
pub open spec fn forgotten(routes: Seq<ChordView>) -> Seq<RouteView> {
    routes.map_values(|route: ChordView| route.forget())
}

/// Routes by their contents.
pub open spec fn chord_routes(routes: Seq<ChordRoute>) -> Seq<ChordView> {
    routes.map_values(|route: ChordRoute| route@)
}

/// The bytes `run`, as the pane's, where there are any.
pub open spec fn pane_chord(run: Seq<u8>) -> Seq<ChordView> {
    if run.len() == 0 {
        seq![]
    } else {
        seq![ChordView::Pane(run)]
    }
}

/// What a chord behind the prefix does: its command, the prefix itself to the
/// pane, an arrow its side, or nothing.
pub open spec fn prefixed_chord(keymap: Keymap, key: Key, bytes: Seq<u8>) -> ChordView {
    match bound(keymap.bindings@, key) {
        Some(action) => ChordView::Command(action),
        None => if key == keymap.prefix {
            ChordView::Pane(bytes)
        } else {
            match pointed_side(key.code) {
                Some(side) => ChordView::Resize(side),
                None => ChordView::Unbound(bytes),
            }
        },
    }
}

/// Where `rest` goes, behind the pass-through bytes `run`, and whether a prefix
/// is pending afterwards.
pub open spec fn routed_chords(keymap: Keymap, pending: bool, run: Seq<u8>, rest: Seq<u8>) -> (
    Seq<ChordView>,
    bool,
)
    decreases rest.len(),
{
    if rest.len() == 0 {
        (pane_chord(run), pending)
    } else {
        match chord_at(rest) {
            None => if pending {
                (seq![ChordView::Unbound(rest)], false)
            } else {
                (pane_chord(run + rest), false)
            },
            Some((key, len)) => if len == 0 || len > rest.len() {
                (seq![], pending)
            } else {
                let head = rest.take(len as int);
                let tail = rest.skip(len as int);
                if pending {
                    let (routes, end) = routed_chords(keymap, false, seq![], tail);
                    (seq![prefixed_chord(keymap, key, head)] + routes, end)
                } else if key == keymap.prefix {
                    let (routes, end) = routed_chords(keymap, true, seq![], tail);
                    (pane_chord(run) + seq![ChordView::Pending] + routes, end)
                } else {
                    routed_chords(keymap, false, run + head, tail)
                }
            },
        }
    }
}

/// Naming the unbound chords changes no route.
pub proof fn forgetting(keymap: Keymap, pending: bool, run: Seq<u8>, rest: Seq<u8>)
    ensures
        routed(keymap, pending, run, rest) == (
            forgotten(routed_chords(keymap, pending, run, rest).0),
            routed_chords(keymap, pending, run, rest).1,
        ),
    decreases rest.len(),
{
    let chords = routed_chords(keymap, pending, run, rest);
    let routes = routed(keymap, pending, run, rest);
    if rest.len() > 0 {
        match chord_at(rest) {
            None => {},
            Some((key, len)) => {
                if 0 < len <= rest.len() {
                    let tail = rest.skip(len as int);
                    forgetting(keymap, false, seq![], tail);
                    forgetting(keymap, true, seq![], tail);
                    forgetting(keymap, false, run + rest.take(len as int), tail);
                }
            },
        }
    }
    assert(routes.0 =~= forgotten(chords.0));
}

/// The prefix state machine.
#[derive(Clone, Debug)]
pub struct KeyRouter {
    pub keymap: Keymap,
    pub pending: bool,
}

fn bytes_of(bytes: &[u8], from: usize, to: usize) -> (copy: Vec<u8>)
    requires
        from <= to <= bytes.len(),
    ensures
        copy@ == bytes@.subrange(from as int, to as int),
{
    let part = vstd::slice::slice_subrange(bytes, from, to);
    let mut copy: Vec<u8> = Vec::new();
    crate::effects::extend_bytes(&mut copy, part);
    copy
}

impl KeyRouter {
    pub fn new(keymap: Keymap) -> (router: KeyRouter)
        ensures
            router.keymap == keymap,
            !router.pending,
    {
        KeyRouter { keymap, pending: false }
    }

    pub fn keymap(&self) -> (keymap: &Keymap)
        ensures
            *keymap == self.keymap,
    {
        &self.keymap
    }

    /// Whether the prefix was pressed and its chord has not come.
    #[verifier::allow_in_spec]
    pub fn is_pending(&self) -> bool
        returns
            (self.pending),
    {
        self.pending
    }

    /// Forgets a pending prefix.
    pub fn reset(&mut self)
        ensures
            final(self).keymap == old(self).keymap,
            !final(self).pending,
    {
        self.pending = false;
    }

    /// Takes on a changed keymap, keeping a pending prefix pending.
    pub fn set_keymap(&mut self, keymap: Keymap)
        ensures
            final(self).keymap == keymap,
            final(self).pending == old(self).pending,
    {
        self.keymap = keymap;
    }

    /// Decides where a run of typed bytes goes.
    pub fn feed(&mut self, keys: &[u8]) -> (routes: Vec<KeyRoute>)
        ensures
            final(self).keymap == old(self).keymap,
            (route_views(routes@), final(self).pending) == routed(
                old(self).keymap,
                old(self).pending,
                seq![],
                keys@,
            ),
    {
        let ghost whole = routed_chords(self.keymap, self.pending, seq![], keys@);
        proof {
            forgetting(self.keymap, self.pending, seq![], keys@);
        }
        let chords = self.feed_chords(keys);
        let mut routes: Vec<KeyRoute> = Vec::new();
        assert(route_views(routes@) =~= forgotten(whole.0).take(0));
        for i in 0..chords.len()
            invariant
                chord_routes(chords@) == whole.0,
                route_views(routes@) == forgotten(whole.0).take(i as int),
        {
            let ghost before = route_views(routes@);
            assert(whole.0[i as int] == chords@[i as int]@);
            let route = match &chords[i] {
                ChordRoute::Pane(bytes) => KeyRoute::Pane(bytes_of(bytes.as_slice(), 0, bytes.len())),
                ChordRoute::Pending => KeyRoute::Pending,
                ChordRoute::Command(action) => KeyRoute::Command(action.clone()),
                ChordRoute::Resize(_) => KeyRoute::Unbound,
                ChordRoute::Unbound(_) => KeyRoute::Unbound,
            };
            assert(route@ == whole.0[i as int].forget()) by {
                match &chords@[i as int] {
                    ChordRoute::Pane(bytes) => {
                        assert(bytes@.subrange(0, bytes@.len() as int) =~= bytes@);
                    },
                    _ => {},
                }
            }
            routes.push(route);
            assert(route_views(routes@) =~= before.push(route@));
            assert(forgotten(whole.0).take(i + 1) =~= forgotten(whole.0).take(i as int).push(
                forgotten(whole.0)[i as int],
            ));
        }
        assert(forgotten(whole.0).take(chords@.len() as int) =~= forgotten(whole.0));
        routes
    }

    /// Decides where a run of typed bytes goes, naming the unbound chords.
    pub fn feed_chords(&mut self, keys: &[u8]) -> (routes: Vec<ChordRoute>)
        ensures
            final(self).keymap == old(self).keymap,
            (chord_routes(routes@), final(self).pending) == routed_chords(
                old(self).keymap,
                old(self).pending,
                seq![],
                keys@,
            ),
    {
        let ghost keymap = self.keymap;
        let ghost whole = routed_chords(keymap, self.pending, seq![], keys@);
        let mut routes: Vec<ChordRoute> = Vec::new();
        let mut from: usize = 0;
        let mut index: usize = 0;
        proof {
            assert(keys@.skip(0) =~= keys@);
            assert(keys@.subrange(0, 0) =~= seq![]);
            assert(chord_routes(routes@) =~= seq![]);
            assert(chord_routes(routes@) + whole.0 =~= whole.0);
        }
        while index < keys.len()
            invariant
                self.keymap == keymap,
                from <= index <= keys.len(),
                self.pending ==> from == index,
                ({
                    let left = routed_chords(
                        keymap,
                        self.pending,
                        keys@.subrange(from as int, index as int),
                        keys@.skip(index as int),
                    );
                    &&& whole.0 == chord_routes(routes@) + left.0
                    &&& whole.1 == left.1
                }),
            decreases keys.len() - index,
        {
            let ghost run = keys@.subrange(from as int, index as int);
            let ghost rest = keys@.skip(index as int);
            let ghost left = routed_chords(keymap, self.pending, run, rest);
            let ghost before = chord_routes(routes@);
            let tail = vstd::slice::slice_subrange(keys, index, keys.len());
            assert(tail@ =~= rest);
            let chord = decode_key(tail);
            if self.pending {
                self.pending = false;
                match chord {
                    Some((key, len)) => {
                        assert(rest.take(len as int) =~= keys@.subrange(
                            index as int,
                            index + len,
                        ));
                        assert(rest.skip(len as int) =~= keys@.skip(index + len));
                        let ghost route = prefixed_chord(keymap, key, rest.take(len as int));
                        match self.keymap.action(key) {
                            Some(action) => {
                                routes.push(ChordRoute::Command(action));
                            },
                            None => {
                                if key == self.keymap.prefix() {
                                    routes.push(ChordRoute::Pane(bytes_of(keys, index, index + len)));
                                } else {
                                    match pointed_side(key.code) {
                                        Some(side) => {
                                            routes.push(ChordRoute::Resize(side));
                                        },
                                        None => {
                                            routes.push(
                                                ChordRoute::Unbound(bytes_of(keys, index, index + len)),
                                            );
                                        },
                                    }
                                }
                            },
                        }
                        assert(chord_routes(routes@) =~= before.push(route));
                        index = index + len;
                        from = index;
                        proof {
                            assert(keys@.subrange(from as int, index as int) =~= seq![]);
                            let next = routed_chords(keymap, false, seq![], keys@.skip(index as int));
                            assert(before + left.0 =~= chord_routes(routes@) + next.0);
                        }
                    },
                    None => {
                        assert(keys@.subrange(index as int, keys@.len() as int) =~= rest);
                        routes.push(ChordRoute::Unbound(bytes_of(keys, index, keys.len())));
                        index = keys.len();
                        from = index;
                        proof {
                            assert(keys@.subrange(from as int, index as int) =~= seq![]);
                            assert(keys@.skip(index as int) =~= seq![]);
                            assert(chord_routes(routes@) =~= before.push(ChordView::Unbound(rest)));
                            assert(before + left.0 =~= chord_routes(routes@) + pane_chord(seq![]));
                        }
                    },
                }
            } else {
                match chord {
                    Some((key, len)) => {
                        assert(rest.skip(len as int) =~= keys@.skip(index + len));
                        if key == self.keymap.prefix() {
                            if from < index {
                                routes.push(ChordRoute::Pane(bytes_of(keys, from, index)));
                            }
                            assert(chord_routes(routes@) =~= before + pane_chord(run));
                            index = index + len;
                            from = index;
                            self.pending = true;
                            routes.push(ChordRoute::Pending);
                            proof {
                                assert(keys@.subrange(from as int, index as int) =~= seq![]);
                                assert(chord_routes(routes@) =~= (before + pane_chord(run)).push(
                                    ChordView::Pending,
                                ));
                                let next = routed_chords(keymap, true, seq![], keys@.skip(index as int));
                                assert(before + left.0 =~= chord_routes(routes@) + next.0);
                            }
                        } else {
                            assert(run + rest.take(len as int) =~= keys@.subrange(
                                from as int,
                                index + len,
                            ));
                            index = index + len;
                        }
                    },
                    None => {
                        index = keys.len();
                        proof {
                            assert(run + rest =~= keys@.subrange(from as int, index as int));
                            assert(keys@.skip(index as int) =~= seq![]);
                        }
                    },
                }
            }
        }
        let ghost before = chord_routes(routes@);
        assert(keys@.skip(index as int) =~= seq![]);
        if from < keys.len() {
            routes.push(ChordRoute::Pane(bytes_of(keys, from, keys.len())));
        }
        assert(chord_routes(routes@) =~= before + pane_chord(
            keys@.subrange(from as int, index as int),
        ));
        routes
    }
}

/// Outside a pending prefix nothing is taken: unless the prefix chord was
/// pressed, the pane gets exactly the bytes that were typed, as one run.
pub proof fn unprefixed_keys_pass_verbatim(keymap: Keymap, keys: Seq<u8>)
    ensures
        routed(keymap, false, seq![], keys).0.contains(RouteView::Pending) || routed(
            keymap,
            false,
            seq![],
            keys,
        ) == (pane_route(keys), false),
{
    passes_or_prefixes(keymap, seq![], keys);
    assert(Seq::<u8>::empty() + keys =~= keys);
}

proof fn passes_or_prefixes(keymap: Keymap, run: Seq<u8>, rest: Seq<u8>)
    ensures
        routed(keymap, false, run, rest).0.contains(RouteView::Pending) || routed(
            keymap,
            false,
            run,
            rest,
        ) == (pane_route(run + rest), false),
    decreases rest.len(),
{
    chord_fits(rest);
    if rest.len() == 0 {
        assert(run + rest =~= run);
    } else if let Some((key, len)) = chord_at(rest) {
        let head = rest.take(len as int);
        let tail = rest.skip(len as int);
        if key == keymap.prefix {
            let routes = routed(keymap, false, run, rest).0;
            assert(routes[pane_route(run).len() as int] == RouteView::Pending);
        } else {
            passes_or_prefixes(keymap, run + head, tail);
            assert(run + head + tail =~= run + rest);
        }
    }
}

/// Only the one chord behind the prefix is looked up: what follows it is
/// routed as if the prefix had never been pressed.
pub proof fn one_chord_behind_the_prefix(
    keymap: Keymap,
    key: Key,
    chord: Seq<u8>,
    after: Seq<u8>,
)
    requires
        chord_at(chord + after) == Some((key, chord.len())),
    ensures
        routed(keymap, true, seq![], chord + after).0 == seq![prefixed(keymap, key, chord)] + routed(keymap, false, seq![], after).0,
        routed(keymap, true, seq![], chord + after).1 == routed(keymap, false, seq![], after).1,
{
    chord_fits(chord + after);
    assert((chord + after).take(chord.len() as int) =~= chord);
    assert((chord + after).skip(chord.len() as int) =~= after);
}

/// What the keyboard asks of the attention queue overlay.
#[derive(Clone, Copy, Debug, PartialEq, Eq, Structural)]
pub enum QueueAction {
    Next,
    Prev,
    Focus,
    Acknowledge,
    Dismiss,
}

/// The queue action a run of typed bytes is: `j` or down, `k` or up, enter,
/// `a` or space, escape or `q`.
pub open spec fn queue_action_of(keys: Seq<u8>) -> Option<QueueAction> {
    if keys == seq![0x6au8] || keys == seq![0x1bu8, 0x5bu8, 0x42u8] {
        Some(QueueAction::Next)
    } else if keys == seq![0x6bu8] || keys == seq![0x1bu8, 0x5bu8, 0x41u8] {
        Some(QueueAction::Prev)
    } else if keys == seq![0x0du8] || keys == seq![0x0au8] {
        Some(QueueAction::Focus)
    } else if keys == seq![0x61u8] || keys == seq![0x20u8] {
        Some(QueueAction::Acknowledge)
    } else if keys == seq![0x1bu8] || keys == seq![0x71u8] {
        Some(QueueAction::Dismiss)
    } else {
        None
    }
}

/// The final byte of a three-byte cursor sequence, or of a single byte: which
/// of the two, and the byte.
fn short_key(keys: &[u8]) -> (short: Option<(bool, u8)>)
    ensures
        short matches Some((true, last)) ==> keys@ == seq![0x1bu8, 0x5bu8, last],
        short matches Some((false, byte)) ==> keys@ == seq![byte],
        short is None ==> keys.len() != 1 && (keys.len() != 3 || keys[0] != 0x1b || keys[1]
            != 0x5b),
{
    if keys.len() == 1 {
        assert(keys@ =~= seq![keys[0]]);
        Some((false, keys[0]))
    } else if keys.len() == 3 && keys[0] == 0x1b && keys[1] == 0x5b {
        assert(keys@ =~= seq![0x1bu8, 0x5bu8, keys[2]]);
        Some((true, keys[2]))
    } else {
        None
    }
}

/// Decodes a queue action.
pub fn queue_action(keys: &[u8]) -> (action: Option<QueueAction>)
    ensures
        action == queue_action_of(keys@),
{
    match short_key(keys) {
        Some((true, last)) => {
            assert(keys@[2] == last);
            assert(keys@.len() == 3);
            if last == 0x42 {
                Some(QueueAction::Next)
            } else if last == 0x41 {
                Some(QueueAction::Prev)
            } else {
                None
            }
        },
        Some((false, byte)) => {
            assert(keys@[0] == byte);
            assert(keys@.len() == 1);
            if byte == 0x6a {
                Some(QueueAction::Next)
            } else if byte == 0x6b {
                Some(QueueAction::Prev)
            } else if byte == 0x0d || byte == 0x0a {
                Some(QueueAction::Focus)
            } else if byte == 0x61 || byte == 0x20 {
                Some(QueueAction::Acknowledge)
            } else if byte == 0x1b || byte == 0x71 {
                Some(QueueAction::Dismiss)
            } else {
                None
            }
        },
        None => None,
    }
}

/// What the keyboard asks of the command palette, where a printable key is
/// text rather than a command.
#[derive(Clone, Copy, Debug, PartialEq, Eq, Structural)]
pub enum PaletteAction {
    Next,
    Prev,
    First,
    Last,
    Insert(char),
    Backspace,
    Clear,
    Confirm,
    Dismiss,
}

/// What one chord asks of the command palette: a character is text, and only
/// keys that are none edit, move, confirm or dismiss.
pub open spec fn palette_action_of(key: Key) -> Option<PaletteAction> {
    if key == Key::ctrl('u') {
        Some(PaletteAction::Clear)
    } else if key.mods != KeyMods::none() {
        None
    } else {
        match key.code {
            KeyCode::Char(ch) => Some(PaletteAction::Insert(ch)),
            KeyCode::Backspace => Some(PaletteAction::Backspace),
            KeyCode::Up => Some(PaletteAction::Prev),
            KeyCode::Down => Some(PaletteAction::Next),
            KeyCode::Home => Some(PaletteAction::First),
            KeyCode::End => Some(PaletteAction::Last),
            KeyCode::Enter => Some(PaletteAction::Confirm),
            KeyCode::Escape => Some(PaletteAction::Dismiss),
            _ => None,
        }
    }
}

fn palette_action(key: Key) -> (action: Option<PaletteAction>)
    ensures
        action == palette_action_of(key),
{
    if key == Key::ctrl('u') {
        return Some(PaletteAction::Clear);
    }
    if key.mods != KeyMods::none() {
        return None;
    }
    match key.code {
        KeyCode::Char(ch) => Some(PaletteAction::Insert(ch)),
        KeyCode::Backspace => Some(PaletteAction::Backspace),
        KeyCode::Up => Some(PaletteAction::Prev),
        KeyCode::Down => Some(PaletteAction::Next),
        KeyCode::Home => Some(PaletteAction::First),
        KeyCode::End => Some(PaletteAction::Last),
        KeyCode::Enter => Some(PaletteAction::Confirm),
        KeyCode::Escape => Some(PaletteAction::Dismiss),
        _ => None,
    }
}

/// What a run of typed bytes asks of the command palette, chord by chord; bytes
/// that open with no chord ask nothing.
pub open spec fn palette_edits(keys: Seq<u8>) -> Seq<PaletteAction>
    decreases keys.len(),
{
    match chord_at(keys) {
        None => seq![],
        Some((key, len)) => if len == 0 || len > keys.len() {
            seq![]
        } else {
            let rest = palette_edits(keys.skip(len as int));
            match palette_action_of(key) {
                Some(action) => seq![action] + rest,
                None => rest,
            }
        },
    }
}

/// What a run of typed bytes asks of the command palette.
pub fn palette_actions(keys: &[u8]) -> (actions: Vec<PaletteAction>)
    ensures
        actions@ == palette_edits(keys@),
{
    let mut actions: Vec<PaletteAction> = Vec::new();
    let mut index: usize = 0;
    let mut stopped = false;
    assert(keys@.skip(0) =~= keys@);
    assert(actions@ + palette_edits(keys@) =~= palette_edits(keys@));
    while index < keys.len() && !stopped
        invariant
            index <= keys@.len(),
            !stopped ==> palette_edits(keys@) == actions@ + palette_edits(keys@.skip(index as int)),
            stopped ==> palette_edits(keys@) == actions@,
        decreases keys@.len() - index + (if stopped { 0int } else { 1int }),
    {
        let ghost before = actions@;
        let ghost rest = keys@.skip(index as int);
        let tail = vstd::slice::slice_subrange(keys, index, keys.len());
        assert(tail@ =~= rest);
        match decode_key(tail) {
            None => {
                assert(before + palette_edits(rest) =~= before);
                stopped = true;
            },
            Some((key, len)) => {
                assert(rest.skip(len as int) =~= keys@.skip(index + len));
                let ghost left = palette_edits(keys@.skip(index + len));
                match palette_action(key) {
                    Some(action) => {
                        actions.push(action);
                        assert(before + (seq![action] + left) =~= actions@ + left);
                    },
                    None => {},
                }
                index = index + len;
            },
        }
    }
    if !stopped {
        assert(keys@.skip(index as int) =~= seq![]);
        assert(palette_edits(seq![]) =~= seq![]) by {
            reveal(chord_at);
        }
        assert(actions@ + seq![] =~= actions@);
    }
    actions
}

/// What the keyboard asks of a list overlay.
#[derive(Clone, Copy, Debug, PartialEq, Eq, Structural)]
pub enum OverlayAction {
    Next,
    Prev,
    First,
    Last,
    Confirm,
    Dismiss,
}

/// The overlay action a run of typed bytes is: `j` or down, `k` or up, `g` or
/// home, `G` or end, enter, escape or `q`.
pub open spec fn overlay_action_of(keys: Seq<u8>) -> Option<OverlayAction> {
    if keys == seq![0x6au8] || keys == seq![0x1bu8, 0x5bu8, 0x42u8] {
        Some(OverlayAction::Next)
    } else if keys == seq![0x6bu8] || keys == seq![0x1bu8, 0x5bu8, 0x41u8] {
        Some(OverlayAction::Prev)
    } else if keys == seq![0x67u8] || keys == seq![0x1bu8, 0x5bu8, 0x48u8] {
        Some(OverlayAction::First)
    } else if keys == seq![0x47u8] || keys == seq![0x1bu8, 0x5bu8, 0x46u8] {
        Some(OverlayAction::Last)
    } else if keys == seq![0x0du8] || keys == seq![0x0au8] {
        Some(OverlayAction::Confirm)
    } else if keys == seq![0x1bu8] || keys == seq![0x71u8] {
        Some(OverlayAction::Dismiss)
    } else {
        None
    }
}

/// Decodes a list overlay action.
pub fn overlay_action(keys: &[u8]) -> (action: Option<OverlayAction>)
    ensures
        action == overlay_action_of(keys@),
{
    match short_key(keys) {
        Some((true, last)) => {
            assert(keys@[2] == last);
            assert(keys@.len() == 3);
            if last == 0x42 {
                Some(OverlayAction::Next)
            } else if last == 0x41 {
                Some(OverlayAction::Prev)
            } else if last == 0x48 {
                Some(OverlayAction::First)
            } else if last == 0x46 {
                Some(OverlayAction::Last)
            } else {
                None
            }
        },
        Some((false, byte)) => {
            assert(keys@[0] == byte);
            assert(keys@.len() == 1);
            if byte == 0x6a {
                Some(OverlayAction::Next)
            } else if byte == 0x6b {
                Some(OverlayAction::Prev)
            } else if byte == 0x67 {
                Some(OverlayAction::First)
            } else if byte == 0x47 {
                Some(OverlayAction::Last)
            } else if byte == 0x0d || byte == 0x0a {
                Some(OverlayAction::Confirm)
            } else if byte == 0x1b || byte == 0x71 {
                Some(OverlayAction::Dismiss)
            } else {
                None
            }
        },
        None => None,
    }
}

} // verus!
