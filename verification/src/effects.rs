//! Client-local policy and rendering for typed outer-terminal effects.
//!
//! A pane can request an effect, but it can never send raw terminal bytes. This
//! module is the one place an allowlisted request becomes an escape sequence,
//! after both local policy and terminal capabilities agree.

use vstd::prelude::*;
use vstd::utf8::{encode_scalar, encode_utf8};

use crate::proto::{ClipboardTarget, OuterTerminalEffect, TermCaps};
use crate::text::{is_control, is_plain, plain_text};

verus! {

/// The client-local choices that permit outer-terminal effects. The default
/// denies everything.
#[derive(Clone, Copy, Debug, PartialEq, Eq, Structural)]
pub struct EffectPolicy {
    /// Permit setting or resetting the outer terminal title.
    pub title: bool,
    /// Permit OSC 52 clipboard stores when the terminal reported support.
    pub clipboard: bool,
}

impl Default for EffectPolicy {
    fn default() -> (policy: EffectPolicy)
        ensures
            policy == (EffectPolicy { title: false, clipboard: false }),
    {
        EffectPolicy { title: false, clipboard: false }
    }
}

impl EffectPolicy {
    /// A policy that permits only terminal-title changes.
    #[verifier::allow_in_spec]
    pub fn allow_title() -> EffectPolicy
        returns
            (EffectPolicy { title: true, clipboard: false }),
    {
        EffectPolicy { title: true, clipboard: false }
    }

    /// A policy that permits every effect this client can currently render.
    #[verifier::allow_in_spec]
    pub fn allow_supported() -> EffectPolicy
        returns
            (EffectPolicy { title: true, clipboard: true }),
    {
        EffectPolicy { title: true, clipboard: true }
    }

    /// Whether this client could store a clipboard at all: both gates in one
    /// place, so a caller can decide before asking for text.
    #[verifier::allow_in_spec]
    pub fn permits_clipboard(self, caps: TermCaps) -> bool
        returns
            (self.clipboard && caps.clipboard_osc52),
    {
        self.clipboard && caps.clipboard_osc52
    }
}

/// `payload` between the OSC introducer and the String Terminator.
pub open spec fn framed(payload: Seq<u8>) -> Seq<u8> {
    seq![0x1bu8, 0x5du8] + payload + seq![0x1bu8, 0x5cu8]
}

/// The letter OSC 52 calls a clipboard by.
pub open spec fn selection_byte(target: ClipboardTarget) -> u8 {
    match target {
        ClipboardTarget::Clipboard => 0x63u8,
        ClipboardTarget::PrimarySelection => 0x70u8,
    }
}

/// The OSC payload a permitted effect carries, or nothing for a denied one.
pub open spec fn permitted_payload(
    caps: TermCaps,
    policy: EffectPolicy,
    effect: OuterTerminalEffect,
) -> Option<Seq<u8>> {
    match effect {
        OuterTerminalEffect::SetTitle(title) => if policy.title && is_plain(title@) {
            Some(seq![0x32u8, 0x3bu8] + encode_utf8(title@))
        } else {
            None
        },
        OuterTerminalEffect::ResetTitle => if policy.title {
            Some(seq![0x32u8, 0x3bu8])
        } else {
            None
        },
        OuterTerminalEffect::ClipboardStore { target, text } => if policy.permits_clipboard(caps) {
            Some(
                seq![0x35u8, 0x32u8, 0x3bu8, selection_byte(target), 0x3bu8] + encode_utf8(
                    base64_text(encode_utf8(text@)),
                ),
            )
        } else {
            None
        },
        _ => None,
    }
}

/// Serializes one permitted effect without writing it.
///
/// A title is set or reset where the policy permits titles and the text holds
/// no control character; a clipboard is stored where both gates are open.
/// Nothing else has a safe standalone rendering, so nothing else is written.
pub fn effect_bytes(caps: TermCaps, policy: EffectPolicy, effect: &OuterTerminalEffect) -> (bytes:
    Option<Vec<u8>>)
    ensures
        match permitted_payload(caps, policy, *effect) {
            Some(payload) => bytes is Some && bytes->0@ == framed(payload),
            None => bytes is None,
        },
{
    match effect {
        OuterTerminalEffect::SetTitle(title) => {
            if policy.title && plain_text(title.as_str()) {
                let mut payload: Vec<u8> = vec![0x32u8, 0x3bu8];
                extend_bytes(&mut payload, title.as_str().as_bytes());
                Some(osc(payload.as_slice()))
            } else {
                None
            }
        },
        OuterTerminalEffect::ResetTitle => {
            if policy.title {
                let payload: Vec<u8> = vec![0x32u8, 0x3bu8];
                assert(payload@ == seq![0x32u8, 0x3bu8]);
                Some(osc(payload.as_slice()))
            } else {
                None
            }
        },
        OuterTerminalEffect::ClipboardStore { target, text } => {
            if policy.permits_clipboard(caps) {
                let selection: u8 = match target {
                    ClipboardTarget::Clipboard => 0x63u8,
                    ClipboardTarget::PrimarySelection => 0x70u8,
                };
                let mut payload: Vec<u8> = vec![0x35u8, 0x32u8, 0x3bu8, selection, 0x3bu8];
                assert(payload@ == seq![0x35u8, 0x32u8, 0x3bu8, selection_byte(*target), 0x3bu8]);
                let encoded = base64(text.as_str().as_bytes());
                extend_bytes(&mut payload, encoded.as_str().as_bytes());
                Some(osc(payload.as_slice()))
            } else {
                None
            }
        },
        OuterTerminalEffect::Hyperlink { .. } => None,
        OuterTerminalEffect::Notification { .. } => None,
        OuterTerminalEffect::Progress(_) => None,
        OuterTerminalEffect::Graphics(_) => None,
    }
}

/// Appends `more` to `bytes`.
pub(crate) fn extend_bytes(bytes: &mut Vec<u8>, more: &[u8])
    ensures
        final(bytes)@ == old(bytes)@ + more@,
{
    for i in 0..more.len()
        invariant
            bytes@ == old(bytes)@ + more@.take(i as int),
    {
        bytes.push(more[i]);
        assert(more@.take(i + 1) == more@.take(i as int).push(more@[i as int]));
    }
    assert(more@.take(more@.len() as int) == more@);
}

/// Wraps an already-safe OSC payload with String Terminator framing.
fn osc(payload: &[u8]) -> (bytes: Vec<u8>)
    ensures
        bytes@ == framed(payload@),
{
    let mut bytes: Vec<u8> = vec![0x1bu8, 0x5du8];
    extend_bytes(&mut bytes, payload);
    bytes.push(0x1bu8);
    bytes.push(0x5cu8);
    bytes
}

/// The base64 symbol for a six-bit value.
pub open spec fn symbol(value: int) -> char {
    if value < 26 {
        (value + 'A' as int) as char
    } else if value < 52 {
        (value - 26 + 'a' as int) as char
    } else if value < 62 {
        (value - 52 + '0' as int) as char
    } else if value == 62 {
        '+'
    } else {
        '/'
    }
}

/// `bytes` in base64, padded: every three bytes are four six-bit symbols.
pub open spec fn base64_text(bytes: Seq<u8>) -> Seq<char>
    decreases bytes.len(),
{
    if bytes.len() == 0 {
        seq![]
    } else {
        let first = bytes[0] as int;
        let second = if bytes.len() > 1 {
            bytes[1] as int
        } else {
            0
        };
        let third = if bytes.len() > 2 {
            bytes[2] as int
        } else {
            0
        };
        let group = seq![
            symbol(first / 4),
            symbol(first % 4 * 16 + second / 16),
            if bytes.len() > 1 {
                symbol(second % 16 * 4 + third / 64)
            } else {
                '='
            },
            if bytes.len() > 2 {
                symbol(third % 64)
            } else {
                '='
            },
        ];
        if bytes.len() <= 3 {
            group
        } else {
            group + base64_text(bytes.skip(3))
        }
    }
}

fn symbol_char(value: u8) -> (ch: char)
    requires
        value < 64,
    ensures
        ch == symbol(value as int),
{
    if value < 26 {
        (value + 65) as char
    } else if value < 52 {
        (value - 26 + 97) as char
    } else if value < 62 {
        (value - 52 + 48) as char
    } else if value == 62 {
        '+'
    } else {
        '/'
    }
}

/// Encodes bytes for OSC 52.
pub fn base64(bytes: &[u8]) -> (encoded: String)
    ensures
        encoded@ == base64_text(bytes@),
{
    let mut encoded: String = String::new();
    let mut at: usize = 0;
    assert(bytes@.skip(0) =~= bytes@);
    assert(encoded@ + base64_text(bytes@) =~= base64_text(bytes@));
    while at < bytes.len()
        invariant
            at <= bytes.len(),
            encoded@ + base64_text(bytes@.skip(at as int)) == base64_text(bytes@),
        decreases bytes.len() - at,
    {
        let ghost rest = bytes@.skip(at as int);
        let ghost before = encoded@;
        let left: usize = bytes.len() - at;
        let first: u8 = bytes[at];
        let second: u8 = if left > 1 {
            bytes[at + 1]
        } else {
            0
        };
        let third: u8 = if left > 2 {
            bytes[at + 2]
        } else {
            0
        };
        encoded.push(symbol_char(first / 4));
        encoded.push(symbol_char(first % 4 * 16 + second / 16));
        encoded.push(
            if left > 1 {
                symbol_char(second % 16 * 4 + third / 64)
            } else {
                '='
            },
        );
        encoded.push(
            if left > 2 {
                symbol_char(third % 64)
            } else {
                '='
            },
        );
        if left <= 3 {
            assert(bytes@.skip(bytes@.len() as int) =~= seq![]);
            assert(encoded@ =~= before + base64_text(rest));
            at = bytes.len();
            assert(encoded@ + base64_text(bytes@.skip(at as int)) =~= base64_text(bytes@));
        } else {
            at = at + 3;
            assert(rest.skip(3) =~= bytes@.skip(at as int));
            assert(encoded@ + base64_text(bytes@.skip(at as int)) =~= before + base64_text(rest));
        }
    }
    assert(bytes@.skip(at as int) =~= seq![]);
    assert(encoded@ + seq![] =~= encoded@);
    encoded
}

/// Whether no byte of `bytes` is a C0 control or delete, so none can begin or
/// end an escape sequence.
pub open spec fn free_of_controls(bytes: Seq<u8>) -> bool {
    forall|i: int| 0 <= i < bytes.len() ==> 0x20 <= #[trigger] bytes[i] && bytes[i] != 0x7f
}

/// A permitted effect is one sequence and no more: between its introducer and
/// its terminator no byte can begin or end another.
pub proof fn permitted_payload_holds_no_control(
    caps: TermCaps,
    policy: EffectPolicy,
    effect: OuterTerminalEffect,
)
    ensures
        permitted_payload(caps, policy, effect) matches Some(payload) ==> free_of_controls(payload),
{
    match effect {
        OuterTerminalEffect::SetTitle(title) => {
            if is_plain(title@) {
                plain_text_encodes_without_controls(title@);
            }
        },
        OuterTerminalEffect::ClipboardStore { target, text } => {
            base64_is_plain(encode_utf8(text@));
            plain_text_encodes_without_controls(base64_text(encode_utf8(text@)));
        },
        _ => {},
    }
}

/// What policy denies is not written, whatever the terminal can do.
pub proof fn denial_writes_nothing(caps: TermCaps, effect: OuterTerminalEffect)
    ensures
        permitted_payload(caps, EffectPolicy { title: false, clipboard: false }, effect) is None,
{
}

/// A clipboard is stored exactly when both the policy and the terminal agree.
pub proof fn clipboard_needs_both_gates(
    caps: TermCaps,
    policy: EffectPolicy,
    target: ClipboardTarget,
    text: String,
)
    ensures
        permitted_payload(
            caps,
            policy,
            OuterTerminalEffect::ClipboardStore { target, text },
        ) is Some <==> policy.clipboard && caps.clipboard_osc52,
{
}

proof fn base64_is_plain(bytes: Seq<u8>)
    ensures
        is_plain(base64_text(bytes)),
    decreases bytes.len(),
{
    if bytes.len() > 3 {
        base64_is_plain(bytes.skip(3));
    }
}

proof fn scalar_encodes_without_controls(code: u32)
    requires
        vstd::utf8::is_scalar(code),
        code > 0x1f,
        code != 0x7f,
    ensures
        free_of_controls(encode_scalar(code)),
{
    assert(code <= 0x7f && code > 0x1f && code != 0x7f ==> 0x20 <= (code & 0x7F) as u8 && (code
        & 0x7F) as u8 != 0x7f) by (bit_vector);
    assert(0xC0u8 | ((code >> 6) & 0x1F) as u8 >= 0x80) by (bit_vector);
    assert(0xE0u8 | ((code >> 12) & 0x0F) as u8 >= 0x80) by (bit_vector);
    assert(0xF0u8 | ((code >> 18) & 0x7) as u8 >= 0x80) by (bit_vector);
    assert(0x80u8 | (code & 0x3F) as u8 >= 0x80) by (bit_vector);
    assert(0x80u8 | ((code >> 6) & 0x3F) as u8 >= 0x80) by (bit_vector);
    assert(0x80u8 | ((code >> 12) & 0x3F) as u8 >= 0x80) by (bit_vector);
}

proof fn plain_text_encodes_without_controls(text: Seq<char>)
    requires
        is_plain(text),
    ensures
        free_of_controls(encode_utf8(text)),
    decreases text.len(),
{
    if text.len() > 0 {
        let rest = text.drop_first();
        assert forall|i: int| 0 <= i < rest.len() implies !is_control(#[trigger] rest[i]) by {
            assert(rest[i] == text[i + 1]);
        }
        plain_text_encodes_without_controls(rest);
        assert(!is_control(text[0]));
        vstd::utf8::char_is_scalar(text[0]);
        scalar_encodes_without_controls(text[0] as u32);
    }
}

proof fn symbols_differ(a: int, b: int)
    requires
        0 <= a < 64,
        0 <= b < 64,
    ensures
        symbol(a) == symbol(b) ==> a == b,
        symbol(a) != '=',
{
}

proof fn groups_are_four_symbols(bytes: Seq<u8>)
    ensures
        bytes.len() == 0 ==> base64_text(bytes).len() == 0,
        0 < bytes.len() <= 3 ==> base64_text(bytes).len() == 4,
        bytes.len() > 3 ==> base64_text(bytes).len() > 4,
{
    if bytes.len() > 3 {
        let rest = base64_text(bytes.skip(3));
        assert(bytes.skip(3).len() > 0);
        assert(rest.len() >= 4);
    }
}

/// What is stored can be read back: no two texts are stored alike.
pub proof fn stored_bytes_are_told_apart(a: Seq<u8>, b: Seq<u8>)
    requires
        base64_text(a) == base64_text(b),
    ensures
        a == b,
    decreases a.len(),
{
    groups_are_four_symbols(a);
    groups_are_four_symbols(b);
    if a.len() == 0 {
        assert(a =~= b);
    } else {
        let text = base64_text(a);
        let (a0, b0) = (a[0] as int, b[0] as int);
        let (a1, b1) = (
            if a.len() > 1 {
                a[1] as int
            } else {
                0
            },
            if b.len() > 1 {
                b[1] as int
            } else {
                0
            },
        );
        let (a2, b2) = (
            if a.len() > 2 {
                a[2] as int
            } else {
                0
            },
            if b.len() > 2 {
                b[2] as int
            } else {
                0
            },
        );
        assert(text[0] == base64_text(b)[0]);
        assert(text[1] == base64_text(b)[1]);
        assert(text[2] == base64_text(b)[2]);
        assert(text[3] == base64_text(b)[3]);
        symbols_differ(a0 / 4, b0 / 4);
        symbols_differ(a0 % 4 * 16 + a1 / 16, b0 % 4 * 16 + b1 / 16);
        symbols_differ(a1 % 16 * 4 + a2 / 64, b1 % 16 * 4 + b2 / 64);
        symbols_differ(b1 % 16 * 4 + b2 / 64, a1 % 16 * 4 + a2 / 64);
        symbols_differ(a2 % 64, b2 % 64);
        symbols_differ(b2 % 64, a2 % 64);
        assert(a0 == b0);
        assert(a1 == b1);
        assert(a2 == b2);
        if a.len() > 3 {
            let (rest, other) = (base64_text(a.skip(3)), base64_text(b.skip(3)));
            assert(rest =~= text.skip(4));
            assert(other =~= base64_text(b).skip(4));
            stored_bytes_are_told_apart(a.skip(3), b.skip(3));
            assert(a =~= a.take(3) + a.skip(3));
            assert(b =~= b.take(3) + b.skip(3));
            assert(a.take(3) =~= b.take(3));
        } else {
            assert(a =~= b);
        }
    }
}

/// The symbols of base64, each at the six-bit value it stands for.
pub open spec fn base64_alphabet() -> Seq<char> {
    "ABCDEFGHIJKLMNOPQRSTUVWXYZabcdefghijklmnopqrstuvwxyz0123456789+/"@
}

/// Each six-bit value is written as the character of the alphabet at its place.
pub proof fn symbols_are_the_alphabet(value: int)
    requires
        0 <= value < 64,
    ensures
        base64_alphabet().len() == 64,
        symbol(value) == base64_alphabet()[value],
{
    reveal_strlit("ABCDEFGHIJKLMNOPQRSTUVWXYZabcdefghijklmnopqrstuvwxyz0123456789+/");
}

/// The six-bit value a symbol stands for.
pub open spec fn symbol_value(ch: char) -> int {
    base64_alphabet().index_of(ch)
}

/// What a terminal reads back from base64: four symbols are three bytes, and
/// padding marks those that were not there.
pub open spec fn read_back(text: Seq<char>) -> Seq<u8>
    decreases text.len(),
{
    if text.len() < 4 {
        seq![]
    } else {
        let a = symbol_value(text[0]);
        let b = symbol_value(text[1]);
        let c = symbol_value(text[2]);
        let d = symbol_value(text[3]);
        let first = ((a * 64 + b) / 16) as u8;
        if text[2] == '=' {
            seq![first]
        } else if text[3] == '=' {
            seq![first, ((a * 4096 + b * 64 + c) / 4 % 256) as u8]
        } else {
            seq![
                first,
                ((a * 4096 + b * 64 + c) / 4 % 256) as u8,
                ((a * 262144 + b * 4096 + c * 64 + d) % 256) as u8,
            ] + read_back(text.skip(4))
        }
    }
}

proof fn a_symbol_reads_back(value: int)
    requires
        0 <= value < 64,
    ensures
        symbol_value(symbol(value)) == value,
        symbol(value) != '=',
{
    symbols_are_the_alphabet(value);
    let alphabet = base64_alphabet();
    assert(alphabet[value] == symbol(value));
    let found = symbol_value(symbol(value));
    assert(0 <= found < alphabet.len() && alphabet[found] == symbol(value));
    symbols_are_the_alphabet(found);
    symbols_differ(found, value);
    symbols_differ(value, value);
}

proof fn four_values_are_three_bytes(x: int, y: int, z: int)
    requires
        0 <= x < 256,
        0 <= y < 256,
        0 <= z < 256,
    ensures
        ({
            let a = x / 4;
            let b = x % 4 * 16 + y / 16;
            let c = y % 16 * 4 + z / 64;
            let d = z % 64;
            &&& 0 <= a < 64 && 0 <= b < 64 && 0 <= c < 64 && 0 <= d < 64
            &&& (a * 64 + b) / 16 == x
            &&& (a * 4096 + b * 64 + c) / 4 % 256 == y
            &&& (a * 262144 + b * 4096 + c * 64 + d) % 256 == z
        }),
{
    let a = x / 4;
    let b = x % 4 * 16 + y / 16;
    let c = y % 16 * 4 + z / 64;
    let d = z % 64;
    assert(a * 64 + b == x * 16 + y / 16);
    assert(a * 4096 + b * 64 + c == x * 1024 + y * 4 + z / 64);
    assert(a * 262144 + b * 4096 + c * 64 + d == x * 65536 + y * 256 + z);
}

/// What is stored is what was copied: reading the base64 back gives the bytes
/// themselves.
#[verifier::rlimit(40)]
pub proof fn stored_bytes_read_back(bytes: Seq<u8>)
    ensures
        read_back(base64_text(bytes)) == bytes,
    decreases bytes.len(),
{
    if bytes.len() > 0 {
        groups_are_four_symbols(bytes);
        let text = base64_text(bytes);
        let x = bytes[0] as int;
        let y = if bytes.len() > 1 {
            bytes[1] as int
        } else {
            0
        };
        let z = if bytes.len() > 2 {
            bytes[2] as int
        } else {
            0
        };
        four_values_are_three_bytes(x, y, z);
        a_symbol_reads_back(x / 4);
        a_symbol_reads_back(x % 4 * 16 + y / 16);
        a_symbol_reads_back(y % 16 * 4 + z / 64);
        a_symbol_reads_back(z % 64);
        if bytes.len() > 3 {
            stored_bytes_read_back(bytes.skip(3));
            assert(text.skip(4) =~= base64_text(bytes.skip(3)));
            assert(bytes =~= seq![bytes[0], bytes[1], bytes[2]] + bytes.skip(3));
        } else {
            assert(text.skip(4) =~= seq![]);
            assert(read_back(text.skip(4)) =~= seq![]);
        }
        assert(read_back(text) =~= bytes);
    } else {
        assert(read_back(base64_text(bytes)) =~= bytes);
    }
}

/// Bytes as the characters of the same codes.
pub open spec fn as_ascii(bytes: Seq<u8>) -> Seq<char> {
    bytes.map_values(|byte: u8| byte as char)
}

proof fn base64_is_ascii(bytes: Seq<u8>)
    ensures
        forall|i: int|
            0 <= i < base64_text(bytes).len() ==> (#[trigger] base64_text(bytes)[i]) as u32 <= 0x7f,
    decreases bytes.len(),
{
    if bytes.len() > 0 {
        let x = bytes[0] as int;
        let y = if bytes.len() > 1 {
            bytes[1] as int
        } else {
            0
        };
        let z = if bytes.len() > 2 {
            bytes[2] as int
        } else {
            0
        };
        symbol_is_ascii(x / 4);
        symbol_is_ascii(x % 4 * 16 + y / 16);
        symbol_is_ascii(y % 16 * 4 + z / 64);
        symbol_is_ascii(z % 64);
    }
    if bytes.len() > 3 {
        let rest = base64_text(bytes.skip(3));
        let text = base64_text(bytes);
        base64_is_ascii(bytes.skip(3));
        assert forall|i: int| 0 <= i < text.len() implies (#[trigger] text[i]) as u32 <= 0x7f by {
            if i >= 4 {
                assert(text[i] == rest[i - 4]);
            }
        }
    }
}

proof fn symbol_is_ascii(value: int)
    requires
        0 <= value < 64,
    ensures
        symbol(value) as u32 <= 0x7f,
{
}

proof fn same_code_same_char(a: char, b: char)
    requires
        a as u32 == b as u32,
    ensures
        a == b,
{
}

proof fn ascii_encodes_as_itself(text: Seq<char>)
    requires
        forall|i: int| 0 <= i < text.len() ==> (#[trigger] text[i]) as u32 <= 0x7f,
    ensures
        as_ascii(encode_utf8(text)) == text,
    decreases text.len(),
{
    if text.len() > 0 {
        let rest = text.drop_first();
        assert forall|i: int| 0 <= i < rest.len() implies (#[trigger] rest[i]) as u32 <= 0x7f by {
            assert(rest[i] == text[i + 1]);
        }
        ascii_encodes_as_itself(rest);
        let code = text[0] as u32;
        vstd::utf8::char_is_scalar(text[0]);
        assert(code <= 0x7f ==> (code & 0x7F) as u8 == code) by (bit_vector);
        assert(encode_scalar(code) =~= seq![code as u8]);
        assert(encode_utf8(text) == encode_scalar(code) + encode_utf8(rest));
        assert(code as u8 == code);
        same_code_same_char((code as u8) as char, text[0]);
        assert(as_ascii(encode_utf8(text)) =~= seq![text[0]] + as_ascii(encode_utf8(rest)));
        assert(seq![text[0]] + rest =~= text);
    } else {
        assert(as_ascii(encode_utf8(text)) =~= text);
    }
}

/// A stored clipboard is one OSC 52 sequence that names the clipboard and from
/// which a terminal reads back the very text that was copied.
#[verifier::rlimit(40)]
pub proof fn a_terminal_reads_back_what_was_copied(
    caps: TermCaps,
    policy: EffectPolicy,
    target: ClipboardTarget,
    text: String,
)
    requires
        policy.clipboard,
        caps.clipboard_osc52,
    ensures
        permitted_payload(caps, policy, OuterTerminalEffect::ClipboardStore { target, text }) is Some,
        ({
            let payload = permitted_payload(
                caps,
                policy,
                OuterTerminalEffect::ClipboardStore { target, text },
            )->0;
            let letter = if target is Clipboard {
                0x63u8
            } else {
                0x70u8
            };
            &&& payload.take(5) == seq![0x35u8, 0x32u8, 0x3bu8, letter, 0x3bu8]
            &&& read_back(as_ascii(payload.skip(5))) == encode_utf8(text@)
            &&& framed(payload) == seq![0x1bu8, 0x5du8] + payload + seq![0x1bu8, 0x5cu8]
        }),
{
    let payload = permitted_payload(
        caps,
        policy,
        OuterTerminalEffect::ClipboardStore { target, text },
    )->0;
    let bytes = encode_utf8(text@);
    let stored = encode_utf8(base64_text(bytes));
    assert(payload.skip(5) =~= stored);
    assert(payload.take(5) =~= seq![
        0x35u8,
        0x32u8,
        0x3bu8,
        if target is Clipboard {
            0x63u8
        } else {
            0x70u8
        },
        0x3bu8,
    ]);
    base64_is_ascii(bytes);
    ascii_encodes_as_itself(base64_text(bytes));
    stored_bytes_read_back(bytes);
}

/// A title is set as it was asked for, and only where titles are permitted and
/// it holds no control character; a reset sets an empty one. Nothing else but a
/// clipboard is ever written.
pub proof fn a_title_is_written_as_it_is(caps: TermCaps, policy: EffectPolicy, effect: OuterTerminalEffect)
    ensures
        match effect {
            OuterTerminalEffect::SetTitle(title) => {
                let allowed = policy.title && forall|i: int|
                    0 <= i < title@.len() ==> {
                        let code = (#[trigger] title@[i]) as u32;
                        0x20 <= code < 0x7f || 0xa0 <= code
                    };
                permitted_payload(caps, policy, effect) == if allowed {
                    Some(seq![0x32u8, 0x3bu8] + encode_utf8(title@))
                } else {
                    None
                }
            },
            OuterTerminalEffect::ResetTitle => permitted_payload(caps, policy, effect)
                == if policy.title {
                Some(seq![0x32u8, 0x3bu8])
            } else {
                None
            },
            OuterTerminalEffect::ClipboardStore { .. } => permitted_payload(
                caps,
                policy,
                effect,
            ) is Some == (policy.clipboard && caps.clipboard_osc52),
            _ => permitted_payload(caps, policy, effect) is None,
        },
{
    if let OuterTerminalEffect::SetTitle(title) = effect {
        if is_plain(title@) {
            assert forall|i: int| 0 <= i < title@.len() implies {
                let code = (#[trigger] title@[i]) as u32;
                0x20 <= code < 0x7f || 0xa0 <= code
            } by {
                assert(!is_control(title@[i]));
            }
        } else {
            let i = choose|i: int| 0 <= i < title@.len() && is_control(#[trigger] title@[i]);
            let code = title@[i] as u32;
            assert(!(0x20 <= code < 0x7f || 0xa0 <= code));
        }
    }
}

} // verus!
