//! How the chords a terminal sends read back, and where each one goes.

use vstd::prelude::*;
use vstd::utf8::{encode_scalar, encode_utf8};

use crate::bytes::{digits_only_add, is_number, number_from, number_of};
use crate::keymap::{bound, first_bound, without, Binding, Key, KeyCode, KeyMods, Keymap};
use crate::keys::{
    char_chord, chord_at, csi_final, csi_from, overlay_action_of, palette_action_of, palette_edits,
    param_mods, prefixed_chord, queue_action_of, routed_chords, with_digit, ChordView,
    OverlayAction, PaletteAction, QueueAction,
};
use crate::live::{Edges, LiveView};
use crate::proto::{command_message, Action, ClientMessageView};
use crate::routing::{followed, sending, typed, RouteOutcomeView, RoutedView};
use crate::time::Instant;

verus! {

/// No modifier held.
pub open spec fn unmodified() -> KeyMods {
    KeyMods { shift: false, alt: false, ctrl: false }
}

/// The letter a cursor key ends its sequence with.
pub open spec fn cursor_letter(code: KeyCode) -> Option<u8> {
    match code {
        KeyCode::Up => Some(0x41u8),
        KeyCode::Down => Some(0x42u8),
        KeyCode::Right => Some(0x43u8),
        KeyCode::Left => Some(0x44u8),
        KeyCode::End => Some(0x46u8),
        KeyCode::Home => Some(0x48u8),
        _ => None,
    }
}

/// The number an editing or function key is written with.
pub open spec fn key_number(code: KeyCode) -> Option<nat> {
    match code {
        KeyCode::Home => Some(1),
        KeyCode::Insert => Some(2),
        KeyCode::Delete => Some(3),
        KeyCode::End => Some(4),
        KeyCode::PageUp => Some(5),
        KeyCode::PageDown => Some(6),
        KeyCode::Function(n) => if 1 <= n <= 5 {
            Some((10 + n) as nat)
        } else if 6 <= n <= 10 {
            Some((11 + n) as nat)
        } else if 11 <= n <= 12 {
            Some((12 + n) as nat)
        } else {
            None
        },
        _ => None,
    }
}

/// The number modifiers are written with: one more than what each adds.
pub open spec fn mods_number(mods: KeyMods) -> nat {
    let shift: nat = if mods.shift {
        1
    } else {
        0
    };
    let alt: nat = if mods.alt {
        2
    } else {
        0
    };
    let ctrl: nat = if mods.ctrl {
        4
    } else {
        0
    };
    1 + shift + alt + ctrl
}

proof fn mods_read_back(mods: KeyMods)
    ensures
        param_mods(mods_number(mods) as u32) == mods,
{
    let bits = (mods_number(mods) - 1) as u32;
    assert((bits & 1 != 0) == (bits % 2 == 1)) by (bit_vector);
    assert((bits & 2 != 0) == (bits / 2 % 2 == 1)) by (bit_vector);
    assert((bits & 4 != 0) == (bits / 4 % 2 == 1)) by (bit_vector);
}

proof fn csi_reads_digits(
    bytes: Seq<u8>,
    index: nat,
    first: u32,
    second: u32,
    field: nat,
    number: Seq<u8>,
)
    requires
        field < 2,
        index + number.len() <= bytes.len(),
        bytes.subrange(index as int, index as int + number.len()) == number,
        forall|i: int| 0 <= i < number.len() ==> 0x30 <= #[trigger] number[i] <= 0x39,
        number_from(
            if field == 0 {
                first as nat
            } else {
                second as nat
            },
            number,
        ) <= u32::MAX,
    ensures
        csi_from(bytes, index, first, second, field) == if field == 0 {
            csi_from(
                bytes,
                index + number.len(),
                number_from(first as nat, number) as u32,
                second,
                field,
            )
        } else {
            csi_from(
                bytes,
                index + number.len(),
                first,
                number_from(second as nat, number) as u32,
                field,
            )
        },
    decreases number.len(),
{
    if number.len() > 0 {
        let rest = number.drop_first();
        let value = if field == 0 {
            first
        } else {
            second
        };
        let next = (value * 10 + (number[0] - 0x30)) as nat;
        assert(bytes[index as int] == number[0]) by {
            assert(bytes.subrange(index as int, index as int + number.len())[0] == number[0]);
        }
        assert forall|i: int| 0 <= i < rest.len() implies 0x30 <= #[trigger] rest[i] <= 0x39 by {
            assert(rest[i] == number[i + 1]);
        }
        digits_only_add(next, rest);
        assert(bytes.subrange(index as int + 1, index as int + 1 + rest.len()) =~= rest) by {
            assert(bytes.subrange(index as int, index as int + number.len()).drop_first()
                =~= bytes.subrange(index as int + 1, index as int + 1 + rest.len()));
        }
        assert(with_digit(value, number[0]) == next as u32);
        if field == 0 {
            csi_reads_digits(bytes, index + 1, next as u32, second, field, rest);
        } else {
            csi_reads_digits(bytes, index + 1, first, next as u32, field, rest);
        }
    }
}

/// A cursor key reads back in both of its plain forms, `CSI` and `SS3`, whatever
/// is typed behind it.
pub proof fn a_cursor_key_reads_back(code: KeyCode, letter: u8, rest: Seq<u8>)
    requires
        cursor_letter(code) == Some(letter),
    ensures
        chord_at(seq![0x1bu8, 0x5bu8, letter] + rest) == Some((Key { code, mods: unmodified() }, 3nat)),
        chord_at(seq![0x1bu8, 0x4fu8, letter] + rest) == Some((Key { code, mods: unmodified() }, 3nat)),
{
    reveal(chord_at);
    let csi = seq![0x1bu8, 0x5bu8, letter] + rest;
    assert(csi[0] == 0x1b && csi[1] == 0x5b && csi[2] == letter);
    mods_read_back(unmodified());
    assert(csi_final(letter, 0, 0) == Some(Key { code, mods: unmodified() }));
    let ss3 = seq![0x1bu8, 0x4fu8, letter] + rest;
    assert(ss3[0] == 0x1b && ss3[1] == 0x4f && ss3[2] == letter);
}

/// The first four function keys read back in their `SS3` form.
pub proof fn a_function_key_reads_back(n: u8, rest: Seq<u8>)
    requires
        1 <= n <= 4,
    ensures
        chord_at(seq![0x1bu8, 0x4fu8, (0x4f + n) as u8] + rest) == Some(
            (Key { code: KeyCode::Function(n), mods: unmodified() }, 3nat),
        ),
{
    reveal(chord_at);
    let ss3 = seq![0x1bu8, 0x4fu8, (0x4f + n) as u8] + rest;
    assert(ss3[0] == 0x1b && ss3[1] == 0x4f && ss3[2] == 0x4f + n);
}

/// A cursor key reads back with the modifiers it was pressed with.
pub proof fn a_modified_cursor_key_reads_back(
    code: KeyCode,
    mods: KeyMods,
    letter: u8,
    first: Seq<u8>,
    second: Seq<u8>,
    rest: Seq<u8>,
)
    requires
        cursor_letter(code) == Some(letter),
        is_number(first),
        number_of(first) <= u32::MAX,
        is_number(second),
        number_of(second) == mods_number(mods),
    ensures
        chord_at(
            seq![0x1bu8, 0x5bu8] + first + seq![0x3bu8] + second + seq![letter] + rest,
        ) == Some((Key { code, mods }, first.len() + second.len() + 4)),
{
    let bytes = seq![0x1bu8, 0x5bu8] + first + seq![0x3bu8] + second + seq![letter] + rest;
    a_modified_sequence_reads(bytes, first, second, letter, rest);
    mods_read_back(mods);
    assert(csi_final(letter, number_of(first) as u32, number_of(second) as u32) == Some(
        Key { code, mods },
    ));
}

proof fn a_modified_sequence_reads(
    bytes: Seq<u8>,
    first: Seq<u8>,
    second: Seq<u8>,
    last: u8,
    rest: Seq<u8>,
)
    requires
        bytes == seq![0x1bu8, 0x5bu8] + first + seq![0x3bu8] + second + seq![last] + rest,
        is_number(first),
        number_of(first) <= u32::MAX,
        is_number(second),
        number_of(second) <= u32::MAX,
        !(0x30 <= last <= 0x39),
        last != 0x3b,
    ensures
        chord_at(bytes) == match csi_final(last, number_of(first) as u32, number_of(second) as u32) {
            Some(key) => Some((key, first.len() + second.len() + 4)),
            None => None,
        },
{
    reveal(chord_at);
    let a = 2 + first.len();
    let b = a + 1 + second.len();
    assert(bytes[0] == 0x1b && bytes[1] == 0x5b);
    assert(bytes.subrange(2, 2int + first.len()) =~= first);
    assert(bytes[a as int] == 0x3b);
    assert(bytes.subrange(a as int + 1, a as int + 1 + second.len()) =~= second);
    assert(bytes[b as int] == last);
    csi_reads_digits(bytes, 2, 0, 0, 0, first);
    csi_reads_digits(bytes, a + 1, number_of(first) as u32, 0, 1, second);
}

/// An editing or function key reads back from its number, alone and with the
/// modifiers it was pressed with.
pub proof fn a_numbered_key_reads_back(
    code: KeyCode,
    mods: KeyMods,
    number: Seq<u8>,
    second: Seq<u8>,
    rest: Seq<u8>,
)
    requires
        is_number(number),
        key_number(code) == Some(number_of(number)),
        is_number(second),
        number_of(second) == mods_number(mods),
    ensures
        chord_at(seq![0x1bu8, 0x5bu8] + number + seq![0x7eu8] + rest) == Some(
            (Key { code, mods: unmodified() }, number.len() + 3),
        ),
        chord_at(
            seq![0x1bu8, 0x5bu8] + number + seq![0x3bu8] + second + seq![0x7eu8] + rest,
        ) == Some((Key { code, mods }, number.len() + second.len() + 4)),
{
    let plain = seq![0x1bu8, 0x5bu8] + number + seq![0x7eu8] + rest;
    let a = 2 + number.len();
    assert(chord_at(plain) == Some((Key { code, mods: unmodified() }, number.len() + 3))) by {
        reveal(chord_at);
        assert(plain[0] == 0x1b && plain[1] == 0x5b);
        assert(plain.subrange(2, 2int + number.len()) =~= number);
        assert(plain[a as int] == 0x7e);
        csi_reads_digits(plain, 2, 0, 0, 0, number);
    }
    let bytes = seq![0x1bu8, 0x5bu8] + number + seq![0x3bu8] + second + seq![0x7eu8] + rest;
    a_modified_sequence_reads(bytes, number, second, 0x7e, rest);
    mods_read_back(mods);
    assert(csi_final(0x7e, number_of(number) as u32, number_of(second) as u32) == Some(
        Key { code, mods },
    ));
}

/// Back-tab reads as a shifted tab.
pub proof fn back_tab_reads_back(rest: Seq<u8>)
    ensures
        chord_at(seq![0x1bu8, 0x5bu8, 0x5au8] + rest) == Some(
            (
                Key { code: KeyCode::Tab, mods: KeyMods { shift: true, ..unmodified() } },
                3nat,
            ),
        ),
{
    reveal(chord_at);
    let bytes = seq![0x1bu8, 0x5bu8, 0x5au8] + rest;
    assert(bytes[0] == 0x1b && bytes[1] == 0x5b && bytes[2] == 0x5a);
}

/// A control letter reads as that letter with control held, and the bytes that
/// are keys of their own read as those keys.
pub proof fn a_control_byte_reads_back(byte: u8, rest: Seq<u8>)
    requires
        byte < 0x20 || byte == 0x7f,
        byte != 0x1b,
    ensures
        ({
            let plain = |code: KeyCode| Some((Key { code, mods: unmodified() }, 1nat));
            let held = |ch: char|
                Some(
                    (
                        Key { code: KeyCode::Char(ch), mods: KeyMods { ctrl: true, ..unmodified() } },
                        1nat,
                    ),
                );
            chord_at(seq![byte] + rest) == if byte == 0x0d {
                plain(KeyCode::Enter)
            } else if byte == 0x09 {
                plain(KeyCode::Tab)
            } else if byte == 0x7f {
                plain(KeyCode::Backspace)
            } else if byte == 0 {
                held(' ')
            } else if byte < 0x1b {
                held((byte - 1 + 'a' as u8) as char)
            } else if byte == 0x1c {
                held('\\')
            } else if byte == 0x1d {
                held(']')
            } else if byte == 0x1e {
                held('^')
            } else {
                held('_')
            }
        }),
{
    reveal(chord_at);
    assert((seq![byte] + rest)[0] == byte);
}

/// A lone escape is Escape.
pub proof fn a_lone_escape_reads_back()
    ensures
        chord_at(seq![0x1bu8]) == Some((Key { code: KeyCode::Escape, mods: unmodified() }, 1nat)),
{
    reveal(chord_at);
}

/// An escape before a chord that opens no sequence is that chord with alt held.
pub proof fn an_escape_holds_alt(chord: Seq<u8>, key: Key, len: nat)
    requires
        chord.len() > 0,
        chord[0] != 0x5b,
        chord[0] != 0x4f,
        chord_at(chord) == Some((key, len)),
    ensures
        chord_at(seq![0x1bu8] + chord) == Some(
            (Key { code: key.code, mods: KeyMods { alt: true, ..key.mods } }, len + 1),
        ),
{
    reveal(chord_at);
    let bytes = seq![0x1bu8] + chord;
    assert(bytes[0] == 0x1b && bytes[1] == chord[0]);
    assert(bytes.drop_first() =~= chord);
}

/// A typed character reads as that character, of any alphabet, however long its
/// encoding is.
pub proof fn a_character_reads_back(ch: char, rest: Seq<u8>)
    requires
        0x20 <= ch as u32,
        ch as u32 != 0x7f,
    ensures
        chord_at(encode_utf8(seq![ch]) + rest) == Some(
            (
                Key { code: KeyCode::Char(ch), mods: unmodified() },
                encode_utf8(seq![ch]).len(),
            ),
        ),
        encode_utf8(seq![ch]).len() > 0,
{
    reveal(chord_at);
    let code = ch as u32;
    let coded = encode_utf8(seq![ch]);
    vstd::utf8::char_is_scalar(ch);
    vstd::utf8::encode_utf8_valid_utf8(seq![ch]);
    vstd::utf8::encode_utf8_decode_utf8(seq![ch]);
    assert(seq![ch].drop_first() =~= Seq::<char>::empty());
    assert(encode_utf8(Seq::<char>::empty()) =~= seq![]);
    assert(coded =~= encode_scalar(code));
    assert(code <= 0x7f ==> (code & 0x7F) as u8 == code) by (bit_vector);
    assert({
        let b = 0xC0u8 | ((code >> 6) & 0x1F) as u8;
        0xc0 <= b <= 0xdf
    }) by (bit_vector);
    assert({
        let b = 0xE0u8 | ((code >> 12) & 0x0F) as u8;
        0xe0 <= b <= 0xef
    }) by (bit_vector);
    assert({
        let b = 0xF0u8 | ((code >> 18) & 0x7) as u8;
        0xf0 <= b <= 0xf7
    }) by (bit_vector);
    let bytes = coded + rest;
    assert(bytes[0] == coded[0]);
    assert(bytes.take(coded.len() as int) =~= coded);
    assert(char_chord(bytes) == Some((Key::char(ch), coded.len())));
}

proof fn no_keys_ask_nothing()
    ensures
        palette_edits(Seq::<u8>::empty()) == Seq::<PaletteAction>::empty(),
{
    reveal(chord_at);
}

/// Inserting a character.
pub open spec fn insertion(ch: char) -> PaletteAction {
    PaletteAction::Insert(ch)
}

/// The characters of a text, each to be inserted.
pub open spec fn insertions(text: Seq<char>) -> Seq<PaletteAction> {
    text.map_values(|ch: char| insertion(ch))
}

pub(crate) proof fn insertions_from_the_front(text: Seq<char>)
    requires
        text.len() > 0,
    ensures
        insertions(text) == seq![PaletteAction::Insert(text[0])] + insertions(text.drop_first()),
{
    assert(insertions(text) =~= seq![insertion(text[0])] + insertions(text.drop_first()));
}

proof fn an_encoding_starts_with_its_character(text: Seq<char>)
    requires
        text.len() > 0,
    ensures
        encode_utf8(text) == encode_utf8(seq![text[0]]) + encode_utf8(text.drop_first()),
{
    assert(seq![text[0]].drop_first() =~= Seq::<char>::empty());
    assert(encode_utf8(Seq::<char>::empty()) =~= seq![]);
    assert(encode_utf8(seq![text[0]]) =~= encode_scalar(text[0] as u32));
}

/// What is typed into the palette is what it is asked to insert, character by
/// character.
pub proof fn typed_text_is_inserted(text: Seq<char>)
    requires
        forall|i: int|
            0 <= i < text.len() ==> 0x20 <= (#[trigger] text[i]) as u32 && text[i] as u32 != 0x7f,
    ensures
        palette_edits(encode_utf8(text)) == insertions(text),
        palette_edits(encode_utf8(text)).len() == text.len(),
        forall|i: int|
            0 <= i < text.len() ==> (#[trigger] palette_edits(encode_utf8(text))[i])
                == PaletteAction::Insert(text[i]),
    decreases text.len(),
{
    if text.len() == 0 {
        assert(text =~= Seq::<char>::empty());
        assert(encode_utf8(text) =~= Seq::<u8>::empty());
        no_keys_ask_nothing();
        assert(insertions(text) =~= palette_edits(encode_utf8(text)));
    } else {
        let rest = text.drop_first();
        assert forall|i: int| 0 <= i < rest.len() implies 0x20 <= (#[trigger] rest[i]) as u32
            && rest[i] as u32 != 0x7f by {
            assert(rest[i] == text[i + 1]);
        }
        typed_text_is_inserted(rest);
        let head = encode_utf8(seq![text[0]]);
        let bytes = head + encode_utf8(rest);
        an_encoding_starts_with_its_character(text);
        a_character_reads_back(text[0], encode_utf8(rest));
        assert(bytes.skip(head.len() as int) =~= encode_utf8(rest));
        assert(palette_edits(bytes) == seq![PaletteAction::Insert(text[0])] + palette_edits(
            encode_utf8(rest),
        ));
        insertions_from_the_front(text);
        assert(palette_edits(encode_utf8(rest)) == insertions(rest));
        assert(palette_edits(bytes) == insertions(text));
    }
}

/// The keys that are no text move, edit, confirm and leave the palette.
pub proof fn the_palette_has_its_own_keys()
    ensures
        palette_edits(seq![0x1bu8, 0x5bu8, 0x41u8]) == seq![PaletteAction::Prev],
        palette_edits(seq![0x1bu8, 0x5bu8, 0x42u8]) == seq![PaletteAction::Next],
        palette_edits(seq![0x1bu8, 0x5bu8, 0x48u8]) == seq![PaletteAction::First],
        palette_edits(seq![0x1bu8, 0x5bu8, 0x46u8]) == seq![PaletteAction::Last],
        palette_edits(seq![0x0du8]) == seq![PaletteAction::Confirm],
        palette_edits(seq![0x1bu8]) == seq![PaletteAction::Dismiss],
        palette_edits(seq![0x7fu8]) == seq![PaletteAction::Backspace],
        palette_edits(seq![0x15u8]) == seq![PaletteAction::Clear],
{
    reveal(chord_at);
    reveal_with_fuel(palette_edits, 2);
    let none = Seq::<u8>::empty();
    assert(palette_edits(none) =~= seq![]);
    assert(seq![0x1bu8, 0x5bu8, 0x41u8] + none =~= seq![0x1bu8, 0x5bu8, 0x41u8]);
    assert(seq![0x1bu8, 0x5bu8, 0x42u8] + none =~= seq![0x1bu8, 0x5bu8, 0x42u8]);
    assert(seq![0x1bu8, 0x5bu8, 0x48u8] + none =~= seq![0x1bu8, 0x5bu8, 0x48u8]);
    assert(seq![0x1bu8, 0x5bu8, 0x46u8] + none =~= seq![0x1bu8, 0x5bu8, 0x46u8]);
    a_cursor_key_reads_back(KeyCode::Up, 0x41, none);
    a_cursor_key_reads_back(KeyCode::Down, 0x42, none);
    a_cursor_key_reads_back(KeyCode::Home, 0x48, none);
    a_cursor_key_reads_back(KeyCode::End, 0x46, none);
    assert(seq![0x1bu8, 0x5bu8, 0x41u8].skip(3) =~= none);
    assert(seq![0x1bu8, 0x5bu8, 0x42u8].skip(3) =~= none);
    assert(seq![0x1bu8, 0x5bu8, 0x48u8].skip(3) =~= none);
    assert(seq![0x1bu8, 0x5bu8, 0x46u8].skip(3) =~= none);
    assert(seq![0x0du8].skip(1) =~= none);
    assert(seq![0x1bu8].skip(1) =~= none);
    assert(seq![0x7fu8].skip(1) =~= none);
    assert(seq![0x15u8].skip(1) =~= none);
    assert(palette_edits(seq![0x1bu8, 0x5bu8, 0x41u8]) =~= seq![PaletteAction::Prev]);
    assert(palette_edits(seq![0x1bu8, 0x5bu8, 0x42u8]) =~= seq![PaletteAction::Next]);
    assert(palette_edits(seq![0x1bu8, 0x5bu8, 0x48u8]) =~= seq![PaletteAction::First]);
    assert(palette_edits(seq![0x1bu8, 0x5bu8, 0x46u8]) =~= seq![PaletteAction::Last]);
    assert(palette_edits(seq![0x0du8]) =~= seq![PaletteAction::Confirm]);
    assert(palette_edits(seq![0x1bu8]) =~= seq![PaletteAction::Dismiss]);
    assert(palette_edits(seq![0x7fu8]) =~= seq![PaletteAction::Backspace]);
    assert(palette_edits(seq![0x15u8]) =~= seq![PaletteAction::Clear]);
}

/// A list has its keys, and no other key does anything to it.
pub proof fn a_list_has_its_own_keys(keys: Seq<u8>)
    ensures
        ({
            let one = |byte: u8| keys.len() == 1 && keys[0] == byte;
            let csi = |byte: u8|
                keys.len() == 3 && keys[0] == 0x1b && keys[1] == 0x5b && keys[2] == byte;
            let down = one(0x6a) || csi(0x42);
            let up = one(0x6b) || csi(0x41);
            let enter = one(0x0d) || one(0x0a);
            let leave = one(0x1b) || one(0x71);
            &&& (overlay_action_of(keys) == Some(OverlayAction::Next)) == down
            &&& (overlay_action_of(keys) == Some(OverlayAction::Prev)) == up
            &&& (overlay_action_of(keys) == Some(OverlayAction::First)) == (one(0x67) || csi(0x48))
            &&& (overlay_action_of(keys) == Some(OverlayAction::Last)) == (one(0x47) || csi(0x46))
            &&& (overlay_action_of(keys) == Some(OverlayAction::Confirm)) == enter
            &&& (overlay_action_of(keys) == Some(OverlayAction::Dismiss)) == leave
            &&& (queue_action_of(keys) == Some(QueueAction::Next)) == down
            &&& (queue_action_of(keys) == Some(QueueAction::Prev)) == up
            &&& (queue_action_of(keys) == Some(QueueAction::Focus)) == enter
            &&& (queue_action_of(keys) == Some(QueueAction::Acknowledge)) == (one(0x61) || one(0x20))
            &&& (queue_action_of(keys) == Some(QueueAction::Dismiss)) == leave
        }),
{
    if keys.len() == 1 {
        assert(keys =~= seq![keys[0]]);
    }
    if keys.len() == 3 {
        assert(keys =~= seq![keys[0], keys[1], keys[2]]);
    }
}

/// The first binding of a chord is what it does, and a chord nothing binds does
/// nothing.
pub proof fn a_chord_does_what_it_is_bound_to(bindings: Seq<Binding>, key: Key, i: int)
    ensures
        0 <= i < bindings.len() && bindings[i].key == key && (forall|j: int|
            0 <= j < i ==> (#[trigger] bindings[j]).key != key) ==> bound(bindings, key) == Some(
            bindings[i].action,
        ),
        (forall|j: int| 0 <= j < bindings.len() ==> (#[trigger] bindings[j]).key != key) ==> bound(
            bindings,
            key,
        ) is None,
    decreases bindings.len(),
{
    if bindings.len() > 0 {
        let rest = bindings.drop_first();
        a_chord_does_what_it_is_bound_to(rest, key, i - 1);
        if forall|j: int| 0 <= j < bindings.len() ==> (#[trigger] bindings[j]).key != key {
            assert(bindings[0].key != key);
            assert forall|j: int| 0 <= j < rest.len() implies (#[trigger] rest[j]).key != key by {
                assert(rest[j] == bindings[j + 1]);
            }
        }
        if 0 < i < bindings.len() && bindings[i].key == key && (forall|j: int|
            0 <= j < i ==> (#[trigger] bindings[j]).key != key) {
            assert(bindings[0].key != key);
            assert(rest[i - 1] == bindings[i]);
            assert forall|j: int| 0 <= j < i - 1 implies (#[trigger] rest[j]).key != key by {
                assert(rest[j] == bindings[j + 1]);
            }
        }
    }
}

/// The chord shown for an action is the first that is bound to it.
pub proof fn an_action_shows_its_first_chord(bindings: Seq<Binding>, action: Action, i: int)
    ensures
        0 <= i < bindings.len() && bindings[i].action == action && (forall|j: int|
            0 <= j < i ==> (#[trigger] bindings[j]).action != action) ==> first_bound(
            bindings,
            action,
        ) == Some(bindings[i]),
        (forall|j: int| 0 <= j < bindings.len() ==> (#[trigger] bindings[j]).action != action)
            ==> first_bound(bindings, action) is None,
    decreases bindings.len(),
{
    if bindings.len() > 0 {
        let rest = bindings.drop_first();
        an_action_shows_its_first_chord(rest, action, i - 1);
        if forall|j: int| 0 <= j < bindings.len() ==> (#[trigger] bindings[j]).action != action {
            assert(bindings[0].action != action);
            assert forall|j: int| 0 <= j < rest.len() implies (#[trigger] rest[j]).action
                != action by {
                assert(rest[j] == bindings[j + 1]);
            }
        }
        if 0 < i < bindings.len() && bindings[i].action == action && (forall|j: int|
            0 <= j < i ==> (#[trigger] bindings[j]).action != action) {
            assert(bindings[0].action != action);
            assert(rest[i - 1] == bindings[i]);
            assert forall|j: int| 0 <= j < i - 1 implies (#[trigger] rest[j]).action != action by {
                assert(rest[j] == bindings[j + 1]);
            }
        }
    }
}

/// Binding a chord is what it does from then on; every other chord does what it
/// did, and an unbound one does nothing.
pub proof fn binding_changes_one_chord(bindings: Seq<Binding>, made: Binding, other: Key)
    ensures
        bound(without(bindings, made.key).push(made), made.key) == Some(made.action),
        bound(without(bindings, made.key), made.key) is None,
        other != made.key ==> bound(without(bindings, made.key), other) == bound(bindings, other),
        other != made.key ==> bound(without(bindings, made.key).push(made), other) == bound(
            bindings,
            other,
        ),
    decreases bindings.len(),
{
    let kept = without(bindings, made.key);
    unbinding(bindings, made.key, other);
    unbinding(bindings, made.key, made.key);
    pushing_binds(kept, made, made.key);
    pushing_binds(kept, made, other);
}

proof fn pushing_binds(bindings: Seq<Binding>, made: Binding, key: Key)
    ensures
        bound(bindings.push(made), key) == match bound(bindings, key) {
            Some(action) => Some(action),
            None => if made.key == key {
                Some(made.action)
            } else {
                None
            },
        },
    decreases bindings.len(),
{
    let more = bindings.push(made);
    reveal_with_fuel(bound, 2);
    if bindings.len() > 0 {
        pushing_binds(bindings.drop_first(), made, key);
        assert(more.drop_first() =~= bindings.drop_first().push(made));
    } else {
        assert(more.drop_first() =~= seq![]);
    }
}

proof fn unbinding(bindings: Seq<Binding>, key: Key, other: Key)
    ensures
        bound(without(bindings, key), other) == if other == key {
            None
        } else {
            bound(bindings, other)
        },
    decreases bindings.len(),
{
    reveal(Seq::filter);
    if bindings.len() > 0 {
        let front = bindings.drop_last();
        let last = bindings.last();
        unbinding(front, key, other);
        assert(front.push(last) =~= bindings);
        pushing_binds(front, last, other);
        if last.key != key {
            pushing_binds(without(front, key), last, other);
        }
    }
}

/// A chord bound behind the prefix is sent as its command, and only that: the
/// prefix and the chord reach no pane. Detaching leaves.
pub proof fn a_bound_chord_is_sent_as_its_command(
    state: LiveView,
    keymap: Keymap,
    prefix: Seq<u8>,
    chord: Seq<u8>,
    key: Key,
    action: Action,
    edges: Edges,
    now: Instant,
)
    requires
        state.overlay is None,
        chord.len() > 0,
        prefix.len() > 0,
        chord_at(prefix + chord) == Some((keymap.prefix, prefix.len())),
        chord_at(chord) == Some((key, chord.len())),
        bound(keymap.bindings@, key) == Some(action),
    ensures
        typed(state, keymap, false, prefix + chord, edges, now) == (
            LiveView { resize: None, ..state },
            false,
            RoutedView {
                send: seq![command_message(action)],
                outcome: if action == Action::DetachClient {
                    RouteOutcomeView::Detach
                } else {
                    RouteOutcomeView::Continue
                },
                chrome: None,
            },
        ),
{
    a_prefixed_chord_routes(keymap, prefix, chord, key);
    let routes = seq![ChordView::Pending, ChordView::Command(action)];
    let still = LiveView { resize: None, ..state };
    let rest = routes.drop_first();
    assert(rest =~= seq![ChordView::Command(action)]);
    assert(rest.drop_first() =~= seq![]);
    reveal_with_fuel(followed, 3);
    assert(followed(still, keymap, rest.drop_first(), edges, now) == (still, sending(seq![])));
    assert(seq![command_message(action)] + Seq::<ClientMessageView>::empty() =~= seq![
        command_message(action),
    ]);
}

proof fn a_prefixed_chord_routes(keymap: Keymap, prefix: Seq<u8>, chord: Seq<u8>, key: Key)
    requires
        chord.len() > 0,
        prefix.len() > 0,
        chord_at(prefix + chord) == Some((keymap.prefix, prefix.len())),
        chord_at(chord) == Some((key, chord.len())),
    ensures
        routed_chords(keymap, false, seq![], prefix + chord) == (
            seq![ChordView::Pending, prefixed_chord(keymap, key, chord)],
            false,
        ),
{
    let bytes = prefix + chord;
    let none = Seq::<u8>::empty();
    assert(bytes.skip(prefix.len() as int) =~= chord);
    assert(chord.skip(chord.len() as int) =~= none);
    assert(chord.take(chord.len() as int) =~= chord);
    assert(routed_chords(keymap, false, none, none) == (Seq::<ChordView>::empty(), false));
    assert(routed_chords(keymap, true, none, chord).0 =~= seq![prefixed_chord(keymap, key, chord)]);
    assert(routed_chords(keymap, false, none, bytes).0 =~= seq![
        ChordView::Pending,
        prefixed_chord(keymap, key, chord),
    ]);
}

/// The prefix pressed twice is typed once, where nothing is bound to it.
pub proof fn the_prefix_twice_is_typed_once(
    state: LiveView,
    keymap: Keymap,
    prefix: Seq<u8>,
    edges: Edges,
    now: Instant,
)
    requires
        state.overlay is None,
        prefix.len() > 0,
        chord_at(prefix + prefix) == Some((keymap.prefix, prefix.len())),
        chord_at(prefix) == Some((keymap.prefix, prefix.len())),
        bound(keymap.bindings@, keymap.prefix) is None,
    ensures
        typed(state, keymap, false, prefix + prefix, edges, now) == (
            LiveView { resize: None, ..state },
            false,
            RoutedView {
                send: seq![ClientMessageView::Input(prefix)],
                outcome: RouteOutcomeView::Continue,
                chrome: None,
            },
        ),
{
    a_prefixed_chord_routes(keymap, prefix, prefix, keymap.prefix);
    let routes = seq![ChordView::Pending, ChordView::Pane(prefix)];
    let still = LiveView { resize: None, ..state };
    let rest = routes.drop_first();
    assert(rest =~= seq![ChordView::Pane(prefix)]);
    assert(rest.drop_first() =~= seq![]);
    reveal_with_fuel(followed, 3);
    assert(followed(still, keymap, rest.drop_first(), edges, now) == (still, sending(seq![])));
    assert(seq![ClientMessageView::Input(prefix)] + Seq::<ClientMessageView>::empty() =~= seq![
        ClientMessageView::Input(prefix),
    ]);
}

/// The prefix alone sends nothing and waits for its chord.
pub proof fn the_prefix_waits_for_its_chord(
    state: LiveView,
    keymap: Keymap,
    prefix: Seq<u8>,
    edges: Edges,
    now: Instant,
)
    requires
        state.overlay is None,
        prefix.len() > 0,
        chord_at(prefix) == Some((keymap.prefix, prefix.len())),
    ensures
        typed(state, keymap, false, prefix, edges, now) == (
            LiveView { resize: None, ..state },
            true,
            RoutedView { send: seq![], outcome: RouteOutcomeView::Continue, chrome: None },
        ),
{
    let none = Seq::<u8>::empty();
    assert(prefix.skip(prefix.len() as int) =~= none);
    assert(routed_chords(keymap, true, none, none) == (Seq::<ChordView>::empty(), true));
    assert(routed_chords(keymap, false, none, prefix).0 =~= seq![ChordView::Pending]);
    let routes = seq![ChordView::Pending];
    assert(routes.drop_first() =~= seq![]);
    let still = LiveView { resize: None, ..state };
    assert(followed(still, keymap, routes.drop_first(), edges, now) == (still, sending(seq![])));
}

/// A chord behind the prefix that is neither bound nor an arrow is consumed: it
/// sends nothing, and does no more than open the surface it stands for.
pub proof fn an_unbound_chord_is_consumed(
    state: LiveView,
    keymap: Keymap,
    prefix: Seq<u8>,
    chord: Seq<u8>,
    key: Key,
    edges: Edges,
    now: Instant,
)
    requires
        state.overlay is None,
        chord.len() > 0,
        prefix.len() > 0,
        chord_at(prefix + chord) == Some((keymap.prefix, prefix.len())),
        chord_at(chord) == Some((key, chord.len())),
        bound(keymap.bindings@, key) is None,
        key != keymap.prefix,
        cursor_letter(key.code) is None || key.code == KeyCode::Home || key.code == KeyCode::End,
    ensures
        ({
            let still = LiveView { resize: None, ..state };
            let (next, pending, routed) = typed(state, keymap, false, prefix + chord, edges, now);
            &&& !pending
            &&& routed == (RoutedView {
                send: seq![],
                outcome: RouteOutcomeView::Continue,
                chrome: None,
            })
            &&& next == (LiveView { overlay: next.overlay, ..still })
            &&& next.overlay == match still.opening(chord, keymap) {
                Some(kind) => Some(crate::overlay::opened(kind)),
                None => None,
            }
        }),
{
    a_prefixed_chord_routes(keymap, prefix, chord, key);
    let routes = seq![ChordView::Pending, ChordView::Unbound(chord)];
    let still = LiveView { resize: None, ..state };
    let rest = routes.drop_first();
    assert(rest =~= seq![ChordView::Unbound(chord)]);
    assert(rest.drop_first() =~= seq![]);
    reveal_with_fuel(followed, 3);
}

/// A key held with a modifier asks nothing of the palette, but for the one that
/// clears the query; without one, a character is text and only keys that are none
/// do anything else.
pub proof fn a_modified_key_is_no_text(key: Key)
    ensures
        (key.mods.shift || key.mods.alt || key.mods.ctrl) && !(key.code == KeyCode::Char('u')
            && key.mods.ctrl && !key.mods.shift && !key.mods.alt) ==> palette_action_of(
            key,
        ) is None,
        !key.mods.shift && !key.mods.alt && !key.mods.ctrl ==> match palette_action_of(key) {
            Some(PaletteAction::Insert(ch)) => key.code == KeyCode::Char(ch),
            Some(PaletteAction::Backspace) => key.code == KeyCode::Backspace,
            Some(PaletteAction::Prev) => key.code == KeyCode::Up,
            Some(PaletteAction::Next) => key.code == KeyCode::Down,
            Some(PaletteAction::First) => key.code == KeyCode::Home,
            Some(PaletteAction::Last) => key.code == KeyCode::End,
            Some(PaletteAction::Confirm) => key.code == KeyCode::Enter,
            Some(PaletteAction::Dismiss) => key.code == KeyCode::Escape,
            Some(PaletteAction::Clear) => false,
            None => true,
        },
        !key.mods.shift && !key.mods.alt && !key.mods.ctrl && key.code is Char
            ==> palette_action_of(key) is Some,
        key.code == KeyCode::Char('u') && key.mods.ctrl && !key.mods.shift && !key.mods.alt
            ==> palette_action_of(key) == Some(PaletteAction::Clear),
{
}

} // verus!
