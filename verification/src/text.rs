//! Text as sequences of characters: comparison, search, and number forms.

use vstd::prelude::*;

verus! {

/// Appends one character. Contract for `String::push`, which appends the given
/// character to the end of the string.
pub assume_specification[ String::push ](text: &mut String, ch: char)
    ensures
        final(text)@ == old(text)@.push(ch),
;

/// The characters of `text`, in order.
pub fn chars_of(text: &str) -> (chars: Vec<char>)
    ensures
        chars@ == text@,
{
    let mut chars: Vec<char> = Vec::new();
    for ch in it: text.chars()
        invariant
            it.seq() == text@,
            chars@ == text@.take(it.index() as int),
    {
        chars.push(ch);
    }
    assert(text@.take(text@.len() as int) == text@);
    chars
}

/// Appends `more` to `chars`.
pub fn push_all(chars: &mut Vec<char>, more: &[char])
    ensures
        final(chars)@ == old(chars)@ + more@,
{
    for i in 0..more.len()
        invariant
            chars@ == old(chars)@ + more@.take(i as int),
    {
        chars.push(more[i]);
        assert(more@.take(i + 1) =~= more@.take(i as int).push(more@[i as int]));
    }
    assert(more@.take(more@.len() as int) =~= more@);
}

/// The string holding exactly `chars`.
pub fn string_of(chars: &[char]) -> (text: String)
    ensures
        text@ == chars@,
{
    let mut text: String = String::new();
    for i in 0..chars.len()
        invariant
            text@ == chars@.take(i as int),
    {
        text.push(chars[i]);
        assert(chars@.take(i as int).push(chars@[i as int]) == chars@.take(i + 1));
    }
    assert(chars@.take(chars@.len() as int) == chars@);
    text
}

/// Whether two texts hold the same characters.
pub fn same_text(a: &str, b: &str) -> (same: bool)
    ensures
        same == (a@ == b@),
{
    let left = chars_of(a);
    let right = chars_of(b);
    if left.len() != right.len() {
        return false;
    }
    for i in 0..left.len()
        invariant
            left@ == a@,
            right@ == b@,
            left.len() == right.len(),
            left@.take(i as int) == right@.take(i as int),
    {
        if left[i] != right[i] {
            return false;
        }
        assert(left@.take(i + 1) == left@.take(i as int).push(left@[i as int]));
        assert(right@.take(i + 1) == right@.take(i as int).push(right@[i as int]));
    }
    assert(left@.take(left@.len() as int) == left@);
    assert(right@.take(right@.len() as int) == right@);
    true
}

/// `ch` with an ASCII capital letter made small.
pub open spec fn ascii_lower(ch: char) -> char {
    if 'A' <= ch && ch <= 'Z' {
        (ch as u32 + 32) as char
    } else {
        ch
    }
}

/// Whether two texts differ at most in the case of ASCII letters.
pub open spec fn same_ignoring_case(a: Seq<char>, b: Seq<char>) -> bool {
    a.map_values(|ch: char| ascii_lower(ch)) == b.map_values(|ch: char| ascii_lower(ch))
}

fn to_ascii_lower(ch: char) -> (low: char)
    ensures
        low == ascii_lower(ch),
{
    if 'A' <= ch && ch <= 'Z' {
        ((ch as u8) + 32) as char
    } else {
        ch
    }
}

/// Compares two texts without regard to the case of ASCII letters.
pub fn eq_ignoring_case(a: &str, b: &str) -> (same: bool)
    ensures
        same == same_ignoring_case(a@, b@),
{
    let left = chars_of(a);
    let right = chars_of(b);
    let ghost low_a = a@.map_values(|ch: char| ascii_lower(ch));
    let ghost low_b = b@.map_values(|ch: char| ascii_lower(ch));
    if left.len() != right.len() {
        assert(low_a.len() != low_b.len());
        return false;
    }
    for i in 0..left.len()
        invariant
            left@ == a@,
            right@ == b@,
            low_a == a@.map_values(|ch: char| ascii_lower(ch)),
            low_b == b@.map_values(|ch: char| ascii_lower(ch)),
            left.len() == right.len(),
            forall|k: int| 0 <= k < i ==> low_a[k] == low_b[k],
    {
        if to_ascii_lower(left[i]) != to_ascii_lower(right[i]) {
            assert(low_a[i as int] != low_b[i as int]);
            return false;
        }
    }
    assert(low_a == low_b);
    true
}

/// Whether `needle` stands in `haystack` from position `at`.
pub open spec fn occurs_at(haystack: Seq<char>, needle: Seq<char>, at: int) -> bool {
    &&& 0 <= at
    &&& at + needle.len() <= haystack.len()
    &&& haystack.subrange(at, at + needle.len()) == needle
}

/// Whether `needle` stands anywhere in `haystack`.
pub open spec fn occurs(haystack: Seq<char>, needle: Seq<char>) -> bool {
    exists|at: int| occurs_at(haystack, needle, at)
}

/// Searches `haystack` for `needle`.
pub fn contains_chars(haystack: &[char], needle: &[char]) -> (found: bool)
    ensures
        found == occurs(haystack@, needle@),
{
    if needle.len() > haystack.len() {
        return false;
    }
    let last: usize = haystack.len() - needle.len();
    let mut at: usize = 0;
    while at <= last
        invariant
            last == haystack.len() - needle.len(),
            at <= last + 1,
            forall|k: int| 0 <= k < at ==> !occurs_at(haystack@, needle@, k),
        decreases last + 1 - at,
    {
        let mut same: usize = 0;
        while same < needle.len() && haystack[at + same] == needle[same]
            invariant
                at <= last,
                last == haystack.len() - needle.len(),
                same <= needle.len(),
                haystack@.subrange(at as int, at + same) == needle@.take(same as int),
            decreases needle.len() - same,
        {
            same = same + 1;
            assert(haystack@.subrange(at as int, at + same) == haystack@.subrange(
                at as int,
                at + same - 1,
            ).push(haystack@[at + same - 1]));
            assert(needle@.take(same as int) == needle@.take(same - 1).push(needle@[same - 1]));
        }
        if same == needle.len() {
            assert(needle@.take(same as int) == needle@);
            assert(occurs_at(haystack@, needle@, at as int));
            return true;
        }
        assert(haystack@.subrange(at as int, at + needle.len())[same as int] != needle@[same as int]);
        if at == last {
            assert forall|k: int| !occurs_at(haystack@, needle@, k) by {
                assert(!occurs_at(haystack@, needle@, at as int));
            }
            return false;
        }
        at = at + 1;
    }
    false
}

/// Searches `haystack` for `needle`.
pub fn contains_text(haystack: &str, needle: &str) -> (found: bool)
    ensures
        found == occurs(haystack@, needle@),
{
    let hay = chars_of(haystack);
    let pin = chars_of(needle);
    contains_chars(hay.as_slice(), pin.as_slice())
}

/// Whether `ch` is a control character: the C0 range, delete, or the C1 range.
pub open spec fn is_control(ch: char) -> bool {
    ch as u32 <= 0x1f || 0x7f <= ch as u32 <= 0x9f
}

/// Whether `text` holds no control character.
pub open spec fn is_plain(text: Seq<char>) -> bool {
    forall|i: int| 0 <= i < text.len() ==> !is_control(#[trigger] text[i])
}

/// Whether `text` can stand between escape-sequence delimiters as it is.
pub fn plain_text(text: &str) -> (plain: bool)
    ensures
        plain == is_plain(text@),
{
    let chars = chars_of(text);
    for i in 0..chars.len()
        invariant
            chars@ == text@,
            forall|k: int| 0 <= k < i ==> !is_control(#[trigger] text@[k]),
    {
        let code: u32 = chars[i] as u32;
        if code <= 0x1f || (0x7f <= code && code <= 0x9f) {
            assert(is_control(text@[i as int]));
            return false;
        }
    }
    true
}

/// The decimal digit for `value`.
pub open spec fn digit(value: int) -> char {
    (value + '0' as int) as char
}

/// `value` written in decimal, without leading zeros.
pub open spec fn decimal(value: nat) -> Seq<char>
    decreases value,
{
    if value < 10 {
        seq![digit(value as int)]
    } else {
        decimal(value / 10).push(digit((value % 10) as int))
    }
}

/// Writes `value` in decimal.
pub fn decimal_chars(value: u64) -> (chars: Vec<char>)
    ensures
        chars@ == decimal(value as nat),
    decreases value,
{
    let low: char = ((value % 10) as u8 + 48) as char;
    if value < 10 {
        let mut chars: Vec<char> = Vec::new();
        chars.push(low);
        chars
    } else {
        let mut chars = decimal_chars(value / 10);
        chars.push(low);
        chars
    }
}

/// The number decimal digits stand for.
pub open spec fn read_decimal(text: Seq<char>) -> int
    decreases text.len(),
{
    if text.len() == 0 {
        0
    } else {
        read_decimal(text.drop_last()) * 10 + (text.last() as u32 - 48)
    }
}

/// A number is written in digits, with no zero in front, so that reading it gives
/// the number back.
pub proof fn a_decimal_reads_back(value: nat)
    ensures
        decimal(value).len() > 0,
        read_decimal(decimal(value)) == value,
        forall|i: int| 0 <= i < decimal(value).len() ==> '0' <= #[trigger] decimal(value)[i] <= '9',
        value > 0 ==> decimal(value)[0] != '0',
        value < 10 ==> decimal(value).len() == 1,
    decreases value,
{
    let text = decimal(value);
    if value >= 10 {
        a_decimal_reads_back(value / 10);
        let front = decimal(value / 10);
        assert(text.drop_last() =~= front);
        assert(text.last() == digit((value % 10) as int));
        assert forall|i: int| 0 <= i < text.len() implies '0' <= #[trigger] text[i] <= '9' by {
            if i < front.len() {
                assert(text[i] == front[i]);
            }
        }
    } else {
        assert(text.drop_last() =~= seq![]);
        assert(read_decimal(text.drop_last()) == 0);
    }
}

/// Comparing without regard to case treats a capital and its small letter alike
/// and nothing else.
pub proof fn case_is_all_that_is_ignored(a: Seq<char>, b: Seq<char>)
    ensures
        same_ignoring_case(a, b) <==> a.len() == b.len() && forall|i: int|
            0 <= i < a.len() ==> same_letter(#[trigger] a[i], b[i]),
{
    let low_a = a.map_values(|ch: char| ascii_lower(ch));
    let low_b = b.map_values(|ch: char| ascii_lower(ch));
    if low_a == low_b {
        assert(low_a.len() == a.len());
        assert(low_b.len() == b.len());
        assert forall|i: int| 0 <= i < a.len() implies same_letter(#[trigger] a[i], b[i]) by {
            assert(low_a[i] == low_b[i]);
        }
    } else if a.len() == b.len() && (forall|i: int|
        0 <= i < a.len() ==> same_letter(#[trigger] a[i], b[i])) {
        assert forall|i: int| 0 <= i < a.len() implies low_a[i] == low_b[i] by {
            assert(same_letter(a[i], b[i]));
        }
        assert(low_a =~= low_b);
    }
}

/// Whether two characters are the same but for the case of an ASCII letter.
pub open spec fn same_letter(a: char, b: char) -> bool {
    ||| a == b
    ||| 'A' <= a <= 'Z' && b as u32 == a as u32 + 32
    ||| 'A' <= b <= 'Z' && a as u32 == b as u32 + 32
}

} // verus!
