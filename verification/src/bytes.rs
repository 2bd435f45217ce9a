//! Searching runs of bytes for a fixed sequence.

use vstd::prelude::*;

verus! {

/// Whether `sequence` stands in `bytes` from position `at`.
pub open spec fn stands_at(bytes: Seq<u8>, sequence: Seq<u8>, at: int) -> bool {
    &&& 0 <= at
    &&& at + sequence.len() <= bytes.len()
    &&& bytes.subrange(at, at + sequence.len()) == sequence
}

/// Whether `bytes` opens with `sequence`.
pub open spec fn opens_with(bytes: Seq<u8>, sequence: Seq<u8>) -> bool {
    bytes.len() >= sequence.len() && bytes.take(sequence.len() as int) == sequence
}

/// Where `sequence` first stands in `bytes`.
pub open spec fn first_at(bytes: Seq<u8>, sequence: Seq<u8>) -> Option<nat>
    decreases bytes.len(),
{
    if bytes.len() < sequence.len() || sequence.len() == 0 {
        None
    } else if opens_with(bytes, sequence) {
        Some(0)
    } else {
        match first_at(bytes.drop_first(), sequence) {
            Some(at) => Some(at + 1),
            None => None,
        }
    }
}

/// Whether the last `len` bytes of `bytes` could still become `sequence`.
pub open spec fn could_become(bytes: Seq<u8>, sequence: Seq<u8>, len: nat) -> bool {
    &&& 0 < len < sequence.len()
    &&& len <= bytes.len()
    &&& bytes.skip(bytes.len() - len) == sequence.take(len as int)
}

/// The longest such suffix no longer than `most`, or zero.
pub open spec fn longest_held(bytes: Seq<u8>, sequence: Seq<u8>, most: nat) -> nat
    decreases most,
{
    if most == 0 {
        0
    } else if could_become(bytes, sequence, most) {
        most
    } else {
        longest_held(bytes, sequence, (most - 1) as nat)
    }
}

/// How many bytes at the end of `bytes` could still become `sequence`.
pub open spec fn held(bytes: Seq<u8>, sequence: Seq<u8>) -> nat {
    longest_held(bytes, sequence, (sequence.len() - 1) as nat)
}

/// Whether `bytes` opens with `sequence`.
pub fn starts_with(bytes: &[u8], sequence: &[u8]) -> (starts: bool)
    ensures
        starts == opens_with(bytes@, sequence@),
{
    if bytes.len() < sequence.len() {
        return false;
    }
    for i in 0..sequence.len()
        invariant
            sequence.len() <= bytes.len(),
            bytes@.take(i as int) == sequence@.take(i as int),
    {
        if bytes[i] != sequence[i] {
            assert(bytes@.take(sequence@.len() as int)[i as int] != sequence@[i as int]);
            return false;
        }
        assert(bytes@.take(i + 1) == bytes@.take(i as int).push(bytes@[i as int]));
        assert(sequence@.take(i + 1) == sequence@.take(i as int).push(sequence@[i as int]));
    }
    assert(sequence@.take(sequence@.len() as int) == sequence@);
    true
}

/// Finds `needle` in `haystack` from `from` on.
pub fn find(haystack: &[u8], from: usize, needle: &[u8]) -> (at: Option<usize>)
    requires
        from <= haystack.len(),
        needle.len() > 0,
    ensures
        at is Some <==> first_at(haystack@.skip(from as int), needle@) is Some,
        at matches Some(k) ==> first_at(haystack@.skip(from as int), needle@) == Some(k as nat) && from
            + k + needle.len() <= haystack.len(),
{
    let mut index: usize = from;
    while haystack.len() - index >= needle.len()
        invariant
            from <= index <= haystack.len(),
            needle.len() > 0,
            first_at(haystack@.skip(from as int), needle@) == (match first_at(
                haystack@.skip(index as int),
                needle@,
            ) {
                Some(at) => Some((at + (index - from)) as nat),
                None => None,
            }),
        decreases haystack.len() - index,
    {
        let tail = vstd::slice::slice_subrange(haystack, index, haystack.len());
        assert(tail@ == haystack@.skip(index as int));
        if starts_with(tail, needle) {
            return Some(index - from);
        }
        assert(haystack@.skip(index as int).drop_first() == haystack@.skip(index + 1));
        index = index + 1;
    }
    None
}

/// How many bytes at the end of `haystack`, from `from` on, could still become
/// `needle`.
pub fn partial_suffix(haystack: &[u8], from: usize, needle: &[u8]) -> (len: usize)
    requires
        from <= haystack.len(),
        needle.len() > 0,
    ensures
        len == held(haystack@.skip(from as int), needle@),
        len <= haystack.len() - from,
{
    let ghost bytes = haystack@.skip(from as int);
    let mut most: usize = needle.len() - 1;
    while most > 0
        invariant
            from <= haystack.len(),
            most < needle.len(),
            bytes == haystack@.skip(from as int),
            held(bytes, needle@) == longest_held(bytes, needle@, most as nat),
        decreases most,
    {
        if most <= haystack.len() - from {
            let tail = vstd::slice::slice_subrange(haystack, haystack.len() - most, haystack.len());
            assert(tail@ == bytes.skip(bytes.len() - most));
            if starts_with(needle, tail) {
                return most;
            }
        }
        most = most - 1;
    }
    0
}

/// What [`first_at`] finds stands there, and nothing earlier does.
pub proof fn first_at_is_first(bytes: Seq<u8>, sequence: Seq<u8>)
    requires
        sequence.len() > 0,
    ensures
        first_at(bytes, sequence) matches Some(at) ==> stands_at(bytes, sequence, at as int) && (
        forall|k: int| 0 <= k < at ==> !stands_at(bytes, sequence, k)),
        first_at(bytes, sequence) is None ==> forall|k: int| !stands_at(bytes, sequence, k),
    decreases bytes.len(),
{
    if bytes.len() >= sequence.len() {
        let rest = bytes.drop_first();
        assert(bytes.take(sequence.len() as int) == bytes.subrange(0, sequence.len() as int));
        if !opens_with(bytes, sequence) {
            first_at_is_first(rest, sequence);
            assert forall|k: int| #[trigger] stands_at(bytes, sequence, k) implies k >= 1
                && stands_at(rest, sequence, k - 1) by {
                if k == 0 {
                    assert(opens_with(bytes, sequence));
                }
                assert(rest.subrange(k - 1, k - 1 + sequence.len()) == bytes.subrange(
                    k,
                    k + sequence.len(),
                ));
            }
            if let Some(at) = first_at(rest, sequence) {
                let k = at as int;
                assert(rest.subrange(k, k + sequence.len()) == bytes.subrange(
                    k + 1,
                    k + 1 + sequence.len(),
                ));
                assert forall|j: int| 0 <= j < k + 1 implies !stands_at(bytes, sequence, j) by {
                    if stands_at(bytes, sequence, j) {
                        assert(stands_at(rest, sequence, j - 1));
                    }
                }
            }
        }
    }
}

/// An occurrence with nothing earlier is what [`first_at`] finds.
pub proof fn first_at_finds(bytes: Seq<u8>, sequence: Seq<u8>, at: nat)
    requires
        sequence.len() > 0,
        stands_at(bytes, sequence, at as int),
        forall|k: int| 0 <= k < at ==> !stands_at(bytes, sequence, k),
    ensures
        first_at(bytes, sequence) == Some(at),
{
    first_at_is_first(bytes, sequence);
    let found = first_at(bytes, sequence);
    if found is Some {
        let k = found->0;
        if k < at {
            assert(stands_at(bytes, sequence, k as int));
        }
        if at < k {
            assert(!stands_at(bytes, sequence, at as int));
        }
    }
}

/// Skipping bytes in which nothing starts only shifts what is found.
pub proof fn first_at_after_skip(bytes: Seq<u8>, sequence: Seq<u8>, skipped: nat)
    requires
        sequence.len() > 0,
        skipped <= bytes.len(),
        forall|k: int| 0 <= k < skipped ==> !stands_at(bytes, sequence, k),
    ensures
        first_at(bytes, sequence) == (match first_at(bytes.skip(skipped as int), sequence) {
            Some(at) => Some(at + skipped),
            None => None,
        }),
    decreases skipped,
{
    if skipped == 0 {
        assert(bytes.skip(0) == bytes);
    } else {
        let rest = bytes.drop_first();
        assert(!stands_at(bytes, sequence, 0));
        assert(bytes.len() >= sequence.len() ==> bytes.take(sequence.len() as int)
            == bytes.subrange(0, sequence.len() as int));
        assert forall|k: int| 0 <= k < skipped - 1 implies !stands_at(rest, sequence, k) by {
            assert(!stands_at(bytes, sequence, k + 1));
            if stands_at(rest, sequence, k) {
                assert(rest.subrange(k, k + sequence.len()) == bytes.subrange(
                    k + 1,
                    k + 1 + sequence.len(),
                ));
            }
        }
        first_at_after_skip(rest, sequence, (skipped - 1) as nat);
        assert(rest.skip(skipped - 1) == bytes.skip(skipped as int));
        if bytes.len() < sequence.len() {
            first_at_is_first(bytes.skip(skipped as int), sequence);
        }
    }
}

/// [`held`] is one such suffix, or zero, and none is longer.
pub proof fn held_is_longest(bytes: Seq<u8>, sequence: Seq<u8>)
    requires
        sequence.len() > 0,
    ensures
        held(bytes, sequence) > 0 ==> could_become(bytes, sequence, held(bytes, sequence)),
        forall|len: nat| could_become(bytes, sequence, len) ==> len <= held(bytes, sequence),
        held(bytes, sequence) <= bytes.len(),
        held(bytes, sequence) < sequence.len(),
{
    longest_held_is_longest(bytes, sequence, (sequence.len() - 1) as nat);
}

/// Where nothing stands in `bytes`, nothing starts before what it holds even
/// once more bytes follow.
pub proof fn starts_after_content(bytes: Seq<u8>, more: Seq<u8>, sequence: Seq<u8>, at: int)
    requires
        sequence.len() > 0,
        0 <= at < bytes.len() - held(bytes, sequence),
        first_at(bytes, sequence) is None,
    ensures
        !stands_at(bytes + more, sequence, at),
{
    let longer = bytes + more;
    let n = sequence.len() as int;
    first_at_is_first(bytes, sequence);
    held_is_longest(bytes, sequence);
    if stands_at(longer, sequence, at) {
        if at + n <= bytes.len() {
            assert(longer.subrange(at, at + n) =~= bytes.subrange(at, at + n));
            assert(stands_at(bytes, sequence, at));
        } else {
            let len = (bytes.len() - at) as nat;
            assert(bytes.skip(at) =~= longer.subrange(at, at + n).take(len as int));
            assert(could_become(bytes, sequence, len));
        }
    }
}

/// What is held is the same with or without the bytes before what was held.
pub proof fn held_after_content(bytes: Seq<u8>, more: Seq<u8>, sequence: Seq<u8>)
    requires
        sequence.len() > 0,
    ensures
        held(bytes + more, sequence) == held(
            bytes.skip(bytes.len() - held(bytes, sequence)) + more,
            sequence,
        ),
{
    let longer = bytes + more;
    let kept = held(bytes, sequence);
    held_is_longest(bytes, sequence);
    let tail = bytes.skip(bytes.len() - kept) + more;
    let a = held(longer, sequence);
    let b = held(tail, sequence);
    held_is_longest(longer, sequence);
    held_is_longest(tail, sequence);
    if b > 0 {
        assert(longer.skip(longer.len() - b) =~= tail.skip(tail.len() - b));
        assert(could_become(longer, sequence, b));
    }
    if a > 0 {
        if a <= tail.len() {
            assert(longer.skip(longer.len() - a) =~= tail.skip(tail.len() - a));
            assert(could_become(tail, sequence, a));
        } else {
            let len = (a - more.len()) as nat;
            let from = longer.len() - a;
            assert(bytes.skip(bytes.len() - len) =~= longer.skip(from).take(len as int));
            assert(sequence.take(a as int).take(len as int) =~= sequence.take(len as int));
            assert(could_become(bytes, sequence, len));
        }
    }
}

proof fn longest_held_is_longest(bytes: Seq<u8>, sequence: Seq<u8>, most: nat)
    requires
        most < sequence.len(),
    ensures
        longest_held(bytes, sequence, most) > 0 ==> could_become(
            bytes,
            sequence,
            longest_held(bytes, sequence, most),
        ),
        forall|len: nat|
            len <= most && could_become(bytes, sequence, len) ==> len <= longest_held(
                bytes,
                sequence,
                most,
            ),
        longest_held(bytes, sequence, most) <= bytes.len(),
        longest_held(bytes, sequence, most) <= most,
    decreases most,
{
    if most > 0 && !could_become(bytes, sequence, most) {
        longest_held_is_longest(bytes, sequence, (most - 1) as nat);
    }
}

/// Whether bytes are a number in decimal.
pub open spec fn is_number(digits: Seq<u8>) -> bool {
    &&& digits.len() > 0
    &&& forall|i: int| 0 <= i < digits.len() ==> 0x30 <= #[trigger] digits[i] <= 0x39
}

/// The number that digits written behind `value` make.
pub open spec fn number_from(value: nat, digits: Seq<u8>) -> nat
    decreases digits.len(),
{
    if digits.len() == 0 {
        value
    } else {
        number_from((value * 10 + (digits[0] - 0x30)) as nat, digits.drop_first())
    }
}

/// The number that digits make.
pub open spec fn number_of(digits: Seq<u8>) -> nat {
    number_from(0, digits)
}

/// More digits make a number no smaller.
pub proof fn digits_only_add(value: nat, digits: Seq<u8>)
    requires
        forall|i: int| 0 <= i < digits.len() ==> 0x30 <= #[trigger] digits[i] <= 0x39,
    ensures
        number_from(value, digits) >= value,
    decreases digits.len(),
{
    if digits.len() > 0 {
        let rest = digits.drop_first();
        assert forall|i: int| 0 <= i < rest.len() implies 0x30 <= #[trigger] rest[i] <= 0x39 by {
            assert(rest[i] == digits[i + 1]);
        }
        digits_only_add((value * 10 + (digits[0] - 0x30)) as nat, rest);
    }
}

} // verus!
