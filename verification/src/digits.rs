//! Numbers written out in base 256, one byte per digit.
use crate::order::ByteOrder;
use vstd::prelude::*;

verus! {

/// 256 to the power `n`: the number of values that `n` bytes can spell.
pub open spec fn pow256(n: nat) -> nat
    decreases n,
{
    if n == 0 {
        1
    } else {
        256 * pow256((n - 1) as nat)
    }
}

/// The number that `bytes` spell when the least significant byte comes first.
pub open spec fn le_value(bytes: Seq<u8>) -> nat
    decreases bytes.len(),
{
    if bytes.len() == 0 {
        0
    } else {
        bytes[0] as nat + 256 * le_value(bytes.drop_first())
    }
}

/// The lowest `width` base-256 digits of `value`, least significant first.
pub open spec fn le_digits(value: nat, width: nat) -> Seq<u8>
    decreases width,
{
    if width == 0 {
        Seq::empty()
    } else {
        seq![(value % 256) as u8] + le_digits(value / 256, (width - 1) as nat)
    }
}

/// `bytes` listed from the least significant one, when they lie in memory in
/// the given order; and the other way round, since listing backwards twice
/// changes nothing.
pub open spec fn arrange(bytes: Seq<u8>, order: ByteOrder) -> Seq<u8> {
    match order {
        ByteOrder::Little => bytes,
        ByteOrder::Big => bytes.reverse(),
    }
}

/// The number that `bytes` spell when they lie in memory in the given order.
pub open spec fn number(bytes: Seq<u8>, order: ByteOrder) -> nat {
    le_value(arrange(bytes, order))
}

/// The lowest `width` base-256 digits of `value` as they lie in memory in the
/// given order.
pub open spec fn digits(value: nat, width: nat, order: ByteOrder) -> Seq<u8> {
    arrange(le_digits(value, width), order)
}

/// The powers of 256 that bound the integers of two, four, eight and sixteen bytes.
pub proof fn lemma_pow256_values()
    ensures
        pow256(2) == 0x1_0000,
        pow256(4) == 0x1_0000_0000,
        pow256(8) == 0x1_0000_0000_0000_0000,
        pow256(16) == 0x1_0000_0000_0000_0000_0000_0000_0000_0000,
{
    reveal_with_fuel(pow256, 17);
}

/// A larger exponent does not give a smaller power.
pub proof fn lemma_pow256_grows(a: nat, b: nat)
    requires
        a <= b,
    ensures
        0 < pow256(a) <= pow256(b),
    decreases b,
{
    if b == 0 {
    } else if a < b {
        lemma_pow256_grows(a, (b - 1) as nat);
    } else {
        lemma_pow256_grows((a - 1) as nat, (b - 1) as nat);
    }
}

/// `le_digits` gives as many digits as it is asked for.
pub proof fn lemma_le_digits_len(value: nat, width: nat)
    ensures
        le_digits(value, width).len() == width,
    decreases width,
{
    if width > 0 {
        lemma_le_digits_len(value / 256, (width - 1) as nat);
    }
}

/// `n` bytes spell a number below 256 to the power `n`.
pub proof fn lemma_le_value_bound(bytes: Seq<u8>)
    ensures
        le_value(bytes) < pow256(bytes.len()),
    decreases bytes.len(),
{
    if bytes.len() > 0 {
        lemma_le_value_bound(bytes.drop_first());
    }
}

/// The digits of a number that fits in `width` bytes spell that number.
pub proof fn lemma_le_value_of_digits(value: nat, width: nat)
    requires
        value < pow256(width),
    ensures
        le_value(le_digits(value, width)) == value,
    decreases width,
{
    if width > 0 {
        let rest = le_digits(value / 256, (width - 1) as nat);
        lemma_le_value_of_digits(value / 256, (width - 1) as nat);
        assert(le_digits(value, width).drop_first() =~= rest);
    }
}

/// The digits of the number that `bytes` spell are `bytes`.
pub proof fn lemma_le_digits_of_value(bytes: Seq<u8>)
    ensures
        le_digits(le_value(bytes), bytes.len()) == bytes,
    decreases bytes.len(),
{
    if bytes.len() > 0 {
        let tail = bytes.drop_first();
        lemma_le_digits_of_value(tail);
        let value = le_value(bytes);
        assert(value % 256 == bytes[0] && value / 256 == le_value(tail));
        assert(le_digits(value, bytes.len()) =~= bytes);
    }
}

/// Listing bytes the other way round twice gives them back.
pub proof fn lemma_arrange_twice(bytes: Seq<u8>, order: ByteOrder)
    ensures
        arrange(arrange(bytes, order), order) == bytes,
        arrange(bytes, order).len() == bytes.len(),
{
    assert(arrange(arrange(bytes, order), order) =~= bytes);
}

/// In either order, the digits of a number that fits in `width` bytes spell
/// that number, and there are `width` of them.
pub proof fn lemma_number_of_digits(value: nat, width: nat, order: ByteOrder)
    requires
        value < pow256(width),
    ensures
        digits(value, width, order).len() == width,
        number(digits(value, width, order), order) == value,
{
    lemma_le_digits_len(value, width);
    lemma_le_value_of_digits(value, width);
    lemma_arrange_twice(le_digits(value, width), order);
}

/// In either order, the digits of the number that `bytes` spell are `bytes`,
/// and the number fits in as many bytes.
pub proof fn lemma_digits_of_number(bytes: Seq<u8>, order: ByteOrder)
    ensures
        number(bytes, order) < pow256(bytes.len()),
        digits(number(bytes, order), bytes.len(), order) == bytes,
{
    let listed = arrange(bytes, order);
    lemma_arrange_twice(bytes, order);
    lemma_le_value_bound(listed);
    lemma_le_digits_of_value(listed);
}

/// Two, four, eight and sixteen bytes spell numbers that a `u16`, a `u32`, a
/// `u64` and a `u128` can take.
pub proof fn lemma_number_fits(bytes: Seq<u8>, order: ByteOrder)
    ensures
        bytes.len() == 2 ==> number(bytes, order) <= u16::MAX,
        bytes.len() == 4 ==> number(bytes, order) <= u32::MAX,
        bytes.len() == 8 ==> number(bytes, order) <= u64::MAX,
        bytes.len() == 16 ==> number(bytes, order) <= u128::MAX,
{
    lemma_pow256_values();
    lemma_digits_of_number(bytes, order);
}

/// Writes the lowest `W` base-256 digits of `value` in the given order.
pub fn to_digits<const W: usize>(value: u128, order: ByteOrder) -> (bytes: [u8; W])
    ensures
        bytes@ == digits(value as nat, W as nat, order),
{
    let mut bytes = [0u8; W];
    let mut rest: u128 = value;
    let mut k: usize = 0;
    let ghost mut done: Seq<u8> = Seq::empty();
    while k < W
        invariant
            k <= W,
            done.len() == k,
            le_digits(value as nat, W as nat) == done + le_digits(rest as nat, (W - k) as nat),
            forall|j: int|
                0 <= j < k ==> bytes@[match order {
                    ByteOrder::Little => j,
                    ByteOrder::Big => W - 1 - j,
                }] == done[j],
        decreases W - k,
    {
        let at: usize = match order {
            ByteOrder::Little => k,
            ByteOrder::Big => W - 1 - k,
        };
        let digit: u8 = (rest % 256) as u8;
        bytes[at] = digit;
        proof {
            let tail = le_digits((rest / 256) as nat, (W - k - 1) as nat);
            assert(done.push(digit) + tail =~= done + (seq![digit] + tail));
            done = done.push(digit);
        }
        rest = rest / 256;
        k += 1;
    }
    proof {
        assert(le_digits(value as nat, W as nat) =~= done);
        assert(bytes@ =~= arrange(done, order));
    }
    bytes
}

/// Reads the number that `bytes` spell in the given order.
pub fn from_digits<const W: usize>(bytes: &[u8; W], order: ByteOrder) -> (value: u128)
    requires
        W <= 16,
    ensures
        value == number(bytes@, order),
{
    let ghost listed = arrange(bytes@, order);
    let mut value: u128 = 0;
    let mut k: usize = W;
    while k > 0
        invariant
            k <= W <= 16,
            listed == arrange(bytes@, order),
            value == le_value(listed.skip(k as int)),
        decreases k,
    {
        k -= 1;
        let digit: u8 = match order {
            ByteOrder::Little => bytes[k],
            ByteOrder::Big => bytes[W - 1 - k],
        };
        proof {
            let above = listed.skip(k + 1);
            lemma_le_value_bound(above);
            lemma_pow256_grows(above.len(), 15);
            lemma_pow256_values();
            assert(listed.skip(k as int).drop_first() =~= above);
        }
        value = value * 256 + digit as u128;
    }
    proof {
        assert(listed.skip(0) =~= listed);
    }
    value
}

} // verus!
