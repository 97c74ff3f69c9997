//! Little-endian integers and byte strings.

use vstd::prelude::*;

verus! {

/// The `width` low-order bytes of `value`, least significant first.
pub open spec fn le_bytes(value: nat, width: nat) -> Seq<u8>
    decreases width,
{
    if width == 0 {
        Seq::empty()
    } else {
        seq![(value % 256) as u8] + le_bytes(value / 256, (width - 1) as nat)
    }
}

/// The integer that a byte string spells, least significant byte first.
pub open spec fn le_value(bytes: Seq<u8>) -> nat
    decreases bytes.len(),
{
    if bytes.len() == 0 {
        0
    } else {
        bytes[0] as nat + 256 * le_value(bytes.drop_first())
    }
}

/// `256` to the power `width`.
pub open spec fn pow256(width: nat) -> nat
    decreases width,
{
    if width == 0 {
        1
    } else {
        256 * pow256((width - 1) as nat)
    }
}

/// A signed 64-bit value as the unsigned value with the same bits.
pub open spec fn twos_complement64(value: i64) -> nat {
    if value >= 0 {
        value as nat
    } else {
        (value + 0x1_0000_0000_0000_0000) as nat
    }
}

/// The signed 64-bit value that shares its bits with `value`.
pub open spec fn from_twos_complement64(value: nat) -> int {
    if value < 0x8000_0000_0000_0000 {
        value as int
    } else {
        value - 0x1_0000_0000_0000_0000
    }
}

pub proof fn lemma_le_bytes_len(value: nat, width: nat)
    ensures
        le_bytes(value, width).len() == width,
    decreases width,
{
    if width > 0 {
        lemma_le_bytes_len(value / 256, (width - 1) as nat);
    }
}

/// Reading back what was written gives the value modulo the width.
pub proof fn lemma_le_value_of_le_bytes(value: nat, width: nat)
    ensures
        value < pow256(width) ==> le_value(le_bytes(value, width)) == value,
    decreases width,
{
    if width > 0 {
        let rest = le_bytes(value / 256, (width - 1) as nat);
        let all = le_bytes(value, width);
        lemma_le_value_of_le_bytes(value / 256, (width - 1) as nat);
        assert(all.drop_first() =~= rest);
        assert(all[0] == (value % 256) as u8);
    }
}

pub proof fn lemma_pow256()
    ensures
        pow256(1) == 0x100,
        pow256(2) == 0x1_0000,
        pow256(4) == 0x1_0000_0000,
        pow256(8) == 0x1_0000_0000_0000_0000,
{
    reveal_with_fuel(pow256, 9);
}

pub proof fn lemma_le_value_bound(bytes: Seq<u8>)
    ensures
        le_value(bytes) < pow256(bytes.len()),
    decreases bytes.len(),
{
    if bytes.len() > 0 {
        lemma_le_value_bound(bytes.drop_first());
    }
}

/// Two values that fit the width and have the same encoding are equal.
pub proof fn lemma_le_bytes_injective(a: nat, b: nat, width: nat)
    requires
        a < pow256(width),
        b < pow256(width),
        le_bytes(a, width) == le_bytes(b, width),
    ensures
        a == b,
{
    lemma_le_value_of_le_bytes(a, width);
    lemma_le_value_of_le_bytes(b, width);
}

/// Equal concatenations whose first parts are equally long have equal parts.
pub proof fn lemma_split_equal(a: Seq<u8>, b: Seq<u8>, c: Seq<u8>, d: Seq<u8>)
    requires
        a + b == c + d,
        a.len() == c.len(),
    ensures
        a == c,
        b == d,
{
    assert(a =~= (a + b).take(a.len() as int));
    assert(c =~= (c + d).take(a.len() as int));
    assert(b =~= (a + b).skip(a.len() as int));
    assert(d =~= (c + d).skip(a.len() as int));
}

/// Appends a byte string.
pub fn push_all(out: &mut Vec<u8>, bytes: &[u8])
    ensures
        final(out)@ == old(out)@ + bytes@,
{
    out.extend_from_slice(bytes);
    assert(out@ =~= old(out)@ + bytes@);
}

/// Appends the `width` low-order bytes of `value`, least significant first.
pub fn push_le(out: &mut Vec<u8>, value: u64, width: usize)
    ensures
        final(out)@ == old(out)@ + le_bytes(value as nat, width as nat),
{
    let mut rest: u64 = value;
    let mut left: usize = width;
    while left > 0
        invariant
            left <= width,
            out@ + le_bytes(rest as nat, left as nat) == old(out)@ + le_bytes(value as nat, width as nat),
        decreases left,
    {
        let ghost before = out@;
        let ghost tail = le_bytes(rest as nat / 256, (left - 1) as nat);
        out.push((rest % 256) as u8);
        assert(out@ + tail =~= before + le_bytes(rest as nat, left as nat));
        rest = rest / 256;
        left = left - 1;
    }
    assert(out@ + le_bytes(rest as nat, 0) =~= out@);
}

/// Reads `width` bytes at `at` as an unsigned integer.
pub fn read_le(bytes: &[u8], at: usize, width: usize) -> (value: u64)
    requires
        width <= 8,
        at + width <= bytes@.len(),
    ensures
        value == le_value(bytes@.subrange(at as int, at + width)),
{
    let mut value: u64 = 0;
    let mut i: usize = width;
    let end: usize = bytes.len();
    proof {
        lemma_pow256();
        assert(bytes@.subrange(at + width, at + width) =~= Seq::<u8>::empty());
    }
    while i > 0
        invariant
            i <= width <= 8,
            at + width <= bytes@.len() == end,
            value == le_value(bytes@.subrange(at + i, at + width)),
            value < pow256((width - i) as nat),
            pow256(8) == 0x1_0000_0000_0000_0000,
        decreases i,
    {
        let ghost tail = bytes@.subrange(at + i, at + width);
        i = i - 1;
        let ghost all = bytes@.subrange(at + i, at + width);
        proof {
            assert(all.drop_first() =~= tail);
            lemma_le_value_bound(all);
            lemma_pow256_monotone((width - i) as nat, 8);
            assert(pow256((width - i) as nat) == 256 * pow256((width - i - 1) as nat));
        }
        value = value * 256 + bytes[at + i] as u64;
    }
    value
}

proof fn lemma_pow256_monotone(a: nat, b: nat)
    requires
        a <= b,
    ensures
        pow256(a) <= pow256(b),
        pow256(a) > 0,
    decreases b,
{
    if a < b {
        lemma_pow256_monotone(a, (b - 1) as nat);
    } else if a > 0 {
        lemma_pow256_monotone((a - 1) as nat, (a - 1) as nat);
    }
}

/// A signed value's bits as an unsigned one.
pub fn to_bits64(value: i64) -> (bits: u64)
    ensures
        bits == twos_complement64(value),
{
    assert(value >= 0 ==> value as u64 == value) by (bit_vector);
    assert(value < 0 ==> value as u64 == value + 0x1_0000_0000_0000_0000) by (bit_vector);
    value as u64
}

/// An unsigned value's bits as a signed one.
pub fn from_bits64(bits: u64) -> (value: i64)
    ensures
        value == from_twos_complement64(bits as nat),
{
    assert(bits < 0x8000_0000_0000_0000 ==> bits as i64 == bits) by (bit_vector);
    assert(bits >= 0x8000_0000_0000_0000 ==> bits as i64 == bits - 0x1_0000_0000_0000_0000)
        by (bit_vector);
    bits as i64
}

/// Whether two byte strings hold the same bytes.
pub fn same_bytes(a: &[u8], b: &[u8]) -> (same: bool)
    ensures
        same == (a@ == b@),
{
    if a.len() != b.len() {
        return false;
    }
    let mut i: usize = 0;
    while i < a.len()
        invariant
            i <= a@.len(),
            a@.len() == b@.len(),
            forall|j: int| 0 <= j < i ==> a@[j] == b@[j],
        decreases a@.len() - i,
    {
        if a[i] != b[i] {
            return false;
        }
        i = i + 1;
    }
    assert(a@ =~= b@);
    true
}

/// Each byte of a written integer stands for its own power of 256, the least
/// significant one first.
pub proof fn each_byte_stands_for_its_power(value: nat, width: nat, i: int)
    requires
        0 <= i < width,
    ensures
        le_bytes(value, width).len() == width,
        le_bytes(value, width)[i] as nat == (value / pow256(i as nat)) % 256,
    decreases width,
{
    lemma_le_bytes_len(value, width);
    let rest = le_bytes(value / 256, (width - 1) as nat);
    if i > 0 {
        each_byte_stands_for_its_power(value / 256, (width - 1) as nat, i - 1);
        lemma_le_bytes_len(value / 256, (width - 1) as nat);
        assert(le_bytes(value, width)[i] == rest[i - 1]);
        lemma_pow256_monotone((i - 1) as nat, (i - 1) as nat);
        vstd::arithmetic::div_mod::lemma_div_denominator(
            value as int,
            256,
            pow256((i - 1) as nat) as int,
        );
        assert(pow256(i as nat) == 256 * pow256((i - 1) as nat));
    } else {
        let one = pow256(0);
        assert(one == 1);
        assert(value / one == value) by (nonlinear_arith)
            requires
                one == 1,
        ;
    }
}

/// An integer of which one byte changes by one changes by that byte's power of
/// 256.
pub proof fn the_first_byte_counts_least(low: u8, rest: Seq<u8>)
    ensures
        le_value(seq![low] + rest) == low + 256 * le_value(rest),
        le_value(rest + seq![low]) == le_value(rest) + low * pow256(rest.len()),
    decreases rest.len(),
{
    assert((seq![low] + rest).drop_first() =~= rest);
    if rest.len() == 0 {
        assert(rest + seq![low] =~= seq![low]);
        assert(seq![low].drop_first() =~= Seq::<u8>::empty());
        assert(le_value(Seq::<u8>::empty()) == 0);
        let one = pow256(0);
        assert(one == 1);
        assert(low * one == low) by (nonlinear_arith)
            requires
                one == 1,
        ;
    } else {
        let tail = rest.drop_first();
        the_first_byte_counts_least(low, tail);
        assert((rest + seq![low]).drop_first() =~= tail + seq![low]);
        assert((rest + seq![low])[0] == rest[0]);
        let p = pow256(tail.len()) as int;
        let l = low as int;
        assert(256 * (l * p) == l * (256 * p)) by (nonlinear_arith);
        assert(256 * (le_value(tail) + l * p) == 256 * le_value(tail) + 256 * (l * p))
            by (nonlinear_arith);
    }
}

/// A signed number and its bits are the same number but for a whole turn, which
/// only a negative number takes.
pub proof fn signed_bits_round_trip(value: i64)
    ensures
        from_twos_complement64(twos_complement64(value)) == value,
        twos_complement64(value) < 0x1_0000_0000_0000_0000,
        value >= 0 ==> twos_complement64(value) == value,
        value < 0 ==> twos_complement64(value) == value + 0x1_0000_0000_0000_0000,
{
}

} // verus!
