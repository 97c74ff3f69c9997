//! Goldcoin addresses: base58 text of a version byte, a hash, a checksum.

use crate::bytes::{push_all, same_bytes};
use crate::glc::hex;
use crate::hash::{sha256, sha256_digest};
use crate::text::chars_of;
use vstd::prelude::*;

verus! {

/// The version byte of a pay-to-public-key-hash address.
pub const P2PKH_VERSION: u8 = 0x6f;

/// The number that digits spell in some base, least significant first.
pub open spec fn value_of(digits: Seq<u8>, base: nat) -> nat
    decreases digits.len(),
{
    if digits.len() == 0 {
        0
    } else {
        digits[0] as nat + base * value_of(digits.drop_first(), base)
    }
}

/// The digits of a number in some base, least significant first, without
/// zeros at the top.
pub open spec fn digits_of(value: nat, base: nat) -> Seq<u8>
    decreases value,
    when base >= 2
{
    if value == 0 {
        Seq::empty()
    } else {
        proof {
            lemma_div_decreases(value, base);
        }
        seq![(value % base) as u8] + digits_of(value / base, base)
    }
}

/// Digits below the base, without a zero at the top.
pub open spec fn proper(digits: Seq<u8>, base: nat) -> bool {
    &&& forall|i: int| 0 <= i < digits.len() ==> (#[trigger] digits[i]) < base
    &&& digits.len() > 0 ==> digits.last() != 0
}

pub proof fn lemma_div_decreases(value: nat, base: nat)
    requires
        value > 0,
        base >= 2,
    ensures
        value / base < value,
{
    assert(value / base < value) by (nonlinear_arith)
        requires
            value > 0,
            base >= 2,
    ;
}

/// Proper digits are the digits of their value.
pub proof fn lemma_proper_digits(digits: Seq<u8>, base: nat)
    requires
        2 <= base <= 256,
        proper(digits, base),
    ensures
        digits_of(value_of(digits, base), base) == digits,
        digits.len() > 0 ==> value_of(digits, base) > 0,
    decreases digits.len(),
{
    if digits.len() > 0 {
        let rest = digits.drop_first();
        let value = value_of(digits, base);
        let first = digits[0] as nat;
        let above = value_of(rest, base);
        assert forall|i: int| 0 <= i < rest.len() implies (#[trigger] rest[i]) < base by {
            assert(rest[i] == digits[i + 1]);
        }
        assert(rest.len() > 0 ==> rest.last() == digits.last());
        lemma_proper_digits(rest, base);
        assert(value == first + base * above);
        assert(value % base == first && value / base == above) by (nonlinear_arith)
            requires
                value == first + base * above,
                first < base,
        ;
        if rest.len() == 0 {
            assert(first > 0);
        } else {
            assert(value > 0) by (nonlinear_arith)
                requires
                    value == first + base * above,
                    above > 0,
                    base >= 2,
            ;
        }
        assert(digits =~= seq![digits[0]] + rest);
    }
}

/// The digits of a number are proper and spell it.
pub proof fn lemma_digits_of(value: nat, base: nat)
    requires
        2 <= base <= 256,
    ensures
        proper(digits_of(value, base), base),
        value_of(digits_of(value, base), base) == value,
        value > 0 ==> digits_of(value, base).len() > 0,
    decreases value,
{
    if value > 0 {
        lemma_div_decreases(value, base);
        let rest = digits_of(value / base, base);
        let all = digits_of(value, base);
        lemma_digits_of(value / base, base);
        assert(all.drop_first() =~= rest);
        assert(0 <= value % base < base && value == base * (value / base) + value % base)
            by (nonlinear_arith)
            requires
                base >= 2,
        ;
        assert forall|i: int| 0 <= i < all.len() implies (#[trigger] all[i]) < base by {
            if i > 0 {
                assert(all[i] == rest[i - 1]);
            }
        }
        if value / base == 0 {
            assert(value % base == value) by (nonlinear_arith)
                requires
                    value / base == 0,
                    base >= 2,
            ;
            assert(rest.len() == 0);
            assert(all.last() == all[0]);
        } else {
            assert(all.last() == rest.last());
        }
    }
}

/// The digits of `mul` times a number plus `carry`, digit by digit.
pub open spec fn scaled(digits: Seq<u8>, mul: nat, carry: nat, base: nat) -> Seq<u8>
    decreases digits.len(),
{
    if digits.len() == 0 {
        digits_of(carry, base)
    } else {
        let t = digits[0] as nat * mul + carry;
        seq![(t % base) as u8] + scaled(digits.drop_first(), mul, t / base, base)
    }
}

/// Scaling digits scales their value.
proof fn lemma_scaled(digits: Seq<u8>, mul: nat, carry: nat, base: nat)
    requires
        2 <= base <= 256,
        mul >= 1,
        proper(digits, base),
    ensures
        proper(scaled(digits, mul, carry, base), base),
        value_of(scaled(digits, mul, carry, base), base) == mul * value_of(digits, base) + carry,
    decreases digits.len(),
{
    let all = scaled(digits, mul, carry, base);
    if digits.len() == 0 {
        lemma_digits_of(carry, base);
        assert(mul * 0 == 0) by (nonlinear_arith);
    } else {
        let first = digits[0] as nat;
        let t = first * mul + carry;
        let rest = digits.drop_first();
        let above = value_of(rest, base);
        let tail = scaled(rest, mul, t / base, base);
        assert forall|i: int| 0 <= i < rest.len() implies (#[trigger] rest[i]) < base by {
            assert(rest[i] == digits[i + 1]);
        }
        assert(rest.len() > 0 ==> rest.last() == digits.last());
        lemma_scaled(rest, mul, t / base, base);
        assert(0 <= t % base < base && t == base * (t / base) + t % base) by (nonlinear_arith)
            requires
                base >= 2,
        ;
        assert(all.drop_first() =~= tail);
        assert(all[0] as nat == t % base);
        assert(value_of(all, base) == t % base + base * (mul * above + t / base));
        assert(t % base + base * (mul * above + t / base) == mul * (first + base * above) + carry)
            by (nonlinear_arith)
            requires
                t == base * (t / base) + t % base,
                t == first * mul + carry,
        ;
        assert forall|i: int| 0 <= i < all.len() implies (#[trigger] all[i]) < base by {
            if i > 0 {
                assert(all[i] == tail[i - 1]);
            }
        }
        if tail.len() > 0 {
            assert(all.last() == tail.last());
        } else {
            // Nothing above: the number is `t`, which is not zero.
            assert(value_of(tail, base) == 0);
            assert(mul * above + t / base == 0);
            if rest.len() > 0 {
                lemma_proper_digits(rest, base);
                assert(mul * above > 0) by (nonlinear_arith)
                    requires
                        mul >= 1,
                        above > 0,
                ;
            }
            assert(first > 0);
            assert(mul * above >= 0) by (nonlinear_arith);
            assert(t > 0) by (nonlinear_arith)
                requires
                    t == first * mul + carry,
                    first > 0,
                    mul >= 1,
            ;
            assert(t % base == t) by (nonlinear_arith)
                requires
                    t / base == 0,
                    base >= 2,
            ;
            assert(all.last() == all[0]);
        }
    }
}

/// Multiplies a number by `mul` and adds `add`, in place of its digits.
fn scale(digits: &Vec<u8>, mul: u32, add: u32, base: u32) -> (out: Vec<u8>)
    requires
        2 <= base <= 256,
        1 <= mul <= 256,
        add <= 256,
        proper(digits@, base as nat),
    ensures
        out@ == digits_of(mul as nat * value_of(digits@, base as nat) + add as nat, base as nat),
{
    let ghost goal = scaled(digits@, mul as nat, add as nat, base as nat);
    let mut out: Vec<u8> = Vec::new();
    let mut carry: u32 = add;
    let mut i: usize = 0;
    assert(digits@.skip(0) =~= digits@);
    assert(out@ + goal =~= goal);
    while i < digits.len()
        invariant
            i <= digits@.len(),
            2 <= base <= 256,
            1 <= mul <= 256,
            carry <= 0x1_0000,
            goal == out@ + scaled(digits@.skip(i as int), mul as nat, carry as nat, base as nat),
        decreases digits@.len() - i,
    {
        let ghost before = out@;
        let ghost rest = digits@.skip(i as int);
        assert(rest.drop_first() =~= digits@.skip(i + 1));
        assert(digits@[i as int] as nat * mul as nat <= 0xff00) by (nonlinear_arith)
            requires
                digits@[i as int] <= 255,
                mul <= 256,
        ;
        let t: u32 = digits[i] as u32 * mul + carry;
        assert(t / base <= t / 2 && t % base < base) by (nonlinear_arith)
            requires
                base >= 2,
        ;
        let ghost tail = scaled(
            digits@.skip(i + 1),
            mul as nat,
            (t / base) as nat,
            base as nat,
        );
        out.push((t % base) as u8);
        assert(out@ + tail =~= before + (seq![(t % base) as u8] + tail));
        carry = t / base;
        i = i + 1;
    }
    assert(digits@.skip(i as int) =~= Seq::<u8>::empty());
    while carry > 0
        invariant
            2 <= base <= 256,
            goal == out@ + digits_of(carry as nat, base as nat),
        decreases carry,
    {
        let ghost before = out@;
        let ghost tail = digits_of((carry / base) as nat, base as nat);
        assert(carry / base < carry && carry % base < base) by (nonlinear_arith)
            requires
                base >= 2,
                carry > 0,
        ;
        out.push((carry % base) as u8);
        assert(out@ + tail =~= before + (seq![(carry % base) as u8] + tail));
        carry = carry / base;
    }
    assert(out@ =~= goal);
    proof {
        lemma_scaled(digits@, mul as nat, add as nat, base as nat);
        lemma_proper_digits(goal, base as nat);
    }
    out
}

/// The base58 character of a digit. The alphabet leaves out `0`, `I`, `O` and
/// `l`, which are easily misread.
pub open spec fn base58_char(digit: int) -> char {
    if digit < 9 {
        (digit + 49) as char
    } else if digit < 17 {
        (digit - 9 + 65) as char
    } else if digit < 22 {
        (digit - 17 + 74) as char
    } else if digit < 33 {
        (digit - 22 + 80) as char
    } else if digit < 44 {
        (digit - 33 + 97) as char
    } else {
        (digit - 44 + 109) as char
    }
}

/// The digit of a base58 character.
pub open spec fn base58_digit(c: char) -> Option<int> {
    if '1' <= c <= '9' {
        Some(c as int - 49)
    } else if 'A' <= c <= 'H' {
        Some(c as int - 65 + 9)
    } else if 'J' <= c <= 'N' {
        Some(c as int - 74 + 17)
    } else if 'P' <= c <= 'Z' {
        Some(c as int - 80 + 22)
    } else if 'a' <= c <= 'k' {
        Some(c as int - 97 + 33)
    } else if 'm' <= c <= 'z' {
        Some(c as int - 109 + 44)
    } else {
        None
    }
}

pub open spec fn is_base58(text: Seq<char>) -> bool {
    forall|i: int| 0 <= i < text.len() ==> base58_digit(#[trigger] text[i]) is Some
}

/// The number that base58 characters spell, most significant first.
pub open spec fn base58_value(text: Seq<char>) -> nat
    decreases text.len(),
{
    if text.len() == 0 {
        0
    } else {
        (58 * base58_value(text.drop_last()) + base58_digit(text.last())->0) as nat
    }
}

/// The number that bytes spell, most significant first.
pub open spec fn be_value(bytes: Seq<u8>) -> nat
    decreases bytes.len(),
{
    if bytes.len() == 0 {
        0
    } else {
        256 * be_value(bytes.drop_last()) + bytes.last() as nat
    }
}

/// How many `1` characters a text starts with.
pub open spec fn leading_ones(text: Seq<char>) -> nat
    decreases text.len(),
{
    if text.len() > 0 && text[0] == '1' {
        1 + leading_ones(text.drop_first())
    } else {
        0
    }
}

/// How many zero bytes a byte string starts with.
pub open spec fn leading_zeros(bytes: Seq<u8>) -> nat
    decreases bytes.len(),
{
    if bytes.len() > 0 && bytes[0] == 0 {
        1 + leading_zeros(bytes.drop_first())
    } else {
        0
    }
}

pub open spec fn zeros(n: nat) -> Seq<u8> {
    Seq::new(n, |i: int| 0u8)
}

pub open spec fn ones(n: nat) -> Seq<char> {
    Seq::new(n, |i: int| '1')
}

/// Base58 characters for digits, most significant first.
pub open spec fn base58_chars(digits: Seq<u8>) -> Seq<char> {
    Seq::new(digits.len(), |i: int| base58_char(digits[digits.len() - 1 - i] as int))
}

/// The base58 text of some bytes: a `1` for each leading zero byte, and the
/// number that the bytes spell.
pub open spec fn base58_text(bytes: Seq<u8>) -> Seq<char> {
    ones(leading_zeros(bytes)) + base58_chars(digits_of(be_value(bytes), 58))
}

/// The bytes of a base58 text.
pub open spec fn base58_bytes(text: Seq<char>) -> Seq<u8> {
    zeros(leading_ones(text)) + digits_of(base58_value(text), 256).reverse()
}

/// The first four bytes of the double hash.
pub open spec fn checksum(payload: Seq<u8>) -> Seq<u8> {
    Seq::new(4, |i: int| sha256(sha256(payload))[i])
}

/// The address of a hash under a version byte.
pub open spec fn address_text(version: u8, hash160: Seq<u8>) -> Seq<char> {
    let payload = seq![version] + hash160;
    base58_text(payload + checksum(payload))
}

/// Why a text is not a payable address.
#[derive(Debug, Clone, Copy, PartialEq, Eq, Structural)]
pub enum AddressError {
    NotBase58,
    WrongLength,
    BadChecksum,
    WrongVersion,
}

impl AddressError {
    pub open spec fn text(self) -> Seq<char> {
        match self {
            AddressError::NotBase58 => "it is not base58 text"@,
            AddressError::WrongLength => "it does not hold 25 bytes"@,
            AddressError::BadChecksum => "its checksum does not match"@,
            AddressError::WrongVersion => "it is not a pay-to-public-key-hash address"@,
        }
    }

    /// What is wrong with the text.
    pub fn message(&self) -> (m: String)
        ensures
            m@ == self.text(),
    {
        match self {
            AddressError::NotBase58 => String::from_str("it is not base58 text"),
            AddressError::WrongLength => String::from_str("it does not hold 25 bytes"),
            AddressError::BadChecksum => String::from_str("its checksum does not match"),
            AddressError::WrongVersion => String::from_str(
                "it is not a pay-to-public-key-hash address",
            ),
        }
    }
}

/// The hash in the 25 bytes of an address, given the checksum that its payload
/// should carry.
pub open spec fn paid_by(bytes: Seq<u8>, sum: Seq<u8>) -> Result<Seq<u8>, AddressError> {
    if bytes.skip(21) != sum {
        Err(AddressError::BadChecksum)
    } else if bytes[0] != P2PKH_VERSION {
        Err(AddressError::WrongVersion)
    } else {
        Ok(bytes.subrange(1, 21))
    }
}

/// The hash that an address pays, or why it pays none.
pub open spec fn payable(text: Seq<char>) -> Result<Seq<u8>, AddressError> {
    let bytes = base58_bytes(text);
    if !is_base58(text) {
        Err(AddressError::NotBase58)
    } else if bytes.len() != 25 {
        Err(AddressError::WrongLength)
    } else {
        paid_by(bytes, checksum(bytes.take(21)))
    }
}

fn digit_char(digit: u8) -> (c: char)
    requires
        digit < 58,
    ensures
        c == base58_char(digit as int),
{
    if digit < 9 {
        (digit + 49) as char
    } else if digit < 17 {
        (digit - 9 + 65) as char
    } else if digit < 22 {
        (digit - 17 + 74) as char
    } else if digit < 33 {
        (digit - 22 + 80) as char
    } else if digit < 44 {
        (digit - 33 + 97) as char
    } else {
        (digit - 44 + 109) as char
    }
}

fn char_digit(c: char) -> (digit: Option<u32>)
    ensures
        match digit {
            Some(d) => base58_digit(c) == Some(d as int) && d < 58,
            None => base58_digit(c) is None,
        },
{
    if '1' <= c && c <= '9' {
        Some(c as u32 - 49)
    } else if 'A' <= c && c <= 'H' {
        Some(c as u32 - 65 + 9)
    } else if 'J' <= c && c <= 'N' {
        Some(c as u32 - 74 + 17)
    } else if 'P' <= c && c <= 'Z' {
        Some(c as u32 - 80 + 22)
    } else if 'a' <= c && c <= 'k' {
        Some(c as u32 - 97 + 33)
    } else if 'm' <= c && c <= 'z' {
        Some(c as u32 - 109 + 44)
    } else {
        None
    }
}

/// The base58 text of some bytes.
pub fn base58_encode(bytes: &[u8]) -> (text: String)
    ensures
        text@ == base58_text(bytes@),
{
    let mut digits: Vec<u8> = Vec::new();
    let mut i: usize = 0;
    while i < bytes.len()
        invariant
            i <= bytes@.len(),
            digits@ == digits_of(be_value(bytes@.take(i as int)), 58),
        decreases bytes@.len() - i,
    {
        proof {
            lemma_digits_of(be_value(bytes@.take(i as int)), 58);
            assert(bytes@.take(i + 1).drop_last() =~= bytes@.take(i as int));
        }
        digits = scale(&digits, 256, bytes[i] as u32, 58);
        i = i + 1;
    }
    assert(bytes@.take(bytes@.len() as int) =~= bytes@);
    proof {
        lemma_digits_of(be_value(bytes@), 58);
    }
    let mut text: String = String::new();
    let mut z: usize = 0;
    assert(bytes@.skip(0) =~= bytes@);
    assert(text@ =~= ones(0));
    while z < bytes.len() && bytes[z] == 0
        invariant
            z <= bytes@.len(),
            text@ == ones(z as nat),
            leading_zeros(bytes@) == z + leading_zeros(bytes@.skip(z as int)),
        decreases bytes@.len() - z,
    {
        assert(bytes@.skip(z as int).drop_first() =~= bytes@.skip(z + 1));
        text.push('1');
        z = z + 1;
        assert(text@ =~= ones(z as nat));
    }
    let ghost chars = base58_chars(digits@);
    let mut left: usize = digits.len();
    assert(text@ + chars.take(0) =~= text@);
    while left > 0
        invariant
            left <= digits@.len(),
            chars == base58_chars(digits@),
            proper(digits@, 58),
            text@ == ones(z as nat) + chars.take(digits@.len() - left),
        decreases left,
    {
        left = left - 1;
        text.push(digit_char(digits[left]));
        assert(text@ =~= ones(z as nat) + chars.take(digits@.len() - left));
    }
    assert(chars.take(digits@.len() as int) =~= chars);
    text
}

/// The bytes of a base58 text.
pub fn base58_decode(text: &str) -> (bytes: Option<Vec<u8>>)
    ensures
        match bytes {
            Some(b) => is_base58(text@) && b@ == base58_bytes(text@),
            None => !is_base58(text@),
        },
{
    let chars: Vec<char> = chars_of(text);
    let mut digits: Vec<u8> = Vec::new();
    let mut i: usize = 0;
    while i < chars.len()
        invariant
            chars@ == text@,
            i <= chars@.len(),
            is_base58(text@.take(i as int)),
            digits@ == digits_of(base58_value(text@.take(i as int)), 256),
        decreases chars@.len() - i,
    {
        let ghost before = text@.take(i as int);
        let ghost after = text@.take(i + 1);
        match char_digit(chars[i]) {
            Some(digit) => {
                proof {
                    lemma_digits_of(base58_value(before), 256);
                    assert(after.drop_last() =~= before);
                    assert forall|j: int| 0 <= j < after.len() implies base58_digit(
                        #[trigger] after[j],
                    ) is Some by {
                        if j < i {
                            assert(after[j] == before[j]);
                        }
                    }
                }
                digits = scale(&digits, 58, digit, 256);
            },
            None => {
                assert(base58_digit(text@[i as int]) is None);
                return None;
            },
        }
        i = i + 1;
    }
    assert(text@.take(text@.len() as int) =~= text@);
    let mut bytes: Vec<u8> = Vec::new();
    let mut z: usize = 0;
    assert(text@.skip(0) =~= text@);
    assert(bytes@ =~= zeros(0));
    while z < chars.len() && chars[z] == '1'
        invariant
            chars@ == text@,
            z <= chars@.len(),
            bytes@ == zeros(z as nat),
            leading_ones(text@) == z + leading_ones(text@.skip(z as int)),
        decreases chars@.len() - z,
    {
        assert(text@.skip(z as int).drop_first() =~= text@.skip(z + 1));
        bytes.push(0);
        z = z + 1;
        assert(bytes@ =~= zeros(z as nat));
    }
    let ghost tail = digits@.reverse();
    let mut left: usize = digits.len();
    assert(bytes@ + tail.take(0) =~= bytes@);
    while left > 0
        invariant
            left <= digits@.len(),
            tail == digits@.reverse(),
            bytes@ == zeros(z as nat) + tail.take(digits@.len() - left),
        decreases left,
    {
        left = left - 1;
        bytes.push(digits[left]);
        assert(bytes@ =~= zeros(z as nat) + tail.take(digits@.len() - left));
    }
    assert(tail.take(digits@.len() as int) =~= tail);
    Some(bytes)
}

/// The first four bytes of the double hash of a payload.
fn checksum_of(payload: &[u8]) -> (sum: Vec<u8>)
    ensures
        sum@ == checksum(payload@),
{
    let once: [u8; 32] = sha256_digest(payload);
    let twice: [u8; 32] = sha256_digest(&once);
    let mut sum: Vec<u8> = Vec::new();
    push_all(&mut sum, vstd::slice::slice_subrange(&twice, 0, 4));
    assert(sum@ =~= checksum(payload@));
    sum
}

/// The address of a hash under a version byte.
pub fn base58check_encode(version: u8, hash160: &[u8; 20]) -> (text: String)
    ensures
        text@ == address_text(version, hash160@),
{
    let mut payload: Vec<u8> = Vec::new();
    payload.push(version);
    push_all(&mut payload, hash160);
    assert(payload@ =~= seq![version] + hash160@);
    let sum: Vec<u8> = checksum_of(payload.as_slice());
    push_all(&mut payload, sum.as_slice());
    base58_encode(payload.as_slice())
}

/// The pay-to-public-key-hash address of a hash.
pub fn encode_p2pkh(hash160: &[u8; 20]) -> (text: String)
    ensures
        text@ == address_text(P2PKH_VERSION, hash160@),
{
    base58check_encode(P2PKH_VERSION, hash160)
}

/// The hash that a pay-to-public-key-hash address pays.
pub fn decode_p2pkh_hash160(text: &str) -> (result: Result<[u8; 20], AddressError>)
    ensures
        match result {
            Ok(hash) => payable(text@) == Ok::<Seq<u8>, AddressError>(hash@),
            Err(e) => payable(text@) == Err::<Seq<u8>, AddressError>(e),
        },
{
    let bytes: Vec<u8> = match base58_decode(text) {
        Some(bytes) => bytes,
        None => {
            return Err(AddressError::NotBase58);
        },
    };
    if bytes.len() != 25 {
        return Err(AddressError::WrongLength);
    }
    let payload: &[u8] = vstd::slice::slice_subrange(bytes.as_slice(), 0, 21);
    assert(payload@ =~= bytes@.take(21));
    hash_in(bytes.as_slice(), checksum_of(payload).as_slice())
}

/// The hash in the 25 bytes of an address, given the checksum that its payload
/// should carry.
pub fn hash_in(bytes: &[u8], sum: &[u8]) -> (result: Result<[u8; 20], AddressError>)
    requires
        bytes@.len() == 25,
    ensures
        match result {
            Ok(hash) => paid_by(bytes@, sum@) == Ok::<Seq<u8>, AddressError>(hash@),
            Err(e) => paid_by(bytes@, sum@) == Err::<Seq<u8>, AddressError>(e),
        },
{
    let given: &[u8] = vstd::slice::slice_subrange(bytes, 21, 25);
    assert(given@ =~= bytes@.skip(21));
    if !same_bytes(given, sum) {
        return Err(AddressError::BadChecksum);
    }
    if bytes[0] != P2PKH_VERSION {
        return Err(AddressError::WrongVersion);
    }
    let mut hash: [u8; 20] = [0u8; 20];
    let mut i: usize = 0;
    while i < 20
        invariant
            i <= 20,
            bytes@.len() == 25,
            forall|j: int| 0 <= j < i ==> hash@[j] == bytes@[j + 1],
        decreases 20 - i,
    {
        hash[i] = bytes[i + 1];
        i = i + 1;
    }
    assert(hash@ =~= bytes@.subrange(1, 21));
    Ok(hash)
}

/// The script that pays a public key hash.
pub open spec fn p2pkh_script(hash160: Seq<u8>) -> Seq<u8> {
    seq![0x76u8, 0xa9u8, 0x14u8] + hash160 + seq![0x88u8, 0xacu8]
}

/// The script that pays a public key hash, in hexadecimal.
pub fn p2pkh_script_hex(hash160: &[u8; 20]) -> (text: String)
    ensures
        text@ == hex::hex_text(p2pkh_script(hash160@)),
{
    let mut script: Vec<u8> = Vec::new();
    script.push(0x76);
    script.push(0xa9);
    script.push(0x14);
    push_all(&mut script, hash160);
    script.push(0x88);
    script.push(0xac);
    assert(script@ =~= p2pkh_script(hash160@));
    hex::encode(script.as_slice())
}

proof fn lemma_base58_char_round_trips(digit: int)
    requires
        0 <= digit < 58,
    ensures
        base58_digit(base58_char(digit)) == Some(digit),
        base58_char(digit) == '1' <==> digit == 0,
{
}

/// The characters of digits spell the number that the digits spell.
proof fn lemma_base58_chars_value(digits: Seq<u8>)
    requires
        forall|i: int| 0 <= i < digits.len() ==> (#[trigger] digits[i]) < 58,
    ensures
        is_base58(base58_chars(digits)),
        base58_value(base58_chars(digits)) == value_of(digits, 58),
    decreases digits.len(),
{
    let chars = base58_chars(digits);
    assert forall|i: int| 0 <= i < chars.len() implies base58_digit(#[trigger] chars[i]) is Some by {
        lemma_base58_char_round_trips(digits[digits.len() - 1 - i] as int);
    }
    if digits.len() > 0 {
        let rest = digits.drop_first();
        assert forall|i: int| 0 <= i < rest.len() implies (#[trigger] rest[i]) < 58 by {
            assert(rest[i] == digits[i + 1]);
        }
        lemma_base58_chars_value(rest);
        assert(chars.drop_last() =~= base58_chars(rest));
        assert(chars.last() == base58_char(digits[0] as int));
        lemma_base58_char_round_trips(digits[0] as int);
    }
}

/// Leading `1` characters add nothing to the number.
proof fn lemma_leading_ones(n: nat, text: Seq<char>)
    requires
        text.len() > 0 ==> text[0] != '1',
    ensures
        base58_value(ones(n) + text) == base58_value(text),
        leading_ones(ones(n) + text) == n,
{
    lemma_leading_ones_count(n, text);
    lemma_leading_ones_value(n, text);
}

proof fn lemma_leading_ones_count(n: nat, text: Seq<char>)
    requires
        text.len() > 0 ==> text[0] != '1',
    ensures
        leading_ones(ones(n) + text) == n,
    decreases n,
{
    if n > 0 {
        assert((ones(n) + text).drop_first() =~= ones((n - 1) as nat) + text);
        lemma_leading_ones_count((n - 1) as nat, text);
    } else {
        assert(ones(n) + text =~= text);
    }
}

proof fn lemma_leading_ones_value(n: nat, text: Seq<char>)
    ensures
        base58_value(ones(n) + text) == base58_value(text),
    decreases n + text.len(),
{
    let all = ones(n) + text;
    if text.len() > 0 {
        assert(all.drop_last() =~= ones(n) + text.drop_last());
        lemma_leading_ones_value(n, text.drop_last());
    } else if n > 0 {
        assert(all.drop_last() =~= ones((n - 1) as nat) + text);
        lemma_leading_ones_value((n - 1) as nat, text);
    } else {
        assert(all =~= text);
    }
}

/// Bytes are their leading zeros and the number that they spell.
proof fn lemma_bytes_from_value(bytes: Seq<u8>)
    ensures
        bytes == zeros(leading_zeros(bytes)) + digits_of(be_value(bytes), 256).reverse(),
    decreases bytes.len(),
{
    if bytes.len() > 0 && bytes[0] == 0 {
        let rest = bytes.drop_first();
        lemma_bytes_from_value(rest);
        lemma_be_value_drop_zero(bytes);
        assert(bytes =~= seq![0u8] + rest);
        assert(zeros(leading_zeros(bytes)) =~= seq![0u8] + zeros(leading_zeros(rest)));
        assert(bytes =~= zeros(leading_zeros(bytes)) + digits_of(be_value(bytes), 256).reverse());
    } else {
        let digits = bytes.reverse();
        lemma_be_value_reverse(bytes);
        assert(digits.len() > 0 ==> digits.last() == bytes[0]);
        lemma_proper_digits(digits, 256);
        assert(bytes.reverse().reverse() =~= bytes);
        assert(zeros(0) + bytes =~= bytes);
    }
}

proof fn lemma_be_value_reverse(bytes: Seq<u8>)
    ensures
        be_value(bytes) == value_of(bytes.reverse(), 256),
    decreases bytes.len(),
{
    if bytes.len() > 0 {
        lemma_be_value_reverse(bytes.drop_last());
        assert(bytes.reverse().drop_first() =~= bytes.drop_last().reverse());
    }
}

proof fn lemma_be_value_drop_zero(bytes: Seq<u8>)
    requires
        bytes.len() > 0,
        bytes[0] == 0,
    ensures
        be_value(bytes) == be_value(bytes.drop_first()),
    decreases bytes.len(),
{
    if bytes.len() > 1 {
        lemma_be_value_drop_zero(bytes.drop_last());
        assert(bytes.drop_last().drop_first() =~= bytes.drop_first().drop_last());
    } else {
        reveal_with_fuel(be_value, 2);
        assert(bytes.drop_last() =~= Seq::<u8>::empty());
        assert(bytes.drop_first() =~= Seq::<u8>::empty());
    }
}

/// The base58 text of some bytes spells those bytes.
pub proof fn base58_round_trips(bytes: Seq<u8>)
    ensures
        is_base58(base58_text(bytes)),
        base58_bytes(base58_text(bytes)) == bytes,
{
    let z = leading_zeros(bytes);
    let digits = digits_of(be_value(bytes), 58);
    let chars = base58_chars(digits);
    let text = base58_text(bytes);
    lemma_digits_of(be_value(bytes), 58);
    lemma_base58_chars_value(digits);
    if digits.len() > 0 {
        assert(chars[0] == base58_char(digits.last() as int));
        lemma_base58_char_round_trips(digits.last() as int);
    }
    lemma_leading_ones(z, chars);
    assert forall|i: int| 0 <= i < text.len() implies base58_digit(#[trigger] text[i]) is Some by {
        if i >= z {
            assert(text[i] == chars[i - z]);
        }
    }
    lemma_bytes_from_value(bytes);
}

/// The digits of a base58 text, least significant first.
spec fn base58_digits(text: Seq<char>) -> Seq<u8> {
    Seq::new(text.len(), |i: int| base58_digit(text[text.len() - 1 - i])->0 as u8)
}

proof fn lemma_base58_digits_value(text: Seq<char>)
    requires
        is_base58(text),
    ensures
        base58_value(text) == value_of(base58_digits(text), 58),
    decreases text.len(),
{
    if text.len() > 0 {
        let front = text.drop_last();
        assert forall|i: int| 0 <= i < front.len() implies base58_digit(#[trigger] front[i]) is Some
            by {
            assert(front[i] == text[i]);
        }
        lemma_base58_digits_value(front);
        assert(base58_digits(text).drop_first() =~= base58_digits(front));
        assert(base58_digit(text[text.len() - 1]) is Some);
    }
}

/// A base58 text is its leading `1` characters and the number that it spells.
proof fn lemma_text_from_value(text: Seq<char>)
    requires
        is_base58(text),
    ensures
        text == ones(leading_ones(text)) + base58_chars(digits_of(base58_value(text), 58)),
    decreases text.len(),
{
    if text.len() > 0 && text[0] == '1' {
        let rest = text.drop_first();
        assert forall|i: int| 0 <= i < rest.len() implies base58_digit(#[trigger] rest[i]) is Some
            by {
            assert(rest[i] == text[i + 1]);
        }
        lemma_text_from_value(rest);
        assert(text =~= ones(1) + rest);
        lemma_leading_ones_value(1, rest);
        assert(ones(leading_ones(text)) =~= ones(1) + ones(leading_ones(rest)));
        assert(text =~= ones(leading_ones(text)) + base58_chars(
            digits_of(base58_value(text), 58),
        ));
    } else {
        let digits = base58_digits(text);
        lemma_base58_digits_value(text);
        assert forall|i: int| 0 <= i < digits.len() implies (#[trigger] digits[i]) < 58 by {
            assert(base58_digit(text[text.len() - 1 - i]) is Some);
        }
        if text.len() > 0 {
            assert(base58_digit(text[0]) is Some);
            assert(digits.last() == base58_digit(text[0])->0 as u8);
        }
        lemma_proper_digits(digits, 58);
        assert forall|i: int| 0 <= i < text.len() implies base58_chars(digits)[i]
            == #[trigger] text[i] by {
            assert(base58_digit(text[i]) is Some);
        }
        assert(base58_chars(digits) =~= text);
        assert(ones(0) + text =~= text);
    }
}

proof fn lemma_leading_zeros(n: nat, bytes: Seq<u8>)
    requires
        bytes.len() > 0 ==> bytes[0] != 0,
    ensures
        leading_zeros(zeros(n) + bytes) == n,
        be_value(zeros(n) + bytes) == be_value(bytes),
    decreases n,
{
    let all = zeros(n) + bytes;
    if n > 0 {
        assert(all.drop_first() =~= zeros((n - 1) as nat) + bytes);
        lemma_leading_zeros((n - 1) as nat, bytes);
        lemma_be_value_drop_zero(all);
    } else {
        assert(all =~= bytes);
    }
}

/// A base58 text is the text of the bytes that it spells: no two texts spell the
/// same bytes.
pub proof fn base58_texts_are_unique(text: Seq<char>)
    requires
        is_base58(text),
    ensures
        base58_text(base58_bytes(text)) == text,
{
    let value = base58_value(text);
    let digits = digits_of(value, 256);
    let tail = digits.reverse();
    lemma_digits_of(value, 256);
    assert(tail.len() > 0 ==> tail[0] == digits.last());
    lemma_leading_zeros(leading_ones(text), tail);
    lemma_be_value_reverse(tail);
    assert(tail.reverse() =~= digits);
    lemma_text_from_value(text);
}

/// The address of a hash pays exactly that hash.
pub proof fn addresses_round_trip(hash160: Seq<u8>)
    requires
        hash160.len() == 20,
    ensures
        payable(address_text(P2PKH_VERSION, hash160)) == Ok::<Seq<u8>, AddressError>(hash160),
{
    let payload = seq![P2PKH_VERSION] + hash160;
    let bytes = payload + checksum(payload);
    base58_round_trips(bytes);
    assert(bytes.take(21) =~= payload);
    assert(bytes.skip(21) =~= checksum(payload));
    assert(bytes.subrange(1, 21) =~= hash160);
}

/// The alphabet has the digits and letters of both cases without `0`, `I`, `O`
/// and `l`, in their order, and every digit below 58 once.
pub proof fn the_alphabet_is_in_order(c: char, d: char, digit: int)
    ensures
        base58_digit(c) is Some <==> ('0' <= c <= '9' || 'A' <= c <= 'Z' || 'a' <= c <= 'z') && c
            != '0' && c != 'I' && c != 'O' && c != 'l',
        base58_digit(c) matches Some(v) ==> 0 <= v < 58,
        base58_digit(c) is Some && base58_digit(d) is Some ==> (c < d <==> base58_digit(c)->0
            < base58_digit(d)->0),
        0 <= digit < 58 ==> base58_digit(base58_char(digit)) == Some(digit),
{
}

/// What comes first counts most: a byte or a character more behind a text makes
/// what stands before it count 256 or 58 times as much.
pub proof fn what_comes_first_counts_most(bytes: Seq<u8>, b: u8, text: Seq<char>, c: char)
    requires
        base58_digit(c) is Some,
    ensures
        be_value(bytes.push(b)) == 256 * be_value(bytes) + b,
        base58_value(text.push(c)) == 58 * base58_value(text) + base58_digit(c)->0,
{
    assert(bytes.push(b).drop_last() =~= bytes);
    assert(text.push(c).drop_last() =~= text);
}

/// A text can be paid exactly where it is the address of a hash of twenty bytes
/// under this network's version, and what it pays is that hash.
pub proof fn only_an_address_can_be_paid(text: Seq<char>, hash160: Seq<u8>)
    ensures
        payable(text) == Ok::<Seq<u8>, AddressError>(hash160) <==> hash160.len() == 20 && text
            == address_text(0x6f, hash160),
{
    if hash160.len() == 20 && text == address_text(0x6f, hash160) {
        addresses_round_trip(hash160);
    }
    if payable(text) == Ok::<Seq<u8>, AddressError>(hash160) {
        let bytes = base58_bytes(text);
        base58_texts_are_unique(text);
        let payload = seq![0x6fu8] + hash160;
        assert(bytes.take(21) =~= payload);
        assert(bytes =~= payload + checksum(payload));
    }
}

/// Each reason for which a text cannot be paid has its own cause: a character
/// outside the alphabet, another number of bytes, a checksum that is not that of
/// the rest, another version.
pub proof fn an_unpayable_address_has_its_reason(text: Seq<char>)
    ensures
        ({
            let spelled = forall|i: int|
                0 <= i < text.len() ==> base58_digit(#[trigger] text[i]) is Some;
            let bytes = base58_bytes(text);
            let sealed = bytes.skip(21) == checksum(bytes.take(21));
            &&& payable(text) == Err::<Seq<u8>, _>(AddressError::NotBase58) <==> !spelled
            &&& payable(text) == Err::<Seq<u8>, _>(AddressError::WrongLength) <==> spelled
                && bytes.len() != 25
            &&& payable(text) == Err::<Seq<u8>, _>(AddressError::BadChecksum) <==> spelled
                && bytes.len() == 25 && !sealed
            &&& payable(text) == Err::<Seq<u8>, _>(AddressError::WrongVersion) <==> spelled
                && bytes.len() == 25 && sealed && bytes[0] != 0x6f
        }),
{
}

/// The address of a hash under another version cannot be paid.
pub proof fn an_address_of_another_version_cannot_be_paid(version: u8, hash160: Seq<u8>)
    requires
        hash160.len() == 20,
        version != 0x6f,
    ensures
        payable(address_text(version, hash160)) == Err::<Seq<u8>, _>(AddressError::WrongVersion),
{
    let payload = seq![version] + hash160;
    let bytes = payload + checksum(payload);
    base58_round_trips(bytes);
    assert(bytes.take(21) =~= payload);
    assert(bytes.skip(21) =~= checksum(payload));
    assert(bytes[0] == version);
}

/// A checksum is the first four bytes of the hash of the hash.
pub proof fn a_checksum_is_four_bytes_of_the_double_hash(payload: Seq<u8>, i: int)
    ensures
        checksum(payload).len() == 4,
        0 <= i < 4 ==> checksum(payload)[i] == sha256(sha256(payload))[i],
{
}

/// The script that pays a key's hash holds the hash between its three opening
/// and its two closing bytes.
pub proof fn a_p2pkh_script_wraps_its_hash(hash160: Seq<u8>)
    requires
        hash160.len() == 20,
    ensures
        p2pkh_script(hash160).len() == 25,
        p2pkh_script(hash160)[0] == 0x76,
        p2pkh_script(hash160)[1] == 0xa9,
        p2pkh_script(hash160)[2] == 20,
        p2pkh_script(hash160).subrange(3, 23) == hash160,
        p2pkh_script(hash160)[23] == 0x88,
        p2pkh_script(hash160)[24] == 0xac,
{
    assert(p2pkh_script(hash160).subrange(3, 23) =~= hash160);
}

} // verus!
