//! Hexadecimal text.

use vstd::prelude::*;

verus! {

/// The lower-case hexadecimal digit for a value below sixteen.
pub open spec fn hex_char(nibble: int) -> char {
    if nibble < 10 {
        (nibble + 48) as char
    } else {
        (nibble + 87) as char
    }
}

/// The value of a hexadecimal digit of either case.
pub open spec fn hex_value(c: char) -> Option<int> {
    if '0' <= c <= '9' {
        Some(c as int - 48)
    } else if 'a' <= c <= 'f' {
        Some(c as int - 87)
    } else if 'A' <= c <= 'F' {
        Some(c as int - 55)
    } else {
        None
    }
}

/// Two lower-case digits per byte, high digit first.
pub open spec fn hex_text(bytes: Seq<u8>) -> Seq<char> {
    Seq::new(
        2 * bytes.len(),
        |i: int|
            if i % 2 == 0 {
                hex_char(bytes[i / 2] as int / 16)
            } else {
                hex_char(bytes[i / 2] as int % 16)
            },
    )
}

/// Whether a text is an even number of hexadecimal digits.
pub open spec fn is_hex(text: Seq<char>) -> bool {
    text.len() % 2 == 0 && forall|i: int| 0 <= i < text.len() ==> hex_value(#[trigger] text[i]) is Some
}

/// The bytes that a hexadecimal text spells.
pub open spec fn hex_bytes(text: Seq<char>) -> Seq<u8>
    recommends
        is_hex(text),
{
    Seq::new(
        text.len() / 2,
        |i: int| (hex_value(text[2 * i])->0 * 16 + hex_value(text[2 * i + 1])->0) as u8,
    )
}

/// Why a text is not the hexadecimal form of the expected bytes.
#[derive(Debug, Clone, Copy, PartialEq, Eq, Structural)]
pub enum HexError {
    /// A character is not a hexadecimal digit, or the digits are odd in number.
    NotHex,
    /// The text spells another number of bytes.
    WrongLength,
}

impl HexError {
    /// The message shown to an operator.
    pub open spec fn text(self) -> Seq<char> {
        match self {
            HexError::NotHex => "not hexadecimal"@,
            HexError::WrongLength => "wrong number of bytes"@,
        }
    }

    /// The message shown to an operator.
    pub fn message(&self) -> (m: String)
        ensures
            m@ == self.text(),
    {
        match self {
            HexError::NotHex => String::from_str("not hexadecimal"),
            HexError::WrongLength => String::from_str("wrong number of bytes"),
        }
    }
}

/// The text of some bytes spells those bytes.
pub proof fn hex_text_round_trips(bytes: Seq<u8>)
    ensures
        is_hex(hex_text(bytes)),
        hex_bytes(hex_text(bytes)) == bytes,
{
    let text = hex_text(bytes);
    assert forall|i: int| 0 <= i < text.len() implies hex_value(#[trigger] text[i]) is Some by {
        let b = bytes[i / 2] as int;
        assert(0 <= b / 16 < 16 && 0 <= b % 16 < 16);
    }
    assert forall|i: int| 0 <= i < bytes.len() implies hex_bytes(text)[i] == bytes[i] by {
        let b = bytes[i] as int;
        assert((2 * i) / 2 == i && (2 * i + 1) / 2 == i && (2 * i) % 2 == 0 && (2 * i + 1) % 2 == 1);
        assert(text[2 * i] == hex_char(b / 16));
        assert(text[2 * i + 1] == hex_char(b % 16));
        assert(b == (b / 16) * 16 + b % 16);
    }
    assert(hex_bytes(text) =~= bytes);
}

fn nibble_char(nibble: u8) -> (c: char)
    requires
        nibble < 16,
    ensures
        c == hex_char(nibble as int),
{
    if nibble < 10 {
        (nibble + 48) as char
    } else {
        (nibble + 87) as char
    }
}

fn nibble_value(c: char) -> (value: Option<u8>)
    ensures
        match value {
            Some(v) => hex_value(c) == Some(v as int) && v < 16,
            None => hex_value(c) is None,
        },
{
    if '0' <= c && c <= '9' {
        Some((c as u32 - 48) as u8)
    } else if 'a' <= c && c <= 'f' {
        Some((c as u32 - 87) as u8)
    } else if 'A' <= c && c <= 'F' {
        Some((c as u32 - 55) as u8)
    } else {
        None
    }
}

/// Lower-case hexadecimal, two digits per byte.
pub fn encode(bytes: &[u8]) -> (text: String)
    ensures
        text@ == hex_text(bytes@),
{
    let mut text: String = String::new();
    let mut i: usize = 0;
    while i < bytes.len()
        invariant
            i <= bytes@.len(),
            text@ == hex_text(bytes@.take(i as int)),
        decreases bytes@.len() - i,
    {
        let b: u8 = bytes[i];
        text.push(nibble_char(b / 16));
        text.push(nibble_char(b % 16));
        i = i + 1;
        assert(text@ =~= hex_text(bytes@.take(i as int)));
    }
    assert(bytes@.take(bytes@.len() as int) =~= bytes@);
    text
}

/// The bytes of a hexadecimal text.
pub fn decode_vec(text: &str) -> (result: Result<Vec<u8>, HexError>)
    ensures
        match result {
            Ok(bytes) => is_hex(text@) && bytes@ == hex_bytes(text@),
            Err(e) => !is_hex(text@) && e == HexError::NotHex,
        },
{
    let chars: Vec<char> = crate::text::chars_of(text);
    decode_chars(chars.as_slice())
}

/// The bytes of a hexadecimal character sequence.
pub fn decode_chars(chars: &[char]) -> (result: Result<Vec<u8>, HexError>)
    ensures
        match result {
            Ok(bytes) => is_hex(chars@) && bytes@ == hex_bytes(chars@),
            Err(e) => !is_hex(chars@) && e == HexError::NotHex,
        },
{
    if chars.len() % 2 != 0 {
        return Err(HexError::NotHex);
    }
    let mut bytes: Vec<u8> = Vec::new();
    let mut i: usize = 0;
    while i < chars.len()
        invariant
            i <= chars@.len(),
            i % 2 == 0,
            chars@.len() % 2 == 0,
            is_hex(chars@.take(i as int)),
            bytes@ == hex_bytes(chars@.take(i as int)),
        decreases chars@.len() - i,
    {
        let ghost before = chars@.take(i as int);
        let ghost after = chars@.take(i + 2);
        match (nibble_value(chars[i]), nibble_value(chars[i + 1])) {
            (Some(high), Some(low)) => {
                bytes.push(high * 16 + low);
                proof {
                    assert forall|j: int| 0 <= j < after.len() implies hex_value(#[trigger] after[j]) is Some by {
                        if j < i {
                            assert(after[j] == before[j]);
                        }
                    }
                    assert forall|j: int| 0 <= j < bytes@.len() implies bytes@[j] == hex_bytes(after)[j] by {
                        if 2 * j < i {
                            assert(after[2 * j] == before[2 * j]);
                            assert(after[2 * j + 1] == before[2 * j + 1]);
                        }
                    }
                    assert(bytes@ =~= hex_bytes(after));
                }
            },
            _ => {
                assert(hex_value(chars@[i as int]) is None || hex_value(chars@[i + 1]) is None);
                return Err(HexError::NotHex);
            },
        }
        i = i + 2;
    }
    assert(chars@.take(chars@.len() as int) =~= chars@);
    Ok(bytes)
}

/// The bytes of a hexadecimal text that spells exactly `N` of them.
pub fn decode_exact<const N: usize>(text: &str) -> (result: Result<[u8; N], HexError>)
    ensures
        match result {
            Ok(bytes) => is_hex(text@) && text@.len() == 2 * N && bytes@ == hex_bytes(text@),
            Err(HexError::NotHex) => !is_hex(text@),
            Err(HexError::WrongLength) => is_hex(text@) && text@.len() != 2 * N,
        },
{
    match decode_vec(text) {
        Ok(bytes) => fixed::<N>(bytes.as_slice()),
        Err(e) => Err(e),
    }
}

/// A slice of exactly `N` bytes as an array.
pub fn fixed<const N: usize>(bytes: &[u8]) -> (result: Result<[u8; N], HexError>)
    ensures
        match result {
            Ok(array) => array@ == bytes@ && bytes@.len() == N,
            Err(e) => bytes@.len() != N && e == HexError::WrongLength,
        },
{
    if bytes.len() != N {
        return Err(HexError::WrongLength);
    }
    let mut array: [u8; N] = [0u8; N];
    let mut i: usize = 0;
    while i < N
        invariant
            i <= N,
            bytes@.len() == N,
            forall|j: int| 0 <= j < i ==> array@[j] == bytes@[j],
        decreases N - i,
    {
        array[i] = bytes[i];
        i = i + 1;
    }
    assert(array@ =~= bytes@);
    Ok(array)
}

/// A text is hexadecimal exactly where it is an even number of digits and of
/// letters from A to F in either case. The bytes that it spells are spelled by
/// the same text with its letters in lower case.
pub proof fn hex_is_read_in_either_case(text: Seq<char>)
    ensures
        is_hex(text) <==> text.len() % 2 == 0 && forall|i: int|
            0 <= i < text.len() ==> ('0' <= #[trigger] text[i] <= '9' || 'a' <= text[i] <= 'f'
                || 'A' <= text[i] <= 'F'),
        is_hex(text) ==> hex_bytes(text).len() * 2 == text.len() && hex_text(hex_bytes(text)).len()
            == text.len(),
        is_hex(text) ==> forall|i: int|
            0 <= i < text.len() ==> #[trigger] hex_text(hex_bytes(text))[i] == (if 'A' <= text[i]
                <= 'F' {
                (text[i] as int + 32) as char
            } else {
                text[i]
            }),
{
    if is_hex(text) {
        let bytes = hex_bytes(text);
        assert forall|i: int| 0 <= i < text.len() implies #[trigger] hex_text(bytes)[i] == (
        if 'A' <= text[i] <= 'F' {
            (text[i] as int + 32) as char
        } else {
            text[i]
        }) by {
            let k = i / 2;
            assert(i == 2 * k || i == 2 * k + 1);
            let high = hex_value(text[2 * k])->0;
            let low = hex_value(text[2 * k + 1])->0;
            assert(hex_value(text[2 * k]) is Some && hex_value(text[2 * k + 1]) is Some);
            assert(0 <= high < 16 && 0 <= low < 16);
            assert(bytes[k] == (high * 16 + low) as u8);
            assert((high * 16 + low) / 16 == high && (high * 16 + low) % 16 == low);
        }
    }
    if text.len() % 2 == 0 && forall|i: int|
        0 <= i < text.len() ==> ('0' <= #[trigger] text[i] <= '9' || 'a' <= text[i] <= 'f' || 'A'
            <= text[i] <= 'F') {
        assert(is_hex(text));
    }
}

} // verus!
