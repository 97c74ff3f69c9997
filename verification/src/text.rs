//! Decimal numbers and string building.

use vstd::prelude::*;

verus! {

/// `String::push` appends one character.
pub assume_specification[ String::push ](text: &mut String, c: char)
    ensures
        final(text)@ == old(text)@.push(c),
;

/// The character for a decimal digit.
pub open spec fn digit_char(digit: nat) -> char {
    (digit + 48) as char
}

/// A natural number in decimal, without leading zeros.
pub open spec fn decimal(n: nat) -> Seq<char>
    decreases n,
{
    if n < 10 {
        seq![digit_char(n)]
    } else {
        decimal(n / 10).push(digit_char(n % 10))
    }
}

/// An integer in decimal, negative numbers with a leading minus sign.
pub open spec fn decimal_int(n: int) -> Seq<char> {
    if n >= 0 {
        decimal(n as nat)
    } else {
        seq!['-'] + decimal((-n) as nat)
    }
}

/// The character for a decimal digit.
pub fn digit(value: u64) -> (c: char)
    requires
        value < 10,
    ensures
        c == digit_char(value as nat),
{
    (value as u8 + 48) as char
}

/// Appends a number in decimal.
pub fn push_decimal_wide(out: &mut String, n: u128)
    ensures
        final(out)@ == old(out)@ + decimal(n as nat),
    decreases n,
{
    if n >= 10 {
        push_decimal_wide(out, n / 10);
    }
    out.push(digit((n % 10) as u64));
    assert(out@ =~= old(out)@ + decimal(n as nat));
}

/// Appends a number in decimal.
pub fn push_decimal(out: &mut String, n: u64)
    ensures
        final(out)@ == old(out)@ + decimal(n as nat),
{
    push_decimal_wide(out, n as u128);
}

/// Appends a signed number in decimal.
pub fn push_decimal_int(out: &mut String, n: i64)
    ensures
        final(out)@ == old(out)@ + decimal_int(n as int),
{
    if n >= 0 {
        push_decimal(out, n as u64);
    } else {
        out.push('-');
        let magnitude: u64 = (-(n as i128)) as u64;
        push_decimal(out, magnitude);
        assert(out@ =~= old(out)@ + decimal_int(n as int));
    }
}

/// The characters of a string.
pub fn chars_of(text: &str) -> (chars: Vec<char>)
    ensures
        chars@ == text@,
{
    let mut chars: Vec<char> = Vec::new();
    for c in it: text.chars()
        invariant
            chars@ == text@.take(it.index() as int),
            it.seq() == text@,
    {
        chars.push(c);
    }
    assert(text@.take(text@.len() as int) =~= text@);
    chars
}

/// A string made of the characters of a slice.
pub fn string_of(chars: &[char]) -> (text: String)
    ensures
        text@ == chars@,
{
    let mut text: String = String::new();
    let mut i: usize = 0;
    while i < chars.len()
        invariant
            i <= chars@.len(),
            text@ == chars@.take(i as int),
        decreases chars@.len() - i,
    {
        text.push(chars[i]);
        i = i + 1;
        assert(chars@.take(i as int) =~= chars@.take(i - 1).push(chars@[i - 1]));
    }
    assert(chars@.take(chars@.len() as int) =~= chars@);
    text
}

/// Whether one character sequence comes strictly before another in
/// lexicographic order of code points, which is the order of the UTF-8 bytes.
pub open spec fn text_before(a: Seq<char>, b: Seq<char>) -> bool
    decreases a.len(),
{
    if b.len() == 0 {
        false
    } else if a.len() == 0 {
        true
    } else if a[0] != b[0] {
        a[0] < b[0]
    } else {
        text_before(a.drop_first(), b.drop_first())
    }
}

/// Exactly one of "before", "equal", "after" holds.
pub proof fn lemma_text_before_total(a: Seq<char>, b: Seq<char>)
    ensures
        !(text_before(a, b) && text_before(b, a)),
        a == b ==> !text_before(a, b),
        a != b ==> text_before(a, b) || text_before(b, a),
    decreases a.len(),
{
    if a.len() > 0 && b.len() > 0 {
        if a[0] == b[0] {
            lemma_text_before_total(a.drop_first(), b.drop_first());
            if a.drop_first() == b.drop_first() {
                assert(a =~= seq![a[0]] + a.drop_first());
                assert(b =~= seq![b[0]] + b.drop_first());
            }
        }
    } else {
        assert(a.len() == 0 && b.len() == 0 ==> a =~= b);
    }
}

pub proof fn lemma_text_before_transitive(a: Seq<char>, b: Seq<char>, c: Seq<char>)
    requires
        text_before(a, b),
        text_before(b, c),
    ensures
        text_before(a, c),
    decreases a.len(),
{
    if a.len() > 0 && a[0] == b[0] && b[0] == c[0] {
        lemma_text_before_transitive(a.drop_first(), b.drop_first(), c.drop_first());
    }
}

/// Whether one text comes strictly before another.
pub fn is_before(a: &str, b: &str) -> (before: bool)
    ensures
        before == text_before(a@, b@),
{
    let left: Vec<char> = chars_of(a);
    let right: Vec<char> = chars_of(b);
    let mut i: usize = 0;
    assert(a@.skip(0) =~= a@);
    assert(b@.skip(0) =~= b@);
    while i < left.len() && i < right.len()
        invariant
            left@ == a@,
            right@ == b@,
            i <= left@.len(),
            i <= right@.len(),
            text_before(a@, b@) == text_before(a@.skip(i as int), b@.skip(i as int)),
        decreases left@.len() - i,
    {
        if left[i] != right[i] {
            return left[i] < right[i];
        }
        assert(a@.skip(i as int).drop_first() =~= a@.skip(i + 1));
        assert(b@.skip(i as int).drop_first() =~= b@.skip(i + 1));
        i = i + 1;
    }
    i < right.len()
}

/// The white space characters of Unicode.
pub open spec fn is_space(c: char) -> bool {
    ||| '\u{9}' <= c <= '\u{d}'
    ||| c == ' '
    ||| c == '\u{85}'
    ||| c == '\u{a0}'
    ||| c == '\u{1680}'
    ||| '\u{2000}' <= c <= '\u{200a}'
    ||| c == '\u{2028}'
    ||| c == '\u{2029}'
    ||| c == '\u{202f}'
    ||| c == '\u{205f}'
    ||| c == '\u{3000}'
}

/// Whether a character is white space.
pub fn is_whitespace(c: char) -> (space: bool)
    ensures
        space == is_space(c),
{
    ('\u{9}' <= c && c <= '\u{d}') || c == ' ' || c == '\u{85}' || c == '\u{a0}' || c == '\u{1680}'
        || ('\u{2000}' <= c && c <= '\u{200a}') || c == '\u{2028}' || c == '\u{2029}'
        || c == '\u{202f}' || c == '\u{205f}' || c == '\u{3000}'
}

/// A text without its leading white space.
pub open spec fn trim_start(text: Seq<char>) -> Seq<char>
    decreases text.len(),
{
    if text.len() > 0 && is_space(text[0]) {
        trim_start(text.drop_first())
    } else {
        text
    }
}

/// A text without its trailing white space.
pub open spec fn trim_end(text: Seq<char>) -> Seq<char>
    decreases text.len(),
{
    if text.len() > 0 && is_space(text.last()) {
        trim_end(text.drop_last())
    } else {
        text
    }
}

/// A text without white space at either end.
pub open spec fn trimmed(text: Seq<char>) -> Seq<char> {
    trim_end(trim_start(text))
}

/// The part of a slice without white space at either end.
pub fn trim<'a>(text: &'a [char]) -> (inner: &'a [char])
    ensures
        inner@ == trimmed(text@),
{
    let mut from: usize = 0;
    assert(text@.skip(0) =~= text@);
    while from < text.len() && is_whitespace(text[from])
        invariant
            from <= text@.len(),
            trim_start(text@) == trim_start(text@.skip(from as int)),
        decreases text@.len() - from,
    {
        assert(text@.skip(from as int).drop_first() =~= text@.skip(from + 1));
        from = from + 1;
    }
    let ghost started = text@.skip(from as int);
    assert(trim_start(text@) == started);
    let mut to: usize = text.len();
    assert(text@.subrange(from as int, to as int) =~= started);
    while from < to && is_whitespace(text[to - 1])
        invariant
            from <= to <= text@.len(),
            trim_end(started) == trim_end(text@.subrange(from as int, to as int)),
        decreases to,
    {
        assert(text@.subrange(from as int, to as int).drop_last() =~= text@.subrange(
            from as int,
            to - 1,
        ));
        to = to - 1;
    }
    vstd::slice::slice_subrange(text, from, to)
}

/// The place of the first `c`, or the length where there is none.
pub open spec fn index_of(text: Seq<char>, c: char) -> int
    decreases text.len(),
{
    if text.len() == 0 || text[0] == c {
        0
    } else {
        1 + index_of(text.drop_first(), c)
    }
}

pub proof fn lemma_index_of(text: Seq<char>, c: char)
    ensures
        0 <= index_of(text, c) <= text.len(),
        index_of(text, c) < text.len() ==> text[index_of(text, c)] == c,
        forall|i: int| 0 <= i < index_of(text, c) ==> text[i] != c,
    decreases text.len(),
{
    if text.len() > 0 && text[0] != c {
        let rest = text.drop_first();
        lemma_index_of(rest, c);
        assert forall|i: int| 0 <= i < index_of(text, c) implies text[i] != c by {
            if i > 0 {
                assert(text[i] == rest[i - 1]);
            }
        }
    }
}

/// A place that holds `c` with none before it is the first.
pub proof fn lemma_index_of_unique(text: Seq<char>, c: char, at: int)
    requires
        0 <= at <= text.len(),
        at < text.len() ==> text[at] == c,
        forall|i: int| 0 <= i < at ==> text[i] != c,
    ensures
        index_of(text, c) == at,
{
    lemma_index_of(text, c);
    let found = index_of(text, c);
    if found < at {
        assert(text[found] != c);
    }
}

/// The place of the first `c` in a slice.
pub fn find(text: &[char], c: char) -> (at: usize)
    ensures
        at == index_of(text@, c),
        at <= text@.len(),
{
    let mut i: usize = 0;
    while i < text.len() && text[i] != c
        invariant
            i <= text@.len(),
            forall|j: int| 0 <= j < i ==> text@[j] != c,
        decreases text@.len() - i,
    {
        i = i + 1;
    }
    proof {
        lemma_index_of_unique(text@, c, i as int);
    }
    i
}

/// Whether a text is one or more decimal digits.
pub open spec fn all_digits(text: Seq<char>) -> bool {
    text.len() > 0 && forall|i: int| 0 <= i < text.len() ==> '0' <= #[trigger] text[i] <= '9'
}

/// The number that decimal digits spell.
pub open spec fn digits_value(text: Seq<char>) -> nat
    decreases text.len(),
{
    if text.len() == 0 {
        0
    } else {
        10 * digits_value(text.drop_last()) + (text.last() as nat - 48) as nat
    }
}

/// A decimal number with an optional sign.
pub open spec fn signed_value(text: Seq<char>) -> Option<int> {
    if text.len() > 0 && (text[0] == '-' || text[0] == '+') {
        if all_digits(text.drop_first()) {
            if text[0] == '-' {
                Some(-(digits_value(text.drop_first()) as int))
            } else {
                Some(digits_value(text.drop_first()) as int)
            }
        } else {
            None
        }
    } else if all_digits(text) {
        Some(digits_value(text) as int)
    } else {
        None
    }
}

/// A decimal number with an optional sign that a signed 64-bit integer holds.
pub open spec fn i64_value(text: Seq<char>) -> Option<int> {
    match signed_value(text) {
        Some(n) => if i64::MIN <= n <= i64::MAX {
            Some(n)
        } else {
            None
        },
        None => None,
    }
}

proof fn lemma_digits_value_prefix(text: Seq<char>, n: int)
    requires
        0 <= n <= text.len(),
        forall|i: int| 0 <= i < text.len() ==> '0' <= #[trigger] text[i] <= '9',
    ensures
        digits_value(text.take(n)) <= digits_value(text),
    decreases text.len() - n,
{
    if n < text.len() {
        lemma_digits_value_prefix(text, n + 1);
        assert(text.take(n + 1).drop_last() =~= text.take(n));
    } else {
        assert(text.take(n) =~= text);
    }
}

/// The number that digits spell, where it is at most `2^63`.
fn parse_digits(text: &[char]) -> (value: Option<u64>)
    ensures
        match value {
            Some(v) => all_digits(text@) && v == digits_value(text@) && v <= 0x8000_0000_0000_0000,
            None => !all_digits(text@) || digits_value(text@) > 0x8000_0000_0000_0000,
        },
{
    if text.len() == 0 {
        return None;
    }
    let mut value: u64 = 0;
    let mut over: bool = false;
    let mut i: usize = 0;
    while i < text.len()
        invariant
            i <= text@.len(),
            forall|j: int| 0 <= j < i ==> '0' <= #[trigger] text@[j] <= '9',
            !over ==> value == digits_value(text@.take(i as int)) && value <= 0x8000_0000_0000_0000,
            over ==> digits_value(text@.take(i as int)) > 0x8000_0000_0000_0000,
        decreases text@.len() - i,
    {
        let c: char = text[i];
        if c < '0' || c > '9' {
            return None;
        }
        let digit: u64 = (c as u32 - 48) as u64;
        assert(text@.take(i + 1).drop_last() =~= text@.take(i as int));
        assert(text@.take(i + 1).last() == c);
        if !over {
            if value > (0x8000_0000_0000_0000 - digit) / 10 {
                over = true;
            } else {
                value = value * 10 + digit;
            }
        }
        i = i + 1;
    }
    assert(text@.take(text@.len() as int) =~= text@);
    if over {
        None
    } else {
        Some(value)
    }
}

/// Reads a signed 64-bit decimal number.
pub fn parse_i64(text: &[char]) -> (value: Option<i64>)
    ensures
        match value {
            Some(v) => i64_value(text@) == Some(v as int),
            None => i64_value(text@) is None,
        },
{
    if text.len() > 0 && (text[0] == '-' || text[0] == '+') {
        let digits: &[char] = vstd::slice::slice_subrange(text, 1, text.len());
        assert(digits@ =~= text@.drop_first());
        match parse_digits(digits) {
            Some(magnitude) => {
                if text[0] == '-' {
                    Some((-(magnitude as i128)) as i64)
                } else if magnitude <= 0x7fff_ffff_ffff_ffff {
                    Some(magnitude as i64)
                } else {
                    None
                }
            },
            None => None,
        }
    } else {
        match parse_digits(text) {
            Some(magnitude) => {
                if magnitude <= 0x7fff_ffff_ffff_ffff {
                    Some(magnitude as i64)
                } else {
                    None
                }
            },
            None => None,
        }
    }
}

pub proof fn lemma_decimal(n: nat)
    ensures
        all_digits(decimal(n)),
        digits_value(decimal(n)) == n,
    decreases n,
{
    if n < 10 {
        reveal_with_fuel(digits_value, 2);
        assert(decimal(n).drop_last() =~= Seq::<char>::empty());
    } else {
        lemma_decimal(n / 10);
        let front = decimal(n / 10);
        assert(decimal(n).drop_last() =~= front);
        assert forall|i: int| 0 <= i < decimal(n).len() implies '0' <= #[trigger] decimal(n)[i]
            <= '9' by {
            if i < front.len() {
                assert(decimal(n)[i] == front[i]);
            }
        }
    }
}

/// Reading back a number that was written in decimal gives the number.
pub proof fn decimal_round_trips(n: int)
    requires
        i64::MIN <= n <= i64::MAX,
    ensures
        i64_value(decimal_int(n)) == Some(n),
{
    if n >= 0 {
        lemma_decimal(n as nat);
        assert(decimal(n as nat)[0] != '-' && decimal(n as nat)[0] != '+');
    } else {
        lemma_decimal((-n) as nat);
        assert(decimal_int(n).drop_first() =~= decimal((-n) as nat));
    }
}

/// The `{:?}` form of a text: quoted, with escapes.
pub uninterp spec fn quoted(text: Seq<char>) -> Seq<char>;

/// `str`'s `Debug` form, by way of `format!`: a function of the text alone.
#[verifier::external_body]
pub(crate) fn quote(text: &str) -> (q: String)
    ensures
        q@ == quoted(text@),
{
    format!("{:?}", text)
}

/// Why a text is not a decimal number.
#[derive(Debug, Clone, Copy, PartialEq, Eq, Structural)]
pub enum NumberError {
    Empty,
    InvalidDigit,
    TooLarge,
    TooSmall,
}

impl NumberError {
    /// The message shown to an operator.
    pub open spec fn text(self) -> Seq<char> {
        match self {
            NumberError::Empty => "cannot parse integer from empty string"@,
            NumberError::InvalidDigit => "invalid digit found in string"@,
            NumberError::TooLarge => "number too large to fit in target type"@,
            NumberError::TooSmall => "number too small to fit in target type"@,
        }
    }

    /// The message shown to an operator.
    pub fn message(&self) -> (m: &'static str)
        ensures
            m@ == self.text(),
    {
        match self {
            NumberError::Empty => "cannot parse integer from empty string",
            NumberError::InvalidDigit => "invalid digit found in string",
            NumberError::TooLarge => "number too large to fit in target type",
            NumberError::TooSmall => "number too small to fit in target type",
        }
    }
}

/// The number that digits spell, read from the left up to the first one that
/// is no digit or takes the number above `max`.
pub open spec fn digits_read(digits: Seq<char>, max: nat) -> Result<nat, NumberError>
    decreases digits.len(),
{
    if digits.len() == 0 {
        Ok(0)
    } else {
        match digits_read(digits.drop_last(), max) {
            Err(e) => Err(e),
            Ok(value) => if !('0' <= digits.last() <= '9') {
                Err(NumberError::InvalidDigit)
            } else if value * 10 + (digits.last() as nat - 48) > max {
                Err(NumberError::TooLarge)
            } else {
                Ok((value * 10 + (digits.last() as nat - 48)) as nat)
            },
        }
    }
}

/// The number from 0 to `max` that a text spells, with or without a plus sign.
pub open spec fn number_read(text: Seq<char>, max: nat) -> Result<nat, NumberError> {
    if text.len() == 0 {
        Err(NumberError::Empty)
    } else if text == seq!['+'] {
        Err(NumberError::InvalidDigit)
    } else if text[0] == '+' {
        digits_read(text.skip(1), max)
    } else {
        digits_read(text, max)
    }
}

/// An error in the first digits is the error of all.
proof fn lemma_digits_fail(digits: Seq<char>, n: int, max: nat)
    requires
        0 <= n <= digits.len(),
        digits_read(digits.take(n), max) is Err,
    ensures
        digits_read(digits, max) == digits_read(digits.take(n), max),
    decreases digits.len() - n,
{
    if n == digits.len() {
        assert(digits.take(n) =~= digits);
    } else {
        assert(digits.take(n + 1).drop_last() =~= digits.take(n));
        lemma_digits_fail(digits, n + 1, max);
    }
}

fn read_digits(digits: &[char], max: u64) -> (value: Result<u64, NumberError>)
    ensures
        match value {
            Ok(v) => digits_read(digits@, max as nat) == Ok::<nat, NumberError>(v as nat),
            Err(e) => digits_read(digits@, max as nat) == Err::<nat, NumberError>(e),
        },
{
    let mut value: u64 = 0;
    let mut i: usize = 0;
    while i < digits.len()
        invariant
            i <= digits@.len(),
            value <= max,
            digits_read(digits@.take(i as int), max as nat) == Ok::<nat, NumberError>(value as nat),
        decreases digits@.len() - i,
    {
        let c: char = digits[i];
        let ghost taken = digits@.take(i + 1);
        assert(taken.drop_last() =~= digits@.take(i as int));
        assert(taken.last() == c);
        if c < '0' || c > '9' {
            proof {
                lemma_digits_fail(digits@, i + 1, max as nat);
            }
            return Err(NumberError::InvalidDigit);
        }
        let next: u128 = value as u128 * 10 + (c as u32 - 48) as u128;
        if next > max as u128 {
            proof {
                lemma_digits_fail(digits@, i + 1, max as nat);
            }
            return Err(NumberError::TooLarge);
        }
        value = next as u64;
        i = i + 1;
    }
    assert(digits@.take(digits@.len() as int) =~= digits@);
    Ok(value)
}

/// Reads a number from 0 to `max`.
pub fn parse_number(text: &str, max: u64) -> (value: Result<u64, NumberError>)
    ensures
        match value {
            Ok(v) => v <= max && number_read(text@, max as nat) == Ok::<nat, NumberError>(v as nat),
            Err(e) => number_read(text@, max as nat) == Err::<nat, NumberError>(e),
        },
{
    let chars: Vec<char> = chars_of(text);
    if chars.len() == 0 {
        return Err(NumberError::Empty);
    }
    if chars[0] == '+' {
        if chars.len() == 1 {
            assert(text@ =~= seq!['+']);
            return Err(NumberError::InvalidDigit);
        }
        let digits: &[char] = vstd::slice::slice_subrange(chars.as_slice(), 1, chars.len());
        assert(digits@ =~= text@.skip(1));
        let value: Result<u64, NumberError> = read_digits(digits, max);
        proof {
            lemma_digits_bound(text@.skip(1), max as nat);
        }
        value
    } else {
        assert(text@[0] != '+');
        let value: Result<u64, NumberError> = read_digits(chars.as_slice(), max);
        proof {
            lemma_digits_bound(text@, max as nat);
        }
        value
    }
}

proof fn lemma_digits_bound(digits: Seq<char>, max: nat)
    ensures
        digits_read(digits, max) matches Ok(v) ==> v <= max,
{
}

/// The entries of a comma-separated list, without white space around them and
/// without the empty ones.
pub open spec fn list_items(text: Seq<char>) -> Seq<Seq<char>>
    decreases text.len(),
{
    let at = index_of(text, ',');
    proof {
        lemma_index_of(text, ',');
    }
    let item = trimmed(text.take(at));
    let rest = if at < text.len() {
        list_items(text.skip(at + 1))
    } else {
        Seq::empty()
    };
    if item.len() == 0 {
        rest
    } else {
        seq![item] + rest
    }
}

/// The texts of some strings.
pub open spec fn texts(strings: Seq<String>) -> Seq<Seq<char>> {
    strings.map_values(|s: String| s@)
}

/// Reads a comma-separated list.
pub fn split_list(text: &str) -> (items: Vec<String>)
    ensures
        texts(items@) == list_items(text@),
{
    let chars: Vec<char> = chars_of(text);
    let mut items: Vec<String> = Vec::new();
    let mut from: usize = 0;
    assert(text@.skip(0) =~= text@);
    assert(texts(items@) + list_items(text@.skip(0)) =~= list_items(text@));
    loop
        invariant_except_break
            chars@ == text@,
            from <= chars@.len(),
            texts(items@) + list_items(text@.skip(from as int)) == list_items(text@),
        ensures
            texts(items@) == list_items(text@),
        decreases chars@.len() - from,
    {
        let rest: &[char] = vstd::slice::slice_subrange(chars.as_slice(), from, chars.len());
        assert(rest@ =~= text@.skip(from as int));
        let at: usize = find(rest, ',');
        let field: &[char] = vstd::slice::slice_subrange(rest, 0, at);
        assert(field@ =~= rest@.take(at as int));
        let item: &[char] = trim(field);
        let ghost before = items@;
        if item.len() > 0 {
            items.push(string_of(item));
            assert(texts(items@) =~= texts(before) + seq![item@]);
        }
        if at == rest.len() {
            assert(texts(items@) =~= list_items(text@));
            break;
        }
        assert(rest@.skip(at + 1) =~= text@.skip(from + at + 1));
        from = from + at + 1;
        assert(texts(items@) + list_items(text@.skip(from as int)) =~= list_items(text@));
    }
    items
}

/// How far below zero a signed 64-bit number goes.
pub const I64_DEPTH: u64 = 0x8000_0000_0000_0000;

/// The signed 64-bit number that a text spells, with or without a sign.
pub open spec fn signed_read(text: Seq<char>) -> Result<int, NumberError> {
    if text.len() > 0 && text[0] == '-' {
        if text.len() == 1 {
            Err(NumberError::InvalidDigit)
        } else {
            match digits_read(text.skip(1), I64_DEPTH as nat) {
                Ok(n) => Ok(-(n as int)),
                Err(NumberError::TooLarge) => Err(NumberError::TooSmall),
                Err(e) => Err(e),
            }
        }
    } else {
        match number_read(text, i64::MAX as nat) {
            Ok(n) => Ok(n as int),
            Err(e) => Err(e),
        }
    }
}

/// Reads a signed 64-bit number.
pub fn parse_signed(text: &str) -> (value: Result<i64, NumberError>)
    ensures
        match value {
            Ok(v) => signed_read(text@) == Ok::<int, NumberError>(v as int),
            Err(e) => signed_read(text@) == Err::<int, NumberError>(e),
        },
{
    let chars: Vec<char> = chars_of(text);
    if chars.len() > 0 && chars[0] == '-' {
        if chars.len() == 1 {
            return Err(NumberError::InvalidDigit);
        }
        let digits: &[char] = vstd::slice::slice_subrange(chars.as_slice(), 1, chars.len());
        assert(digits@ =~= text@.skip(1));
        proof {
            lemma_digits_bound(text@.skip(1), I64_DEPTH as nat);
        }
        return match read_digits(digits, I64_DEPTH) {
            Ok(n) => Ok((-(n as i128)) as i64),
            Err(NumberError::TooLarge) => Err(NumberError::TooSmall),
            Err(e) => Err(e),
        };
    }
    match parse_number(text, 0x7fff_ffff_ffff_ffff) {
        Ok(n) => Ok(n as i64),
        Err(e) => Err(e),
    }
}

/// A number in decimal has no leading zero, and none but zero starts with one.
pub proof fn decimals_have_no_leading_zero(n: nat)
    ensures
        decimal(n).len() > 0,
        decimal(n)[0] == '0' <==> n == 0,
        n == 0 ==> decimal(n).len() == 1,
    decreases n,
{
    if n >= 10 {
        decimals_have_no_leading_zero(n / 10);
    }
}

/// The sign of a number is written only where it is negative, and what is
/// written spells the number.
pub proof fn a_written_number_spells_itself(n: int)
    ensures
        decimal_int(n)[0] == '-' <==> n < 0,
        n >= 0 ==> all_digits(decimal_int(n)) && digits_value(decimal_int(n)) == n,
        n < 0 ==> all_digits(decimal_int(n).skip(1)) && digits_value(decimal_int(n).skip(1)) == -n,
{
    if n >= 0 {
        lemma_decimal(n as nat);
    } else {
        lemma_decimal((-n) as nat);
        assert(decimal_int(n).skip(1) =~= decimal((-n) as nat));
    }
}

/// Of the characters below 128, those from the horizontal tab to the carriage
/// return and the space are white space, and no other is.
pub proof fn ascii_white_space(c: char)
    requires
        c <= '\u{7f}',
    ensures
        is_space(c) <==> c == ' ' || c == '\t' || c == '\n' || c == '\u{b}' || c == '\u{c}' || c
            == '\r',
{
}

proof fn lemma_trim_start_of(spaces: Seq<char>, text: Seq<char>)
    requires
        forall|i: int| 0 <= i < spaces.len() ==> is_space(#[trigger] spaces[i]),
    ensures
        trim_start(spaces + text) == trim_start(text),
    decreases spaces.len(),
{
    if spaces.len() == 0 {
        assert(spaces + text =~= text);
    } else {
        let rest = spaces.drop_first();
        assert((spaces + text)[0] == spaces[0]);
        assert((spaces + text).drop_first() =~= rest + text);
        assert forall|i: int| 0 <= i < rest.len() implies is_space(#[trigger] rest[i]) by {
            assert(rest[i] == spaces[i + 1]);
        }
        lemma_trim_start_of(rest, text);
    }
}

proof fn lemma_trim_end_of(text: Seq<char>, spaces: Seq<char>)
    requires
        forall|i: int| 0 <= i < spaces.len() ==> is_space(#[trigger] spaces[i]),
    ensures
        trim_end(text + spaces) == trim_end(text),
    decreases spaces.len(),
{
    if spaces.len() == 0 {
        assert(text + spaces =~= text);
    } else {
        let rest = spaces.drop_last();
        assert((text + spaces).last() == spaces.last());
        assert((text + spaces).drop_last() =~= text + rest);
        lemma_trim_end_of(text, rest);
    }
}

/// Trimming takes away exactly the white space at the ends: a text that has
/// none there comes out of any padding as it is.
pub proof fn trimming_takes_only_what_is_around(
    before: Seq<char>,
    text: Seq<char>,
    after: Seq<char>,
)
    requires
        forall|i: int| 0 <= i < before.len() ==> is_space(#[trigger] before[i]),
        forall|i: int| 0 <= i < after.len() ==> is_space(#[trigger] after[i]),
        text.len() > 0 ==> !is_space(text[0]) && !is_space(text.last()),
    ensures
        trimmed(before + text + after) == text,
{
    assert(before + text + after =~= before + (text + after));
    lemma_trim_start_of(before, text + after);
    if text.len() > 0 {
        assert((text + after)[0] == text[0]);
        lemma_trim_end_of(text, after);
    } else {
        assert(text + after =~= after + text);
        lemma_trim_start_of(after, text);
        assert(text =~= Seq::<char>::empty());
    }
}

/// Digits are read as the number that they spell where it is at most `max`, and
/// are too large where it is more. A text with another character in it is not
/// read.
proof fn lemma_digits_read(digits: Seq<char>, max: nat)
    ensures
        (forall|i: int| 0 <= i < digits.len() ==> '0' <= #[trigger] digits[i] <= '9')
            ==> digits_read(digits, max) == if digits_value(digits) <= max {
            Ok::<nat, NumberError>(digits_value(digits))
        } else {
            Err(NumberError::TooLarge)
        },
        !(forall|i: int| 0 <= i < digits.len() ==> '0' <= #[trigger] digits[i] <= '9')
            ==> digits_read(digits, max) == Err::<nat, NumberError>(NumberError::InvalidDigit)
            || digits_read(digits, max) == Err::<nat, NumberError>(NumberError::TooLarge),
        digits_read(digits, max) == Err::<nat, NumberError>(NumberError::InvalidDigit) ==> !(forall|
            i: int,
        |
            0 <= i < digits.len() ==> '0' <= #[trigger] digits[i] <= '9'),
    decreases digits.len(),
{
    if digits.len() > 0 {
        let front = digits.drop_last();
        lemma_digits_read(front, max);
        let all = forall|i: int| 0 <= i < digits.len() ==> '0' <= #[trigger] digits[i] <= '9';
        let most = forall|i: int| 0 <= i < front.len() ==> '0' <= #[trigger] front[i] <= '9';
        if all {
            assert forall|i: int| 0 <= i < front.len() implies '0' <= #[trigger] front[i]
                <= '9' by {
                assert(front[i] == digits[i]);
            }
        } else if most && '0' <= digits.last() <= '9' {
            assert forall|i: int| 0 <= i < digits.len() implies '0' <= #[trigger] digits[i]
                <= '9' by {
                if i < front.len() {
                    assert(digits[i] == front[i]);
                }
            }
        }
    }
}

/// A text is read as a number exactly where it is digits, with or without a plus
/// sign, and they spell a number of at most `max`. Nothing is read from an empty
/// text, and a text of digits that is not read spells too much.
pub proof fn a_number_is_read_as_it_is_spelled(text: Seq<char>, max: nat, n: nat)
    ensures
        number_read(text, max) == Ok::<nat, NumberError>(n) <==> n <= max && ((all_digits(text)
            && digits_value(text) == n) || (text.len() > 0 && text[0] == '+' && all_digits(
            text.skip(1),
        ) && digits_value(text.skip(1)) == n)),
        number_read(text, max) == Err::<nat, NumberError>(NumberError::Empty) <==> text.len() == 0,
        all_digits(text) && digits_value(text) > max ==> number_read(text, max) == Err::<
            nat,
            NumberError,
        >(NumberError::TooLarge),
        number_read(text, max) == Err::<nat, NumberError>(NumberError::InvalidDigit)
            ==> !all_digits(text),
        number_read(text, max) != Err::<nat, NumberError>(NumberError::TooSmall),
{
    lemma_digits_read(text, max);
    if text.len() > 0 {
        let rest = text.skip(1);
        lemma_digits_read(rest, max);
        if text[0] == '+' {
            assert(!('0' <= text[0] <= '9'));
            if text.len() == 1 {
                assert(text =~= seq!['+']);
            }
        }
        assert(rest.len() == text.len() - 1);
        if text == seq!['+'] {
            assert(text.len() == 1);
        }
    }
}

/// A signed text is read exactly where it spells a number that a signed 64-bit
/// integer holds, and read as that number.
pub proof fn a_signed_number_is_read_as_it_is_spelled(text: Seq<char>, n: int)
    ensures
        signed_read(text) == Ok::<int, NumberError>(n) <==> i64_value(text) == Some(n),
        signed_read(text) == Err::<int, NumberError>(NumberError::TooSmall) ==> text.len() > 0
            && text[0] == '-',
        signed_read(text) == Err::<int, NumberError>(NumberError::TooLarge) ==> text.len() > 0
            && text[0] != '-',
        signed_read(text) == Err::<int, NumberError>(NumberError::Empty) <==> text.len() == 0,
{
    lemma_digits_read(text, i64::MAX as nat);
    if text.len() > 0 {
        let rest = text.skip(1);
        assert(rest =~= text.drop_first());
        lemma_digits_read(rest, I64_DEPTH as nat);
        if n >= 0 {
            a_number_is_read_as_it_is_spelled(text, i64::MAX as nat, n as nat);
        }
        a_number_is_read_as_it_is_spelled(text, i64::MAX as nat, 0);
        assert(text[0] == '-' ==> !('0' <= text[0] <= '9'));
        assert(text[0] == '+' ==> !('0' <= text[0] <= '9'));
    }
}

/// Two lists that are joined by a comma are one list with the entries of both.
pub proof fn joined_lists_are_one(a: Seq<char>, b: Seq<char>)
    ensures
        list_items(a + seq![','] + b) == list_items(a) + list_items(b),
    decreases a.len(),
{
    let whole = a + seq![','] + b;
    let at = index_of(a, ',');
    lemma_index_of(a, ',');
    if at < a.len() {
        assert forall|i: int| 0 <= i < at implies whole[i] != ',' by {
            assert(whole[i] == a[i]);
        }
        assert(whole[at] == a[at]);
        lemma_index_of_unique(whole, ',', at);
        assert(whole.take(at) =~= a.take(at));
        assert(whole.skip(at + 1) =~= a.skip(at + 1) + seq![','] + b);
        joined_lists_are_one(a.skip(at + 1), b);
        assert(list_items(whole) =~= list_items(a) + list_items(b));
    } else {
        assert forall|i: int| 0 <= i < a.len() implies whole[i] != ',' by {
            assert(whole[i] == a[i]);
        }
        assert(whole[a.len() as int] == ',');
        lemma_index_of_unique(whole, ',', a.len() as int);
        assert(whole.take(a.len() as int) =~= a);
        assert(a.take(at) =~= a);
        assert(whole.skip(a.len() as int + 1) =~= b);
        assert(list_items(whole) =~= list_items(a) + list_items(b));
    }
}

/// A list without a comma has one entry, the text without the white space around
/// it, or none where nothing is left of it.
pub proof fn a_list_of_one(text: Seq<char>)
    requires
        forall|i: int| 0 <= i < text.len() ==> text[i] != ',',
    ensures
        trimmed(text).len() > 0 ==> list_items(text) == seq![trimmed(text)],
        trimmed(text).len() == 0 ==> list_items(text).len() == 0,
{
    lemma_index_of_unique(text, ',', text.len() as int);
    assert(text.take(text.len() as int) =~= text);
    assert(seq![trimmed(text)] + Seq::<Seq<char>>::empty() =~= seq![trimmed(text)]);
}

/// Texts are ordered by the first character in which they differ, and a text
/// comes before every longer one that it starts.
pub proof fn texts_are_ordered_by_their_first_difference(
    start: Seq<char>,
    x: char,
    y: char,
    after_x: Seq<char>,
    after_y: Seq<char>,
)
    ensures
        x != y ==> (text_before(start + seq![x] + after_x, start + seq![y] + after_y) <==> x < y),
        text_before(start, start + seq![x] + after_x),
    decreases start.len(),
{
    let a = start + seq![x] + after_x;
    let b = start + seq![y] + after_y;
    if start.len() > 0 {
        let rest = start.drop_first();
        texts_are_ordered_by_their_first_difference(rest, x, y, after_x, after_y);
        assert(a.drop_first() =~= rest + seq![x] + after_x);
        assert(b.drop_first() =~= rest + seq![y] + after_y);
        assert(a[0] == start[0] && b[0] == start[0]);
    } else {
        assert(a[0] == x && b[0] == y);
    }
}

/// Whether a text holds another within it.
pub open spec fn shows(text: Seq<char>, part: Seq<char>) -> bool {
    exists|at: int|
        0 <= at <= text.len() - part.len() && #[trigger] text.subrange(at, at + part.len()) == part
}

pub proof fn lemma_shows_within(before: Seq<char>, part: Seq<char>, after: Seq<char>)
    ensures
        shows(before + part + after, part),
{
    let text = before + part + after;
    let at = before.len() as int;
    assert(text.subrange(at, at + part.len()) =~= part);
}

pub proof fn lemma_shows_more(before: Seq<char>, text: Seq<char>, after: Seq<char>, part: Seq<char>)
    requires
        shows(text, part),
    ensures
        shows(before + text + after, part),
{
    let at = choose|at: int|
        0 <= at <= text.len() - part.len() && #[trigger] text.subrange(at, at + part.len()) == part;
    let whole = before + text + after;
    let to = before.len() + at;
    assert(whole.subrange(to, to + part.len()) =~= text.subrange(at, at + part.len()));
}

/// A text that starts or ends with a part holds it.
pub proof fn lemma_shows_at_the_ends(part: Seq<char>, rest: Seq<char>)
    ensures
        shows(part + rest, part),
        shows(rest + part, part),
{
    lemma_shows_within(Seq::empty(), part, rest);
    assert(Seq::<char>::empty() + part + rest =~= part + rest);
    lemma_shows_within(rest, part, Seq::empty());
    assert(rest + part + Seq::empty() =~= rest + part);
}

/// A text that goes on still holds what it held.
pub proof fn lemma_shows_going_on(text: Seq<char>, part: Seq<char>, more: Seq<char>)
    requires
        shows(text, part),
    ensures
        shows(text + more, part),
{
    lemma_shows_more(Seq::empty(), text, more, part);
    assert(Seq::<char>::empty() + text + more =~= text + more);
}

/// A text that names two things holds both.
pub proof fn lemma_shows_both(
    before: Seq<char>,
    first: Seq<char>,
    between: Seq<char>,
    second: Seq<char>,
)
    ensures
        shows(before + first + between + second, first),
        shows(before + first + between + second, second),
{
    lemma_shows_at_the_ends(first, before);
    lemma_shows_going_on(before + first, first, between);
    lemma_shows_going_on(before + first + between, first, second);
    lemma_shows_at_the_ends(second, before + first + between);
}

} // verus!
