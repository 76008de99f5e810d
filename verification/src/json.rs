//! JSON text, byte by byte: string escaping, lowercase hexadecimal, decimal
//! numbers, and the writers that append them to an output buffer.

use vstd::prelude::*;

verus! {

/// The ASCII digit that stands for `n` in lowercase hexadecimal, for `n < 16`.
pub open spec fn hex_digit(n: int) -> u8 {
    if n < 10 {
        (48 + n) as u8
    } else {
        (87 + n) as u8
    }
}

/// Two lowercase hexadecimal digits per byte, in order.
pub open spec fn hex_text(bytes: Seq<u8>) -> Seq<u8>
    decreases bytes.len(),
{
    if bytes.len() == 0 {
        Seq::empty()
    } else {
        hex_text(bytes.drop_last()) + seq![
            hex_digit(bytes.last() as int / 16),
            hex_digit(bytes.last() as int % 16),
        ]
    }
}

/// `0x` followed by the hexadecimal digits of `bytes`.
pub open spec fn prefixed_hex_text(bytes: Seq<u8>) -> Seq<u8> {
    seq![48u8, 120u8] + hex_text(bytes)
}

/// What one byte of a string becomes inside a JSON string literal: the quote
/// and the backslash get a backslash in front, the control characters below
/// 0x20 their short escape or `\u00XX`, every other byte stays as it is.
pub open spec fn escape_byte(b: u8) -> Seq<u8> {
    if b == 0x22 {
        seq![0x5cu8, 0x22u8]
    } else if b == 0x5c {
        seq![0x5cu8, 0x5cu8]
    } else if b == 0x08 {
        seq![0x5cu8, 0x62u8]
    } else if b == 0x09 {
        seq![0x5cu8, 0x74u8]
    } else if b == 0x0a {
        seq![0x5cu8, 0x6eu8]
    } else if b == 0x0c {
        seq![0x5cu8, 0x66u8]
    } else if b == 0x0d {
        seq![0x5cu8, 0x72u8]
    } else if b < 0x20 {
        seq![0x5cu8, 0x75u8, 0x30u8, 0x30u8, hex_digit(b as int / 16), hex_digit(b as int % 16)]
    } else {
        seq![b]
    }
}

/// The escaped form of a whole byte string.
pub open spec fn escaped(bytes: Seq<u8>) -> Seq<u8>
    decreases bytes.len(),
{
    if bytes.len() == 0 {
        Seq::empty()
    } else {
        escaped(bytes.drop_last()) + escape_byte(bytes.last())
    }
}

/// A JSON string literal: the escaped bytes between two quotes.
pub open spec fn string_literal(bytes: Seq<u8>) -> Seq<u8> {
    seq![0x22u8] + escaped(bytes) + seq![0x22u8]
}

/// A JSON string literal whose content is written as it is, without escaping.
pub open spec fn raw_literal(bytes: Seq<u8>) -> Seq<u8> {
    seq![0x22u8] + bytes + seq![0x22u8]
}

/// The decimal digits of a natural number, without leading zeros.
pub open spec fn nat_text(n: nat) -> Seq<u8>
    decreases n,
{
    if n < 10 {
        seq![(48 + n) as u8]
    } else {
        nat_text(n / 10) + seq![(48 + n % 10) as u8]
    }
}

/// The decimal form of an integer: a minus sign in front of a negative one.
pub open spec fn int_text(i: int) -> Seq<u8> {
    if i < 0 {
        seq![45u8] + nat_text((-i) as nat)
    } else {
        nat_text(i as nat)
    }
}

/// The value of a hexadecimal digit, in either case; nothing for any other
/// byte.
pub open spec fn hex_digit_value(b: u8) -> Option<int> {
    if 48 <= b <= 57 {
        Some(b - 48)
    } else if 97 <= b <= 102 {
        Some(b - 87)
    } else if 65 <= b <= 70 {
        Some(b - 55)
    } else {
        None
    }
}

/// A text without the `0x` or `0X` that it may begin with.
pub open spec fn unprefixed(text: Seq<u8>) -> Seq<u8> {
    if text.len() >= 2 && text[0] == 48 && (text[1] == 120 || text[1] == 88) {
        text.skip(2)
    } else {
        text
    }
}

/// Whether a text is hexadecimal: an even number of bytes, all of them
/// digits but for the prefix that it may begin with.
pub open spec fn is_hex_text(text: Seq<u8>) -> bool {
    &&& text.len() % 2 == 0
    &&& forall|i: int|
        0 <= i < unprefixed(text).len() ==> hex_digit_value(#[trigger] unprefixed(text)[i])
            is Some
}

/// The bytes that hexadecimal digits stand for, two digits to a byte.
pub open spec fn bytes_of_digits(digits: Seq<u8>) -> Seq<u8> {
    Seq::new(
        digits.len() / 2,
        |i: int|
            (16 * hex_digit_value(digits[2 * i]).unwrap() + hex_digit_value(
                digits[2 * i + 1],
            ).unwrap()) as u8,
    )
}

/// The digits of `bytes` come in pairs, the high half of each byte first.
pub proof fn lemma_hex_text_digits(bytes: Seq<u8>)
    ensures
        hex_text(bytes).len() == 2 * bytes.len(),
        forall|i: int|
            0 <= i < bytes.len() ==> hex_text(bytes)[2 * i] == hex_digit(bytes[i] as int / 16)
                && hex_text(bytes)[2 * i + 1] == hex_digit(bytes[i] as int % 16),
    decreases bytes.len(),
{
    if bytes.len() > 0 {
        let front = bytes.drop_last();
        lemma_hex_text_digits(front);
        assert forall|i: int| 0 <= i < bytes.len() implies hex_text(bytes)[2 * i] == hex_digit(
            bytes[i] as int / 16,
        ) && hex_text(bytes)[2 * i + 1] == hex_digit(bytes[i] as int % 16) by {
            if i < front.len() {
                assert(front[i] == bytes[i]);
                assert(hex_text(bytes)[2 * i] == hex_text(front)[2 * i]);
                assert(hex_text(bytes)[2 * i + 1] == hex_text(front)[2 * i + 1]);
            }
        }
    }
}

/// What is written as hexadecimal is read back: the digits of `bytes`, with
/// `0x` in front or without it, are a hexadecimal text, and the bytes that
/// it stands for are `bytes`.
pub proof fn lemma_written_hex_is_read_back(bytes: Seq<u8>)
    ensures
        is_hex_text(prefixed_hex_text(bytes)),
        bytes_of_digits(unprefixed(prefixed_hex_text(bytes))) == bytes,
        is_hex_text(hex_text(bytes)),
        bytes_of_digits(unprefixed(hex_text(bytes))) == bytes,
{
    lemma_hex_text_digits(bytes);
    let digits = hex_text(bytes);
    assert forall|j: int| 0 <= j < digits.len() implies hex_digit_value(digits[j]) is Some by {
        let i = j / 2;
        let b = bytes[i] as int;
        assert(j == 2 * i || j == 2 * i + 1);
        assert(hex_digit_value(hex_digit(b / 16)) == Some(b / 16));
        assert(hex_digit_value(hex_digit(b % 16)) == Some(b % 16));
    }
    assert(bytes_of_digits(digits) =~= bytes) by {
        assert forall|i: int| 0 <= i < bytes.len() implies bytes_of_digits(digits)[i]
            == bytes[i] by {
            let b = bytes[i] as int;
            assert(hex_digit_value(hex_digit(b / 16)) == Some(b / 16));
            assert(hex_digit_value(hex_digit(b % 16)) == Some(b % 16));
            assert(16 * (b / 16) + b % 16 == b);
        }
    }
    assert(unprefixed(prefixed_hex_text(bytes)) =~= digits);
    assert(unprefixed(digits) == digits) by {
        if digits.len() >= 2 {
            assert(digits[1] == hex_digit(bytes[0] as int % 16));
        }
    }
}

/// The hexadecimal digit for a number below 16.
fn hex_digit_of(n: u8) -> (d: u8)
    requires
        n < 16,
    ensures
        d == hex_digit(n as int),
{
    if n < 10 {
        48 + n
    } else {
        87 + n
    }
}

/// Appends the lowercase hexadecimal digits of `bytes` to `w`.
pub fn write_hex(w: &mut Vec<u8>, bytes: &[u8])
    ensures
        final(w)@ == old(w)@ + hex_text(bytes@),
{
    let n: usize = bytes.len();
    let mut i: usize = 0;
    assert(bytes@.take(0) =~= Seq::<u8>::empty());
    while i < n
        invariant
            0 <= i <= n,
            n == bytes@.len(),
            w@ == old(w)@ + hex_text(bytes@.take(i as int)),
        decreases n - i,
    {
        let b: u8 = bytes[i];
        w.push(hex_digit_of(b / 16));
        w.push(hex_digit_of(b % 16));
        proof {
            let next = bytes@.take(i + 1);
            assert(next.drop_last() =~= bytes@.take(i as int));
            assert(next.last() == b);
        }
        i = i + 1;
    }
    assert(bytes@.take(n as int) =~= bytes@);
}

/// Appends `"0x…"`: the bytes in hexadecimal, prefixed, between quotes.
pub fn write_hex_string(w: &mut Vec<u8>, bytes: &[u8])
    ensures
        final(w)@ == old(w)@ + raw_literal(prefixed_hex_text(bytes@)),
{
    w.push(0x22);
    w.push(48);
    w.push(120);
    write_hex(w, bytes);
    w.push(0x22);
    assert(w@ =~= old(w)@ + raw_literal(prefixed_hex_text(bytes@)));
}

/// Appends what one byte becomes inside a string literal.
fn write_escaped_byte(w: &mut Vec<u8>, b: u8)
    ensures
        final(w)@ == old(w)@ + escape_byte(b),
{
    if b == 0x22 {
        w.push(0x5c);
        w.push(0x22);
    } else if b == 0x5c {
        w.push(0x5c);
        w.push(0x5c);
    } else if b == 0x08 {
        w.push(0x5c);
        w.push(0x62);
    } else if b == 0x09 {
        w.push(0x5c);
        w.push(0x74);
    } else if b == 0x0a {
        w.push(0x5c);
        w.push(0x6e);
    } else if b == 0x0c {
        w.push(0x5c);
        w.push(0x66);
    } else if b == 0x0d {
        w.push(0x5c);
        w.push(0x72);
    } else if b < 0x20 {
        w.push(0x5c);
        w.push(0x75);
        w.push(0x30);
        w.push(0x30);
        w.push(hex_digit_of(b / 16));
        w.push(hex_digit_of(b % 16));
    } else {
        w.push(b);
    }
    assert(w@ =~= old(w)@ + escape_byte(b));
}

/// Appends the escaped form of `bytes` to `w`, without the quotes around it.
pub fn format_escaped_str_contents(w: &mut Vec<u8>, bytes: &[u8])
    ensures
        final(w)@ == old(w)@ + escaped(bytes@),
{
    let n: usize = bytes.len();
    let mut i: usize = 0;
    assert(bytes@.take(0) =~= Seq::<u8>::empty());
    while i < n
        invariant
            0 <= i <= n,
            n == bytes@.len(),
            w@ == old(w)@ + escaped(bytes@.take(i as int)),
        decreases n - i,
    {
        let b: u8 = bytes[i];
        write_escaped_byte(w, b);
        proof {
            let next = bytes@.take(i + 1);
            assert(next.drop_last() =~= bytes@.take(i as int));
            assert(next.last() == b);
        }
        i = i + 1;
    }
    assert(bytes@.take(n as int) =~= bytes@);
}

/// Appends a JSON string literal with the content escaped.
pub fn write_string(w: &mut Vec<u8>, bytes: &[u8])
    ensures
        final(w)@ == old(w)@ + string_literal(bytes@),
{
    w.push(0x22);
    format_escaped_str_contents(w, bytes);
    w.push(0x22);
    assert(w@ =~= old(w)@ + string_literal(bytes@));
}

/// Appends a JSON string literal with the content as it is. The caller knows
/// that the content needs no escaping.
pub fn write_single_fragment_string(w: &mut Vec<u8>, bytes: &[u8])
    ensures
        final(w)@ == old(w)@ + raw_literal(bytes@),
{
    w.push(0x22);
    let n: usize = bytes.len();
    let mut i: usize = 0;
    while i < n
        invariant
            0 <= i <= n,
            n == bytes@.len(),
            w@ == old(w)@ + seq![0x22u8] + bytes@.take(i as int),
        decreases n - i,
    {
        w.push(bytes[i]);
        assert(bytes@.take(i + 1) =~= bytes@.take(i as int).push(bytes@[i as int]));
        i = i + 1;
    }
    assert(bytes@.take(n as int) =~= bytes@);
    w.push(0x22);
    assert(w@ =~= old(w)@ + raw_literal(bytes@));
}


/// Appends the decimal digits of `n`.
pub fn write_nat(w: &mut Vec<u8>, n: u64)
    ensures
        final(w)@ == old(w)@ + nat_text(n as nat),
    decreases n,
{
    if n >= 10 {
        write_nat(w, n / 10);
    }
    let d: u8 = (n % 10) as u8;
    w.push(48 + d);
    assert(w@ =~= old(w)@ + nat_text(n as nat));
}

/// Appends the decimal form of `i`, with a minus sign where it is negative.
pub fn write_int(w: &mut Vec<u8>, i: i64)
    ensures
        final(w)@ == old(w)@ + int_text(i as int),
{
    if i < 0 {
        w.push(45);
        let magnitude: u64 = if i == i64::MIN {
            0x8000_0000_0000_0000
        } else {
            (-i) as u64
        };
        write_nat(w, magnitude);
        assert(w@ =~= old(w)@ + int_text(i as int));
    } else {
        write_nat(w, i as u64);
    }
}


/// The compact text of the JSON value that the bytes hold, as
/// `serde_json` prints it, or the parser's message where they hold none.
pub uninterp spec fn parsed_json(bytes: Seq<u8>) -> Result<Vec<u8>, String>;

/// The compact texts of the elements of the JSON array that the bytes hold.
/// `Ok(None)` where they hold a JSON value that is no array; the parser's
/// message where they hold none.
pub uninterp spec fn parsed_json_array(bytes: Seq<u8>) -> Result<Option<Vec<Vec<u8>>>, String>;

/// The string that a JSON text holds; `None` where the bytes are no JSON
/// string.
pub uninterp spec fn parsed_json_string(bytes: Seq<u8>) -> Option<String>;

/// Calls `serde_json::from_slice` for a `Value` and `Value::to_string` on
/// what comes out.
#[verifier::external_body]
pub(crate) fn parse_json(bytes: &[u8]) -> (r: Result<Vec<u8>, String>)
    ensures
        r == parsed_json(bytes@),
{
    let value: serde_json::Value = serde_json::from_slice(bytes).map_err(|e| e.to_string())?;
    Ok(value.to_string().into_bytes())
}

/// Calls `serde_json::from_slice` for a `Value`, `Value::as_array` on what
/// comes out, and `Value::to_string` on each element.
#[verifier::external_body]
pub(crate) fn parse_json_array(bytes: &[u8]) -> (r: Result<Option<Vec<Vec<u8>>>, String>)
    ensures
        r == parsed_json_array(bytes@),
{
    let value: serde_json::Value = serde_json::from_slice(bytes).map_err(|e| e.to_string())?;
    let text = |v: &serde_json::Value| v.to_string().into_bytes();
    Ok(value.as_array().map(|items| items.iter().map(text).collect()))
}

/// Calls `serde_json::from_slice` for a `Value` and `Value::as_str` on what
/// comes out.
#[verifier::external_body]
pub(crate) fn parse_json_string(bytes: &[u8]) -> (r: Option<String>)
    ensures
        r == parsed_json_string(bytes@),
{
    let value: serde_json::Value = serde_json::from_slice(bytes).ok()?;
    value.as_str().map(|s| s.to_owned())
}

} // verus!
