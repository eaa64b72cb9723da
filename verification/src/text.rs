//! Text of numbers and numbers of text: what the library reads from and
//! writes into strings.

use vstd::prelude::*;

verus! {

/// The upper-case hexadecimal digit of a number below 16.
pub open spec fn hex_digit_upper(n: int) -> char {
    if n == 0 {
        '0'
    } else if n == 1 {
        '1'
    } else if n == 2 {
        '2'
    } else if n == 3 {
        '3'
    } else if n == 4 {
        '4'
    } else if n == 5 {
        '5'
    } else if n == 6 {
        '6'
    } else if n == 7 {
        '7'
    } else if n == 8 {
        '8'
    } else if n == 9 {
        '9'
    } else if n == 10 {
        'A'
    } else if n == 11 {
        'B'
    } else if n == 12 {
        'C'
    } else if n == 13 {
        'D'
    } else if n == 14 {
        'E'
    } else {
        'F'
    }
}

/// Upper-case hexadecimal text of bytes: two digits for each byte, the
/// high nibble first.
pub open spec fn hex_upper(bytes: Seq<u8>) -> Seq<char>
    decreases bytes.len(),
{
    if bytes.len() == 0 {
        Seq::empty()
    } else {
        hex_upper(bytes.drop_last()) + seq![
            hex_digit_upper(bytes.last() as int / 16),
            hex_digit_upper(bytes.last() as int % 16),
        ]
    }
}

/// Value of a decimal digit.
pub open spec fn decimal_digit_value(c: char) -> Option<int> {
    if '0' <= c <= '9' {
        Some(c as int - '0' as int)
    } else {
        None
    }
}

/// Value of a hexadecimal digit of either case.
pub open spec fn hex_digit_value(c: char) -> Option<int> {
    if '0' <= c <= '9' {
        Some(c as int - '0' as int)
    } else if 'a' <= c <= 'f' {
        Some(c as int - 'a' as int + 10)
    } else if 'A' <= c <= 'F' {
        Some(c as int - 'A' as int + 10)
    } else {
        None
    }
}

/// Value of a digit in base 10 or, for every other base, in base 16.
pub open spec fn digit_value(c: char, base: int) -> Option<int> {
    if base == 10 {
        decimal_digit_value(c)
    } else {
        hex_digit_value(c)
    }
}

/// Value of a sequence of digits; `None` where a character is no digit.
/// The empty sequence has the value 0.
pub open spec fn digits_value(text: Seq<char>, base: int) -> Option<int>
    decreases text.len(),
{
    if text.len() == 0 {
        Some(0)
    } else {
        match (digits_value(text.drop_last(), base), digit_value(text.last(), base)) {
            (Some(high), Some(low)) => Some(high * base + low),
            _ => None,
        }
    }
}

/// Value of the text of a number without sign: an optional `+` and at
/// least one digit; `None` for any other text.
pub open spec fn unsigned_value(text: Seq<char>, base: int) -> Option<int> {
    let digits = if text.len() > 0 && text[0] == '+' {
        text.skip(1)
    } else {
        text
    };
    if digits.len() == 0 {
        None
    } else {
        digits_value(digits, base)
    }
}

/// The `usize` that a decimal text stands for; `None` where the text is no
/// number or the number does not fit.
pub open spec fn decimal_usize(text: Seq<char>) -> Option<usize> {
    match unsigned_value(text, 10) {
        Some(v) => if v <= usize::MAX {
            Some(v as usize)
        } else {
            None
        },
        None => None,
    }
}

/// The byte that a hexadecimal text stands for; `None` where the text is
/// no number or the number does not fit.
pub open spec fn hex_u8(text: Seq<char>) -> Option<u8> {
    match unsigned_value(text, 16) {
        Some(v) => if v <= 255 {
            Some(v as u8)
        } else {
            None
        },
        None => None,
    }
}

/// The text without the prefixes `0x` that it starts with.
pub open spec fn without_hex_prefix(text: Seq<char>) -> Seq<char>
    decreases text.len(),
{
    if text.len() >= 2 && text[0] == '0' && text[1] == 'x' {
        without_hex_prefix(text.skip(2))
    } else {
        text
    }
}

/// The byte that a key of the schema stands for: hexadecimal, with or
/// without the prefix `0x`.
pub open spec fn key_value(key: Seq<char>) -> Option<u8> {
    hex_u8(without_hex_prefix(key))
}

/// Decimal text of a natural number.
pub open spec fn decimal_text(n: nat) -> Seq<char>
    decreases n,
{
    if n < 10 {
        seq![hex_digit_upper(n as int)]
    } else {
        decimal_text(n / 10) + seq![hex_digit_upper((n % 10) as int)]
    }
}

/// Decimal text of an integer: a minus sign before a negative number.
pub open spec fn signed_decimal_text(v: int) -> Seq<char> {
    if v < 0 {
        seq!['-'] + decimal_text((-v) as nat)
    } else {
        decimal_text(v as nat)
    }
}

/// Whether a text is made of hexadecimal digits, an even number of them.
pub open spec fn is_hex_text(text: Seq<char>) -> bool {
    &&& text.len() % 2 == 0
    &&& forall|i: int| 0 <= i < text.len() ==> hex_digit_value(#[trigger] text[i]) is Some
}

/// The bytes of a hexadecimal text: one for each two digits, the high
/// nibble first.
pub open spec fn hex_bytes(text: Seq<char>) -> Seq<u8> {
    Seq::new(
        text.len() / 2,
        |i: int|
            (hex_digit_value(text[2 * i]).unwrap() * 16 + hex_digit_value(
                text[2 * i + 1],
            ).unwrap()) as u8,
    )
}

/// The lower-case letter of an upper-case ASCII letter; every other
/// character is itself.
pub open spec fn ascii_lower_char(c: char) -> char {
    if 'A' <= c <= 'Z' {
        (c as int + 32) as char
    } else {
        c
    }
}

/// A text with each upper-case ASCII letter in lower case.
pub open spec fn ascii_lowercase(text: Seq<char>) -> Seq<char> {
    text.map_values(|c: char| ascii_lower_char(c))
}

/// Upper-case form of a text, as Unicode defines it.
pub uninterp spec fn uppercase_of(text: Seq<char>) -> Seq<char>;

/// Calls `hex::encode_upper`, which writes two upper-case hexadecimal
/// digits for each byte, the high nibble first.
#[verifier::external_body]
pub(crate) fn encode_hex_upper(data: &[u8]) -> (text: String)
    ensures
        text@ == hex_upper(data@),
{
    hex::encode_upper(data)
}

/// The error of `hex::decode`.
#[verifier::external_type_specification]
#[verifier::external_body]
pub struct ExFromHexError(hex::FromHexError);

/// Calls `hex::decode`, which reads two hexadecimal digits of either case
/// as one byte and fails on an odd length and on any other character.
#[verifier::external_body]
pub(crate) fn decode_hex(text: &str) -> (bytes: Result<Vec<u8>, hex::FromHexError>)
    ensures
        bytes is Ok <==> is_hex_text(text@),
        bytes matches Ok(b) ==> b@ == hex_bytes(text@),
{
    hex::decode(text)
}

/// Calls `str::parse::<usize>`, which reads an optional `+` and decimal
/// digits and fails on any other text and on a number that does not fit.
#[verifier::external_body]
pub(crate) fn parse_decimal_usize(text: &str) -> (value: Option<usize>)
    ensures
        value == decimal_usize(text@),
{
    text.parse::<usize>().ok()
}

/// Calls `u8::from_str_radix` with radix 16, which reads an optional `+`
/// and hexadecimal digits of either case and fails on any other text and
/// on a number above 255.
#[verifier::external_body]
pub(crate) fn parse_hex_u8(text: &str) -> (value: Option<u8>)
    ensures
        value == hex_u8(text@),
{
    u8::from_str_radix(text, 16).ok()
}

/// Calls `str::trim_start_matches` with the pattern `0x`, which removes
/// every prefix that matches the pattern, again and again.
#[verifier::external_body]
pub(crate) fn trim_hex_prefix(text: &str) -> (rest: &str)
    ensures
        rest@ == without_hex_prefix(text@),
{
    text.trim_start_matches("0x")
}

/// Calls `str::to_uppercase`, which gives the upper-case form of a text.
#[verifier::external_body]
pub(crate) fn to_uppercase(text: &str) -> (upper: String)
    ensures
        upper@ == uppercase_of(text@),
{
    text.to_uppercase()
}

/// Calls `str::to_ascii_lowercase`, which maps the ASCII letters `A` to
/// `Z` to `a` to `z` and leaves every other character as it is.
#[verifier::external_body]
pub(crate) fn to_ascii_lowercase(text: &str) -> (lower: String)
    ensures
        lower@ == ascii_lowercase(text@),
{
    text.to_ascii_lowercase()
}

/// What is read of bytes as UTF-8, with U+FFFD in place of every
/// sequence that is not valid.
pub uninterp spec fn utf8_lossy_of(bytes: Seq<u8>) -> Seq<char>;

/// Calls `String::from_utf8_lossy`, which reads bytes as UTF-8 and puts
/// U+FFFD in place of every sequence that is not valid.
#[verifier::external_body]
pub(crate) fn from_utf8_lossy(bytes: &[u8]) -> (text: String)
    ensures
        text@ == utf8_lossy_of(bytes@),
{
    String::from_utf8_lossy(bytes).into_owned()
}

/// Calls `i64::to_string`, which gives the decimal text of a number, with
/// a minus sign before a negative one.
#[verifier::external_body]
pub(crate) fn format_signed(v: i64) -> (text: String)
    ensures
        text@ == signed_decimal_text(v as int),
{
    v.to_string()
}

/// Calls `usize::to_string`, which gives the decimal text of a number.
#[verifier::external_body]
pub(crate) fn format_decimal(n: usize) -> (text: String)
    ensures
        text@ == decimal_text(n as nat),
{
    n.to_string()
}

/// The byte that a key of the schema stands for.
pub fn parse_key(key: &str) -> (value: Option<u8>)
    ensures
        value == key_value(key@),
{
    parse_hex_u8(trim_hex_prefix(key))
}

/// The text `0x` and the two upper-case hexadecimal digits of a byte.
pub open spec fn hex_byte_text(value: u8) -> Seq<char> {
    seq!['0', 'x'] + hex_upper(seq![value])
}

/// The text `0x` and the two upper-case hexadecimal digits of a byte.
pub fn format_hex_byte(value: u8) -> (text: String)
    ensures
        text@ == hex_byte_text(value),
{
    let bytes: [u8; 1] = [value];
    let digits = encode_hex_upper(bytes.as_slice());
    proof {
        reveal_strlit("0x");
        assert(bytes@ =~= seq![value]);
    }
    "0x".to_owned().concat(digits.as_str())
}

/// The text followed by ` bits`.
pub fn format_bits(bits: &str) -> (text: String)
    ensures
        text@ == bits@ + " bits"@,
{
    bits.to_owned().concat(" bits")
}

/// Whether two strings hold the same characters.
pub fn same_text(a: &str, b: &str) -> (same: bool)
    ensures
        same == (a@ == b@),
{
    let x = a.to_owned();
    let y = b.to_owned();
    x == y
}

} // verus!
