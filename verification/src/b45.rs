//! Base45: text of 45 symbols that packs two bytes into three characters.

use vstd::prelude::*;
use crate::error::FormatError;
use crate::prefix::is_white_space;

verus! {

/// The value of the Base45 symbol `c`: its place in the alphabet
/// `0-9 A-Z space $ % * + - . / :`. `None` where `c` is no symbol.
#[verifier::opaque]
pub open spec fn digit(c: char) -> Option<int> {
    let n = c as int;
    if 0x30 <= n <= 0x39 {
        Some(n - 0x30)
    } else if 0x41 <= n <= 0x5A {
        Some(n - 0x41 + 10)
    } else if c == ' ' {
        Some(36)
    } else if c == '$' {
        Some(37)
    } else if c == '%' {
        Some(38)
    } else if c == '*' {
        Some(39)
    } else if c == '+' {
        Some(40)
    } else if c == '-' {
        Some(41)
    } else if c == '.' {
        Some(42)
    } else if c == '/' {
        Some(43)
    } else if c == ':' {
        Some(44)
    } else {
        None
    }
}

/// The bytes that the Base45 text `s` stands for.
///
/// Three symbols `c d e` give the two bytes of `c + 45 d + 2025 e`, high byte
/// first, and are rejected where that number exceeds 65535. Two symbols
/// `c d` at the end give the low byte of `c + 45 d`. `None` where a character
/// is no symbol, where a group of three is out of range, or where one symbol
/// is left over.
pub open spec fn decoded(s: Seq<char>) -> Option<Seq<u8>>
    decreases s.len(),
{
    if s.len() == 0 {
        Some(Seq::empty())
    } else if s.len() == 1 {
        None
    } else if s.len() == 2 {
        match (digit(s[0]), digit(s[1])) {
            (Some(c), Some(d)) => Some(seq![((c + 45 * d) % 256) as u8]),
            _ => None,
        }
    } else {
        match (digit(s[0]), digit(s[1]), digit(s[2]), decoded(s.skip(3))) {
            (Some(c), Some(d), Some(e), Some(rest)) => {
                let n = c + 45 * d + 2025 * e;
                if n <= 0xFFFF {
                    Some(seq![(n / 256) as u8, (n % 256) as u8] + rest)
                } else {
                    None
                }
            },
            _ => None,
        }
    }
}

/// The Base45 symbol of value `d`, for `d` from 0 to 44.
#[verifier::opaque]
pub open spec fn symbol(d: int) -> char {
    if 0 <= d <= 9 {
        (0x30 + d) as char
    } else if 10 <= d <= 35 {
        (0x41 + d - 10) as char
    } else if d == 36 {
        ' '
    } else if d == 37 {
        '$'
    } else if d == 38 {
        '%'
    } else if d == 39 {
        '*'
    } else if d == 40 {
        '+'
    } else if d == 41 {
        '-'
    } else if d == 42 {
        '.'
    } else if d == 43 {
        '/'
    } else {
        ':'
    }
}

/// The Base45 text of `bytes`: three symbols for every two bytes, lowest
/// digit first, and two symbols for a last single byte.
pub open spec fn encoded(bytes: Seq<u8>) -> Seq<char>
    decreases bytes.len(),
{
    if bytes.len() == 0 {
        Seq::empty()
    } else if bytes.len() == 1 {
        let n = bytes[0] as int;
        seq![symbol(n % 45), symbol(n / 45)]
    } else {
        let n = bytes[0] * 256 + bytes[1];
        seq![symbol(n % 45), symbol(n / 45 % 45), symbol(n / 2025)] + encoded(bytes.skip(2))
    }
}

/// Every value from 0 to 44 is the value of its symbol.
pub proof fn lemma_digit_symbol(d: int)
    requires
        0 <= d < 45,
    ensures
        digit(symbol(d)) == Some(d),
{
    reveal(digit);
    reveal(symbol);
}

/// A text with a character that is no symbol stands for no bytes.
pub proof fn lemma_decoded_needs_symbols(s: Seq<char>, i: int)
    requires
        0 <= i < s.len(),
        digit(s[i]) is None,
    ensures
        decoded(s) is None,
    decreases s.len(),
{
    if s.len() >= 3 && i >= 3 {
        lemma_decoded_needs_symbols(s.skip(3), i - 3);
    }
}

/// Encoded text does not end in a blank: its last symbol is a high digit,
/// which stays below 36.
pub proof fn lemma_encoded_last(bytes: Seq<u8>)
    ensures
        encoded(bytes).len() == 0 || !is_white_space(encoded(bytes).last()),
    decreases bytes.len(),
{
    if bytes.len() >= 2 {
        let n = bytes[0] * 256 + bytes[1];
        let head = seq![symbol(n % 45), symbol(n / 45 % 45), symbol(n / 2025)];
        let rest = encoded(bytes.skip(2));
        lemma_encoded_last(bytes.skip(2));
        if rest.len() == 0 {
            assert((head + rest).last() == symbol(n / 2025));
            assert(0 <= n / 2025 <= 32);
            assert(!is_white_space(symbol(n / 2025))) by {
                reveal(symbol);
            }
        } else {
            assert((head + rest).last() == rest.last());
        }
    } else if bytes.len() == 1 {
        let n = bytes[0] as int;
        assert(0 <= n / 45 <= 5);
        assert(!is_white_space(symbol(n / 45))) by {
            reveal(symbol);
        }
    }
}

/// Decoding undoes encoding.
pub proof fn lemma_decoded_encoded(bytes: Seq<u8>)
    ensures
        decoded(encoded(bytes)) == Some(bytes),
    decreases bytes.len(),
{
    let text = encoded(bytes);
    if bytes.len() == 0 {
        assert(bytes =~= Seq::<u8>::empty());
    } else if bytes.len() == 1 {
        let n = bytes[0] as int;
        lemma_digit_symbol(n % 45);
        lemma_digit_symbol(n / 45);
        assert(text.len() == 2 && text[0] == symbol(n % 45) && text[1] == symbol(n / 45));
        assert(n % 45 + 45 * (n / 45) == n);
        assert(seq![(n % 256) as u8] =~= bytes);
    } else {
        let n = bytes[0] * 256 + bytes[1];
        let head = seq![symbol(n % 45), symbol(n / 45 % 45), symbol(n / 2025)];
        let rest = encoded(bytes.skip(2));
        lemma_digit_symbol(n % 45);
        lemma_digit_symbol(n / 45 % 45);
        lemma_digit_symbol(n / 2025);
        lemma_decoded_encoded(bytes.skip(2));
        assert(text == head + rest);
        assert(text.len() >= 3 && text[0] == head[0] && text[1] == head[1] && text[2] == head[2]);
        assert(text.skip(3) =~= rest);
        assert(n % 45 + 45 * (n / 45 % 45) + 2025 * (n / 2025) == n);
        assert(n <= 0xFFFF && n / 256 == bytes[0] && n % 256 == bytes[1]);
        assert(seq![bytes[0], bytes[1]] + bytes.skip(2) =~= bytes);
    }
}

/// `base45::DecodeError`, which is told from success and then dropped.
#[verifier::external_type_specification]
#[verifier::external_body]
pub struct ExDecodeError(base45::DecodeError);

/// `base45::decode` on the UTF-8 bytes of `text`.
///
/// The crate cuts the bytes into groups of three, looks each byte up in its
/// table and fails on a byte outside it, on a group above 65535 and on a
/// single byte left over; two bytes left over give one byte, cut to its low
/// eight bits. Every character outside the alphabet has a byte outside the
/// table, and a text inside the alphabet has one byte per character, so the
/// result is [`decoded`] of the characters.
#[verifier::external_body]
fn base45_decode(text: &str) -> (r: Result<Vec<u8>, base45::DecodeError>)
    ensures
        match r {
            Ok(bytes) => decoded(text@) == Some(bytes@),
            Err(_) => decoded(text@) is None,
        },
{
    base45::decode(text)
}

/// Decodes Base45 text into bytes.
///
/// Fails with [`FormatError::InvalidBase45`] exactly where [`decoded`] is
/// `None`.
pub fn decode(text: &str) -> (r: Result<Vec<u8>, FormatError>)
    ensures
        match r {
            Ok(bytes) => decoded(text@) == Some(bytes@),
            Err(e) => e == FormatError::InvalidBase45 && decoded(text@) is None,
        },
{
    match base45_decode(text) {
        Ok(bytes) => Ok(bytes),
        Err(_) => Err(FormatError::InvalidBase45),
    }
}

} // verus!
