//! Reading one typed field out of a JSON value, and writing one.
//!
//! Every typed field stands in the document as a string. Three conventions
//! are in use:
//! - an index or an amount is two leading bytes (`0x` by convention; they are
//!   dropped unexamined) followed by a number in radix 16;
//! - a block height is a number in radix 10;
//! - an identifier of 32 bytes is 64 hexadecimal digits, with or without `0x`
//!   in front; what follows the 64 digits is not looked at.

use crate::json::JsonShape;
use crate::json::shape;
use crate::radix::bounded_value;
use crate::radix::digit_value;
use crate::radix::digits_value;
use crate::radix::lemma_digits_push;
use crate::radix::parse_unsigned;
use crate::text::decimal_string;
use crate::text::decimal_text;
use crate::text::digit_text;
use fuel_core_types::fuel_tx::Address;
use fuel_core_types::fuel_tx::AssetId;
use fuel_core_types::fuel_tx::Bytes32;
use std::str::FromStr;
use vstd::prelude::*;
use vstd::slice::slice_subrange;
use vstd::string::StringExecFns;
use vstd::string::StringSliceAdditionalSpecFns;
use vstd::utf8::encode_utf8;
use vstd::utf8::is_ascii_chars;
use vstd::utf8::is_ascii_chars_encode_utf8;

verus! {

/// The bytes of the string `v`; `None` if `v` is no string.
pub open spec fn text_bytes(v: serde_json::Value) -> Option<Seq<u8>> {
    match shape(v) {
        JsonShape::String(s) => Some(encode_utf8(s)),
        _ => None,
    }
}

/// The number that a text of the first convention writes, if it is at most
/// `max`.
pub open spec fn prefixed_hex(text: Seq<u8>, max: nat) -> Option<nat> {
    if text.len() < 2 {
        None
    } else {
        bounded_value(text.skip(2), 16, max)
    }
}

/// The bytes that a text of the third convention writes, `width` of them.
pub open spec fn fixed_hex(text: Seq<u8>, width: nat) -> Option<Seq<u8>> {
    let digits = if text.len() >= 2 && text[0] == 48 && text[1] == 120 {
        text.skip(2)
    } else {
        text
    };
    if digits.len() >= 2 * width && (forall|i: int|
        0 <= i < 2 * width ==> (#[trigger] digit_value(digits[i], 16)) is Some) {
        Some(
            Seq::new(
                width,
                |i: int|
                    (digit_value(digits[2 * i], 16)->0 * 16 + digit_value(
                        digits[2 * i + 1],
                        16,
                    )->0) as u8,
            ),
        )
    } else {
        None
    }
}

/// The index or amount that `v` holds, if it is at most `max`.
pub open spec fn hex_number(v: serde_json::Value, max: nat) -> Option<nat> {
    match text_bytes(v) {
        Some(text) => prefixed_hex(text, max),
        None => None,
    }
}

/// The block height that `v` holds.
pub open spec fn decimal_number(v: serde_json::Value, max: nat) -> Option<nat> {
    match text_bytes(v) {
        Some(text) => bounded_value(text, 10, max),
        None => None,
    }
}

/// The identifier of 32 bytes that `v` holds.
pub open spec fn identifier(v: serde_json::Value) -> Option<Seq<u8>> {
    match text_bytes(v) {
        Some(text) => fixed_hex(text, 32),
        None => None,
    }
}

/// `Bytes32::from_str` of `fuel-types`: an optional `0x`, then 64 hexadecimal
/// digits that give the 32 bytes, high digit first; any bytes after them are
/// ignored.
#[verifier::external_body]
pub(crate) fn bytes32_from_str(s: &str) -> (r: Option<[u8; 32]>)
    ensures
        match r {
            Some(bytes) => fixed_hex(s.spec_bytes(), 32) == Some(bytes@),
            None => fixed_hex(s.spec_bytes(), 32) is None,
        },
{
    Bytes32::from_str(s).ok().map(|b| b.into())
}

/// `Address::from_str` of `fuel-types`: an optional `0x`, then 64 hexadecimal
/// digits that give the 32 bytes, high digit first; any bytes after them are
/// ignored.
#[verifier::external_body]
pub(crate) fn address_from_str(s: &str) -> (r: Option<[u8; 32]>)
    ensures
        match r {
            Some(bytes) => fixed_hex(s.spec_bytes(), 32) == Some(bytes@),
            None => fixed_hex(s.spec_bytes(), 32) is None,
        },
{
    Address::from_str(s).ok().map(|b| b.into())
}

/// `AssetId::from_str` of `fuel-types`: an optional `0x`, then 64 hexadecimal
/// digits that give the 32 bytes, high digit first; any bytes after them are
/// ignored.
#[verifier::external_body]
pub(crate) fn asset_id_from_str(s: &str) -> (r: Option<[u8; 32]>)
    ensures
        match r {
            Some(bytes) => fixed_hex(s.spec_bytes(), 32) == Some(bytes@),
            None => fixed_hex(s.spec_bytes(), 32) is None,
        },
{
    AssetId::from_str(s).ok().map(|b| b.into())
}

/// Reads an index or an amount of at most `max`.
pub fn read_hex(v: &serde_json::Value, max: u64) -> (r: Option<u64>)
    ensures
        match r {
            Some(n) => hex_number(*v, max as nat) == Some(n as nat),
            None => hex_number(*v, max as nat) is None,
        },
{
    match v.as_str() {
        Some(s) => {
            let text = s.as_bytes();
            if text.len() < 2 {
                None
            } else {
                assert(text@.skip(2) =~= text@.subrange(2, text@.len() as int));
                parse_unsigned(slice_subrange(text, 2, text.len()), 16, max)
            }
        },
        None => None,
    }
}

/// Reads an amount.
pub fn read_hex_u64(v: &serde_json::Value) -> (r: Option<u64>)
    ensures
        match r {
            Some(n) => hex_number(*v, u64::MAX as nat) == Some(n as nat),
            None => hex_number(*v, u64::MAX as nat) is None,
        },
{
    read_hex(v, u64::MAX)
}

/// Reads the index of a transaction in its block.
pub fn read_hex_u16(v: &serde_json::Value) -> (r: Option<u16>)
    ensures
        match r {
            Some(n) => hex_number(*v, u16::MAX as nat) == Some(n as nat),
            None => hex_number(*v, u16::MAX as nat) is None,
        },
{
    match read_hex(v, 0xffff) {
        Some(n) => Some(n as u16),
        None => None,
    }
}

/// Reads the index of an output.
pub fn read_hex_u8(v: &serde_json::Value) -> (r: Option<u8>)
    ensures
        match r {
            Some(n) => hex_number(*v, u8::MAX as nat) == Some(n as nat),
            None => hex_number(*v, u8::MAX as nat) is None,
        },
{
    match read_hex(v, 0xff) {
        Some(n) => Some(n as u8),
        None => None,
    }
}

/// Reads a block height.
pub fn read_height(v: &serde_json::Value) -> (r: Option<u32>)
    ensures
        match r {
            Some(n) => decimal_number(*v, u32::MAX as nat) == Some(n as nat),
            None => decimal_number(*v, u32::MAX as nat) is None,
        },
{
    match v.as_str() {
        Some(s) => match parse_unsigned(s.as_bytes(), 10, 0xffff_ffff) {
            Some(n) => Some(n as u32),
            None => None,
        },
        None => None,
    }
}

/// Reads the identifier of a transaction.
pub fn read_bytes32(v: &serde_json::Value) -> (r: Option<[u8; 32]>)
    ensures
        match r {
            Some(bytes) => identifier(*v) == Some(bytes@),
            None => identifier(*v) is None,
        },
{
    match v.as_str() {
        Some(s) => bytes32_from_str(s),
        None => None,
    }
}

/// Reads the address of an owner.
pub fn read_address(v: &serde_json::Value) -> (r: Option<[u8; 32]>)
    ensures
        match r {
            Some(bytes) => identifier(*v) == Some(bytes@),
            None => identifier(*v) is None,
        },
{
    match v.as_str() {
        Some(s) => address_from_str(s),
        None => None,
    }
}

/// Reads the identifier of an asset.
pub fn read_asset_id(v: &serde_json::Value) -> (r: Option<[u8; 32]>)
    ensures
        match r {
            Some(bytes) => identifier(*v) == Some(bytes@),
            None => identifier(*v) is None,
        },
{
    match v.as_str() {
        Some(s) => asset_id_from_str(s),
        None => None,
    }
}

/// The text of one hexadecimal digit, in lower case.
pub open spec fn hex_digit_text(d: nat) -> Seq<char> {
    if d == 0 {
        "0"@
    } else if d == 1 {
        "1"@
    } else if d == 2 {
        "2"@
    } else if d == 3 {
        "3"@
    } else if d == 4 {
        "4"@
    } else if d == 5 {
        "5"@
    } else if d == 6 {
        "6"@
    } else if d == 7 {
        "7"@
    } else if d == 8 {
        "8"@
    } else if d == 9 {
        "9"@
    } else if d == 10 {
        "a"@
    } else if d == 11 {
        "b"@
    } else if d == 12 {
        "c"@
    } else if d == 13 {
        "d"@
    } else if d == 14 {
        "e"@
    } else {
        "f"@
    }
}

/// The number `n` in hexadecimal digits, without leading zeros.
pub open spec fn hex_text(n: nat) -> Seq<char>
    decreases n,
{
    if n < 16 {
        hex_digit_text(n)
    } else {
        hex_text(n / 16) + hex_digit_text(n % 16)
    }
}

/// The number `n` as the first convention writes it: `0x`, then its
/// hexadecimal digits.
pub open spec fn prefixed_hex_text(n: nat) -> Seq<char> {
    "0x"@ + hex_text(n)
}

/// The text of the hexadecimal digit `d`.
pub fn hex_digit_str(d: u64) -> (text: &'static str)
    requires
        d < 16,
    ensures
        text@ == hex_digit_text(d as nat),
{
    if d == 0 {
        "0"
    } else if d == 1 {
        "1"
    } else if d == 2 {
        "2"
    } else if d == 3 {
        "3"
    } else if d == 4 {
        "4"
    } else if d == 5 {
        "5"
    } else if d == 6 {
        "6"
    } else if d == 7 {
        "7"
    } else if d == 8 {
        "8"
    } else if d == 9 {
        "9"
    } else if d == 10 {
        "a"
    } else if d == 11 {
        "b"
    } else if d == 12 {
        "c"
    } else if d == 13 {
        "d"
    } else if d == 14 {
        "e"
    } else {
        "f"
    }
}

/// Writes an index or an amount in the first convention.
pub fn write_hex(n: u64) -> (text: String)
    ensures
        text@ == prefixed_hex_text(n as nat),
{
    let mut digits = hex_digit_str(n % 16).to_owned();
    let mut rest: u64 = n / 16;
    while rest > 0
        invariant
            hex_text(n as nat) == if rest > 0 {
                hex_text(rest as nat) + digits@
            } else {
                digits@
            },
        decreases rest,
    {
        let ghost low = digits@;
        let digit = hex_digit_str(rest % 16);
        digits = digit.to_owned().concat(digits.as_str());
        proof {
            if rest >= 16 {
                assert((hex_text((rest / 16) as nat) + digit@) + low =~= hex_text(
                    (rest / 16) as nat,
                ) + (digit@ + low));
            }
        }
        rest = rest / 16;
    }
    "0x".to_owned().concat(digits.as_str())
}

/// The bytes of a text of ASCII characters: one byte for each character.
pub open spec fn ascii_bytes(text: Seq<char>) -> Seq<u8> {
    Seq::new(text.len(), |i: int| text[i] as u8)
}

/// The hexadecimal digits of a number are ASCII characters, with no sign in
/// front, and write that number.
pub proof fn lemma_hex_text_value(n: nat)
    ensures
        is_ascii_chars(hex_text(n)),
        hex_text(n).len() > 0,
        hex_text(n)[0] != '+',
        digits_value(ascii_bytes(hex_text(n)), 16) == Some(n),
    decreases n,
{
    reveal_strlit("0");
    reveal_strlit("1");
    reveal_strlit("2");
    reveal_strlit("3");
    reveal_strlit("4");
    reveal_strlit("5");
    reveal_strlit("6");
    reveal_strlit("7");
    reveal_strlit("8");
    reveal_strlit("9");
    reveal_strlit("a");
    reveal_strlit("b");
    reveal_strlit("c");
    reveal_strlit("d");
    reveal_strlit("e");
    reveal_strlit("f");
    if n < 16 {
        let text = hex_text(n);
        assert(ascii_bytes(text) =~= Seq::<u8>::empty().push(text[0] as u8));
        lemma_digits_push(Seq::<u8>::empty(), text[0] as u8, 16);
    } else {
        lemma_hex_text_value(n / 16);
        let high = hex_text(n / 16);
        let low = hex_digit_text(n % 16);
        assert(hex_text(n)[0] == high[0]);
        assert(ascii_bytes(hex_text(n)) =~= ascii_bytes(high).push(low[0] as u8));
        lemma_digits_push(ascii_bytes(high), low[0] as u8, 16);
    }
}

/// Round trip: a value that holds what `write_hex` writes for `n` is read
/// back as `n`.
pub proof fn lemma_hex_round_trip(v: serde_json::Value, n: nat, max: nat)
    requires
        shape(v) == JsonShape::String(prefixed_hex_text(n)),
        n <= max,
    ensures
        hex_number(v, max) == Some(n),
{
    reveal_strlit("0x");
    lemma_hex_text_value(n);
    let text = prefixed_hex_text(n);
    assert(is_ascii_chars(text));
    is_ascii_chars_encode_utf8(text);
    let bytes = encode_utf8(text);
    assert(bytes =~= ascii_bytes(text));
    assert(bytes.skip(2) =~= ascii_bytes(hex_text(n)));
}

/// A hexadecimal digit is written as one ASCII character that reads as that
/// digit.
pub proof fn lemma_hex_digit(d: nat)
    requires
        d < 16,
    ensures
        hex_digit_text(d).len() == 1,
        is_ascii_chars(hex_digit_text(d)),
        digit_value(hex_digit_text(d)[0] as u8, 16) == Some(d),
{
    reveal_strlit("0");
    reveal_strlit("1");
    reveal_strlit("2");
    reveal_strlit("3");
    reveal_strlit("4");
    reveal_strlit("5");
    reveal_strlit("6");
    reveal_strlit("7");
    reveal_strlit("8");
    reveal_strlit("9");
    reveal_strlit("a");
    reveal_strlit("b");
    reveal_strlit("c");
    reveal_strlit("d");
    reveal_strlit("e");
    reveal_strlit("f");
}

/// The bytes of an identifier as the third convention writes them: two
/// hexadecimal digits for each byte, high digit first, no `0x` in front.
pub open spec fn identifier_text(bytes: Seq<u8>) -> Seq<char>
    decreases bytes.len(),
{
    if bytes.len() == 0 {
        Seq::empty()
    } else {
        identifier_text(bytes.drop_last()) + hex_digit_text((bytes.last() / 16) as nat)
            + hex_digit_text((bytes.last() % 16) as nat)
    }
}

/// Whether the two characters of `text` that stand for the byte `i` of
/// `bytes` read as its high and its low digit.
pub open spec fn reads_byte(text: Seq<char>, bytes: Seq<u8>, i: int) -> bool {
    &&& digit_value(text[2 * i] as u8, 16) == Some((bytes[i] / 16) as nat)
    &&& digit_value(text[2 * i + 1] as u8, 16) == Some((bytes[i] % 16) as nat)
}

/// The text of an identifier is ASCII, has two characters for each byte, and
/// each two read as their byte.
pub proof fn lemma_identifier_text(bytes: Seq<u8>)
    ensures
        identifier_text(bytes).len() == 2 * bytes.len(),
        is_ascii_chars(identifier_text(bytes)),
        forall|i: int|
            0 <= i < bytes.len() ==> #[trigger] reads_byte(identifier_text(bytes), bytes, i),
    decreases bytes.len(),
{
    if bytes.len() > 0 {
        let front = bytes.drop_last();
        let high = hex_digit_text((bytes.last() / 16) as nat);
        let low = hex_digit_text((bytes.last() % 16) as nat);
        lemma_identifier_text(front);
        lemma_hex_digit((bytes.last() / 16) as nat);
        lemma_hex_digit((bytes.last() % 16) as nat);
        let text = identifier_text(bytes);
        assert(text =~= identifier_text(front) + high + low);
        assert forall|i: int| 0 <= i < bytes.len() implies #[trigger] reads_byte(
            text,
            bytes,
            i,
        ) by {
            if i < front.len() {
                assert(reads_byte(identifier_text(front), front, i));
                assert(text[2 * i] == identifier_text(front)[2 * i]);
                assert(text[2 * i + 1] == identifier_text(front)[2 * i + 1]);
                assert(front[i] == bytes[i]);
            } else {
                assert(text[2 * i] == high[0]);
                assert(text[2 * i + 1] == low[0]);
            }
        }
    }
}

/// Round trip: a value that holds what `write_identifier` writes for 32
/// bytes is read back as those bytes.
pub proof fn lemma_identifier_round_trip(v: serde_json::Value, bytes: Seq<u8>)
    requires
        shape(v) == JsonShape::String(identifier_text(bytes)),
        bytes.len() == 32,
    ensures
        identifier(v) == Some(bytes),
{
    let text = identifier_text(bytes);
    lemma_identifier_text(bytes);
    is_ascii_chars_encode_utf8(text);
    let raw = encode_utf8(text);
    assert(raw =~= ascii_bytes(text));
    assert(reads_byte(text, bytes, 0));
    assert(raw[1] != 120);
    assert forall|i: int| 0 <= i < 64 implies (#[trigger] digit_value(raw[i], 16)) is Some by {
        assert(reads_byte(text, bytes, i / 2));
    }
    let read = fixed_hex(raw, 32)->0;
    assert forall|i: int| 0 <= i < 32 implies read[i] == bytes[i] by {
        assert(reads_byte(text, bytes, i));
    }
    assert(read =~= bytes);
}

/// Writes an identifier in the third convention, without `0x` in front.
pub fn write_identifier(bytes: &[u8; 32]) -> (text: String)
    ensures
        text@ == identifier_text(bytes@),
{
    let mut text = String::new();
    let mut i: usize = 0;
    assert(bytes@.take(0) =~= Seq::<u8>::empty());
    while i < 32
        invariant
            i <= 32,
            bytes@.len() == 32,
            text@ == identifier_text(bytes@.take(i as int)),
        decreases 32 - i,
    {
        let byte = bytes[i];
        proof {
            assert(bytes@.take(i + 1).drop_last() =~= bytes@.take(i as int));
            assert(bytes@.take(i + 1).last() == byte);
        }
        text = text.concat(hex_digit_str((byte / 16) as u64));
        text = text.concat(hex_digit_str((byte % 16) as u64));
        i = i + 1;
    }
    assert(bytes@.take(32) =~= bytes@);
    text
}

/// A decimal digit is written as one ASCII character that reads as that
/// digit.
pub proof fn lemma_decimal_digit(d: nat)
    requires
        d < 10,
    ensures
        digit_text(d).len() == 1,
        is_ascii_chars(digit_text(d)),
        digit_text(d)[0] != '+',
        digit_value(digit_text(d)[0] as u8, 10) == Some(d),
{
    reveal_strlit("0");
    reveal_strlit("1");
    reveal_strlit("2");
    reveal_strlit("3");
    reveal_strlit("4");
    reveal_strlit("5");
    reveal_strlit("6");
    reveal_strlit("7");
    reveal_strlit("8");
    reveal_strlit("9");
}

/// The decimal digits of a number are ASCII characters, with no sign in
/// front, and write that number.
pub proof fn lemma_decimal_text_value(n: nat)
    ensures
        is_ascii_chars(decimal_text(n)),
        decimal_text(n).len() > 0,
        decimal_text(n)[0] != '+',
        digits_value(ascii_bytes(decimal_text(n)), 10) == Some(n),
    decreases n,
{
    if n < 10 {
        lemma_decimal_digit(n);
        let text = decimal_text(n);
        assert(ascii_bytes(text) =~= Seq::<u8>::empty().push(text[0] as u8));
        lemma_digits_push(Seq::<u8>::empty(), text[0] as u8, 10);
    } else {
        lemma_decimal_text_value(n / 10);
        lemma_decimal_digit(n % 10);
        let high = decimal_text(n / 10);
        let low = digit_text(n % 10);
        assert(decimal_text(n)[0] == high[0]);
        assert(ascii_bytes(decimal_text(n)) =~= ascii_bytes(high).push(low[0] as u8));
        lemma_digits_push(ascii_bytes(high), low[0] as u8, 10);
    }
}

/// Round trip: a value that holds what `write_height` writes for `n` is read
/// back as `n`.
pub proof fn lemma_height_round_trip(v: serde_json::Value, n: nat, max: nat)
    requires
        shape(v) == JsonShape::String(decimal_text(n)),
        n <= max,
    ensures
        decimal_number(v, max) == Some(n),
{
    lemma_decimal_text_value(n);
    let text = decimal_text(n);
    is_ascii_chars_encode_utf8(text);
    assert(encode_utf8(text) =~= ascii_bytes(text));
}

/// Writes a block height in the second convention.
pub fn write_height(n: u32) -> (text: String)
    ensures
        text@ == decimal_text(n as nat),
{
    decimal_string(n as usize)
}

} // verus!
