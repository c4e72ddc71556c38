//! Hexadecimal text.
use vstd::prelude::*;
use vstd::string::*;
use vstd::utf8::*;

use crate::text::{lemma_ascii_bytes, lemma_ascii_encoding};

verus! {

/// Whether a byte is a hexadecimal digit of either case.
pub open spec fn is_hex_digit(b: u8) -> bool {
    0x30 <= b <= 0x39 || 0x41 <= b <= 0x46 || 0x61 <= b <= 0x66
}

/// The value of a hexadecimal digit.
pub open spec fn hex_value(b: u8) -> int
    recommends
        is_hex_digit(b),
{
    if b <= 0x39 {
        b - 0x30
    } else if b <= 0x46 {
        b - 0x41 + 10
    } else {
        b - 0x61 + 10
    }
}

/// Whether every byte is a hexadecimal digit.
pub open spec fn is_hex(bytes: Seq<u8>) -> bool {
    forall|i: int| 0 <= i < bytes.len() ==> is_hex_digit(#[trigger] bytes[i])
}

/// The bytes that pairs of hexadecimal digits stand for. A last digit without a partner is dropped.
pub open spec fn hex_decoded(bytes: Seq<u8>) -> Seq<u8> {
    Seq::new(
        bytes.len() / 2,
        |i: int| (16 * hex_value(bytes[2 * i]) + hex_value(bytes[2 * i + 1])) as u8,
    )
}

/// The lower-case hexadecimal digit of a value below 16.
pub open spec fn hex_digit(n: int) -> char {
    if n < 10 {
        (0x30 + n) as char
    } else {
        (0x61 + n - 10) as char
    }
}

/// Two lower-case hexadecimal digits for each byte, the high one first.
pub open spec fn hex_encoded(bytes: Seq<u8>) -> Seq<char> {
    Seq::new(
        2 * bytes.len(),
        |i: int| hex_digit(if i % 2 == 0 { bytes[i / 2] / 16 } else { bytes[i / 2] % 16 } as int),
    )
}

/// Reads pairs of hexadecimal digits of either case.
///
/// A text that holds anything but hexadecimal digits gives `None`. A last digit without a partner
/// is dropped.
pub fn hex_to_vec(hex: &str) -> (out: Option<Vec<u8>>)
    ensures
        out is Some <==> is_hex(hex.spec_bytes()),
        out matches Some(bytes) ==> bytes@ == hex_decoded(hex.spec_bytes()),
{
    let digits = hex.as_bytes();
    let mut out: Vec<u8> = Vec::with_capacity(digits.len() / 2);
    let mut high: u8 = 0;
    let mut idx: usize = 0;
    while idx < digits.len()
        invariant
            digits@ == hex.spec_bytes(),
            idx <= digits@.len(),
            forall|i: int| 0 <= i < idx ==> is_hex_digit(#[trigger] digits@[i]),
            out@.len() == idx / 2,
            forall|i: int|
                0 <= i < out@.len() ==> #[trigger] out@[i] == hex_decoded(digits@)[i],
            idx % 2 == 1 ==> high == hex_value(digits@[idx - 1]),
        decreases digits@.len() - idx,
    {
        let c = digits[idx];
        let value: u8 = if 0x41 <= c && c <= 0x46 {
            c - 0x41 + 10
        } else if 0x61 <= c && c <= 0x66 {
            c - 0x61 + 10
        } else if 0x30 <= c && c <= 0x39 {
            c - 0x30
        } else {
            assert(!is_hex_digit(hex.spec_bytes()[idx as int]));
            return None;
        };
        if idx % 2 == 1 {
            out.push(high * 16 + value);
        } else {
            high = value;
        }
        idx += 1;
    }
    assert(out@ =~= hex_decoded(digits@));
    Some(out)
}

/// The lower-case hexadecimal digit of `n`.
fn digit_char(n: u8) -> (c: char)
    requires
        n < 16,
    ensures
        c == hex_digit(n as int),
{
    if n < 10 {
        (0x30 + n) as char
    } else {
        (0x61 + (n - 10)) as char
    }
}

/// Writes each byte as two lower-case hexadecimal digits.
pub fn hex_str(value: &[u8]) -> (res: String)
    ensures
        res@ == hex_encoded(value@),
{
    let mut res = String::new();
    let mut i: usize = 0;
    while i < value.len()
        invariant
            i <= value@.len(),
            res@ == hex_encoded(value@.take(i as int)),
        decreases value@.len() - i,
    {
        let v = value[i];
        let ghost before = res@;
        res.push(digit_char(v / 16));
        res.push(digit_char(v % 16));
        i += 1;
        proof {
            let now = value@.take(i as int);
            assert forall|k: int| 0 <= k < 2 * now.len() implies res@[k] == hex_encoded(now)[k] by {
                if k < before.len() {
                    assert(before[k] == hex_encoded(value@.take(i - 1))[k]);
                }
            }
            assert(res@ =~= hex_encoded(now));
        }
    }
    assert(value@.take(value@.len() as int) =~= value@);
    res
}

/// The text that `hex_str` writes is ASCII.
pub proof fn lemma_hex_encoded_ascii(bytes: Seq<u8>)
    ensures
        is_ascii_chars(hex_encoded(bytes)),
        encode_utf8(hex_encoded(bytes)).len() == 2 * bytes.len(),
        forall|i: int|
            0 <= i < 2 * bytes.len() ==> #[trigger] encode_utf8(hex_encoded(bytes))[i]
                == hex_encoded(bytes)[i] as u8,
{
    assert(is_ascii_chars(hex_encoded(bytes)));
    lemma_ascii_encoding(hex_encoded(bytes));
}

/// Reading what `hex_str` wrote gives the bytes back.
pub proof fn law_hex_round_trip(bytes: Seq<u8>)
    ensures
        is_hex(encode_utf8(hex_encoded(bytes))),
        hex_decoded(encode_utf8(hex_encoded(bytes))) == bytes,
{
    lemma_hex_encoded_ascii(bytes);
    let text = encode_utf8(hex_encoded(bytes));
    assert forall|i: int| 0 <= i < bytes.len() implies hex_decoded(text)[i] == bytes[i] by {
        assert(text[2 * i] == hex_encoded(bytes)[2 * i] as u8);
        assert(text[2 * i + 1] == hex_encoded(bytes)[2 * i + 1] as u8);
        assert((2 * i) / 2 == i && (2 * i + 1) / 2 == i);
        assert(hex_value(text[2 * i]) == bytes[i] / 16);
        assert(hex_value(text[2 * i + 1]) == bytes[i] % 16);
    }
    assert(hex_decoded(text) =~= bytes);
}

/// A character with an upper-case hexadecimal letter turned to lower case.
pub open spec fn lower_hex(c: char) -> char {
    if 'A' <= c <= 'F' {
        (c as int + 0x20) as char
    } else {
        c
    }
}

/// Writing what was read gives the digits back, in lower case, but for a last one without a partner.
pub proof fn law_hex_text_round_trip(text: Seq<char>)
    requires
        is_hex(encode_utf8(text)),
    ensures
        hex_encoded(hex_decoded(encode_utf8(text))) == text.take(
            2 * (text.len() / 2) as int,
        ).map_values(|c: char| lower_hex(c)),
{
    let bytes = encode_utf8(text);
    lemma_ascii_bytes(text);
    lemma_ascii_encoding(text);
    let pairs = text.take(2 * (text.len() / 2) as int);
    let lower = pairs.map_values(|c: char| lower_hex(c));
    assert forall|i: int| 0 <= i < pairs.len() implies hex_encoded(hex_decoded(bytes))[i]
        == lower[i] by {
        let pair = i / 2;
        assert(is_hex_digit(bytes[2 * pair]));
        assert(is_hex_digit(bytes[2 * pair + 1]));
        assert(bytes[i] == text[i] as u8);
    }
    assert(hex_encoded(hex_decoded(bytes)) =~= lower);
}

/// What is written is two characters for each byte, in order: the digit of the byte's sixteens and the
/// digit of its units.
pub proof fn law_hex_digits_of_each_byte(bytes: Seq<u8>, i: int)
    requires
        0 <= i < bytes.len(),
    ensures
        hex_encoded(bytes).len() == 2 * bytes.len(),
        hex_encoded(bytes)[2 * i] == "0123456789abcdef"@[bytes[i] as int / 16],
        hex_encoded(bytes)[2 * i + 1] == "0123456789abcdef"@[bytes[i] as int % 16],
{
    reveal_strlit("0123456789abcdef");
    assert((2 * i) / 2 == i && (2 * i + 1) / 2 == i);
}

/// The digits are the ten figures and the first six letters of either case, each worth its place among
/// them, and nothing else.
pub proof fn law_hex_digits(b: u8)
    ensures
        is_hex_digit(b) <==> exists|k: int|
            0 <= k < 16 && (b == (#[trigger] "0123456789abcdef"@[k]) as u8 || b
                == "0123456789ABCDEF"@[k] as u8),
        forall|k: int|
            0 <= k < 16 && (b == (#[trigger] "0123456789abcdef"@[k]) as u8 || b
                == "0123456789ABCDEF"@[k] as u8) ==> hex_value(b) == k,
{
    reveal_strlit("0123456789abcdef");
    reveal_strlit("0123456789ABCDEF");
    if is_hex_digit(b) {
        let k = hex_value(b);
        assert(0 <= k < 16);
        let lower = "0123456789abcdef"@[k];
        let upper = "0123456789ABCDEF"@[k];
        assert(b == lower as u8 || b == upper as u8);
    }
}

/// Texts one behind the other, of which the first has no digit without a partner, are read as what the
/// one stands for behind what the other stands for; and bytes one behind the other are written so.
pub proof fn law_hex_of_concat(a: Seq<u8>, b: Seq<u8>)
    ensures
        is_hex(a + b) <==> is_hex(a) && is_hex(b),
        a.len() % 2 == 0 ==> hex_decoded(a + b) == hex_decoded(a) + hex_decoded(b),
        hex_encoded(a + b) == hex_encoded(a) + hex_encoded(b),
{
    let both = a + b;
    if is_hex(both) {
        assert forall|i: int| 0 <= i < a.len() implies is_hex_digit(#[trigger] a[i]) by {
            assert(both[i] == a[i]);
        }
        assert forall|i: int| 0 <= i < b.len() implies is_hex_digit(#[trigger] b[i]) by {
            assert(both[a.len() + i] == b[i]);
        }
    }
    if a.len() % 2 == 0 {
        let half = a.len() / 2;
        assert(both.len() / 2 == half + b.len() / 2);
        assert(hex_decoded(both) =~= hex_decoded(a) + hex_decoded(b));
    }
    assert forall|i: int| 0 <= i < 2 * both.len() implies hex_encoded(both)[i] == (hex_encoded(a)
        + hex_encoded(b))[i] by {
        if i >= 2 * a.len() {
            assert((i - 2 * a.len()) / 2 == i / 2 - a.len());
            assert((i - 2 * a.len()) % 2 == i % 2);
        }
    }
    assert(hex_encoded(both) =~= hex_encoded(a) + hex_encoded(b));
}

} // verus!
