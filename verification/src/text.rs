//! Text: ASCII, decimal numbers and substring search.
use vstd::arithmetic::div_mod::lemma_div_denominator;
use vstd::arithmetic::power::pow;
use vstd::prelude::*;
use vstd::string::*;
use vstd::utf8::*;

verus! {

/// The standard library's `String::push`: it appends one character and changes nothing else.
pub assume_specification[ String::push ](s: &mut String, c: char)
    ensures
        final(s)@ == old(s)@.push(c),
;

/// Bytes, read as characters one by one.
pub open spec fn ascii_chars(bytes: Seq<u8>) -> Seq<char> {
    bytes.map_values(|b: u8| b as char)
}

/// A character with an encoding of one byte is ASCII.
proof fn lemma_one_byte_char(c: char)
    requires
        encode_scalar(c as u32).len() == 1,
    ensures
        '\0' <= c <= '\u{7f}',
{
}

/// A text whose UTF-8 encoding stays below 128 is ASCII: byte for byte its characters.
pub proof fn lemma_ascii_bytes(chars: Seq<char>)
    requires
        forall|i: int| 0 <= i < encode_utf8(chars).len() ==> encode_utf8(chars)[i] < 0x80,
    ensures
        is_ascii_chars(chars),
        chars == ascii_chars(encode_utf8(chars)),
    decreases chars.len(),
{
    if chars.len() > 0 {
        let bytes = encode_utf8(chars);
        encode_utf8_first_scalar(chars);
        assert(is_leading_byte_width_1(bytes[0]));
        let rest = chars.drop_first();
        let tail = encode_utf8(rest);
        assert(bytes == encode_scalar(chars[0] as u32) + tail);
        let first = chars[0] as u32;
        char_is_scalar(chars[0]);
        assert(encode_scalar(first).len() == 1);
        lemma_one_byte_char(chars[0]);
        assert forall|i: int| 0 <= i < tail.len() implies tail[i] < 0x80 by {
            assert(tail[i] == bytes[i + 1]);
        }
        lemma_ascii_bytes(rest);
        assert forall|i: int| 0 <= i < chars.len() implies '\0' <= #[trigger] chars[i]
            <= '\u{7f}' by {
            if i > 0 {
                assert(chars[i] == rest[i - 1]);
            }
        }
    }
    is_ascii_chars_encode_utf8(chars);
    assert(chars =~= ascii_chars(encode_utf8(chars)));
}

/// An ASCII text is encoded byte for byte as its characters.
pub proof fn lemma_ascii_encoding(chars: Seq<char>)
    requires
        is_ascii_chars(chars),
    ensures
        encode_utf8(chars).len() == chars.len(),
        forall|i: int|
            0 <= i < chars.len() ==> #[trigger] encode_utf8(chars)[i] == chars[i] as u8,
        chars == ascii_chars(encode_utf8(chars)),
{
    is_ascii_chars_encode_utf8(chars);
    assert forall|i: int| 0 <= i < chars.len() implies #[trigger] encode_utf8(chars)[i]
        == chars[i] as u8 by {
        assert(chars[i] as u8 == encode_utf8(chars)[i]);
    }
    assert(chars =~= ascii_chars(encode_utf8(chars)));
}

/// The encoding of two texts, one behind the other, is that of the one behind that of the other.
pub proof fn lemma_encoding_of_concat(a: Seq<char>, b: Seq<char>)
    ensures
        encode_utf8(a + b) == encode_utf8(a) + encode_utf8(b),
    decreases a.len(),
{
    if a.len() == 0 {
        assert(a + b =~= b);
        assert(encode_utf8(a) + encode_utf8(b) =~= encode_utf8(b));
    } else {
        lemma_encoding_of_concat(a.drop_first(), b);
        assert((a + b).drop_first() =~= a.drop_first() + b);
        assert(encode_utf8(a + b) =~= encode_utf8(a) + encode_utf8(b));
    }
}

/// The character of a decimal digit.
pub open spec fn digit(n: nat) -> char {
    (0x30 + n) as char
}

/// A number in decimal, without leading zeros.
pub open spec fn decimal(n: nat) -> Seq<char>
    decreases n,
{
    if n < 10 {
        seq![digit(n)]
    } else {
        decimal(n / 10).push(digit(n % 10))
    }
}

/// Whether every character is a decimal digit.
pub open spec fn is_decimal(text: Seq<char>) -> bool {
    forall|i: int| 0 <= i < text.len() ==> '0' <= #[trigger] text[i] <= '9'
}

/// The number that a row of decimal digits stands for.
pub open spec fn decimal_value(text: Seq<char>) -> nat
    decreases text.len(),
{
    if text.len() == 0 {
        0
    } else {
        10 * decimal_value(text.drop_last()) + (text.last() as nat - 0x30) as nat
    }
}

/// Writing a number in decimal gives digits, at least one, and reading them gives the number back.
pub proof fn law_decimal_round_trip(n: nat)
    ensures
        decimal(n).len() > 0,
        is_decimal(decimal(n)),
        decimal_value(decimal(n)) == n,
    decreases n,
{
    if n < 10 {
        let text = decimal(n);
        assert(text.drop_last() =~= Seq::<char>::empty());
        assert(decimal_value(text.drop_last()) == 0);
    } else {
        law_decimal_round_trip(n / 10);
        let text = decimal(n);
        assert(text.drop_last() =~= decimal(n / 10));
        assert forall|i: int| 0 <= i < text.len() implies '0' <= #[trigger] text[i] <= '9' by {
            if i < text.len() - 1 {
                assert(text[i] == decimal(n / 10)[i]);
            }
        }
    }
}

/// Appends `n` in decimal.
pub fn push_decimal(out: &mut String, n: u64)
    ensures
        final(out)@ == old(out)@ + decimal(n as nat),
    decreases n,
{
    if n >= 10 {
        push_decimal(out, n / 10);
    }
    let units: u8 = (n % 10) as u8;
    out.push((0x30u8 + units) as char);
    assert(out@ =~= old(out)@ + decimal(n as nat));
}

/// The characters of a text, in order.
pub fn to_chars(text: &str) -> (chars: Vec<char>)
    ensures
        chars@ == text@,
{
    let mut chars: Vec<char> = Vec::new();
    for c in it: text.chars()
        invariant
            it.seq() == text@,
            chars@ == text@.take(it.index() as int),
    {
        chars.push(c);
        assert(chars@ =~= text@.take(it.index() + 1));
    }
    assert(text@.take(text@.len() as int) =~= text@);
    chars
}

/// The `u16` that a text writes in decimal: digits, at least one, after an optional plus sign, of a
/// value that fits.
pub open spec fn u16_text(text: Seq<char>) -> Option<u16> {
    let digits = if text.len() > 0 && text[0] == '+' { text.skip(1) } else { text };
    if digits.len() > 0 && is_decimal(digits) && decimal_value(digits) <= u16::MAX {
        Some(decimal_value(digits) as u16)
    } else {
        None
    }
}

/// A row of digits is worth at least what a front part of it is worth.
proof fn lemma_decimal_value_monotonic(text: Seq<char>, front: int)
    requires
        0 <= front <= text.len(),
    ensures
        decimal_value(text.take(front)) <= decimal_value(text),
    decreases text.len() - front,
{
    if front < text.len() {
        lemma_decimal_value_monotonic(text, front + 1);
        assert(text.take(front + 1).drop_last() =~= text.take(front));
    } else {
        assert(text.take(front) =~= text);
    }
}

/// Reads a `u16` in decimal.
pub fn parse_u16(text: &str) -> (value: Option<u16>)
    ensures
        value == u16_text(text@),
{
    let chars = to_chars(text);
    let start: usize = if chars.len() > 0 && chars[0] == '+' { 1 } else { 0 };
    let ghost digits = text@.skip(start as int);
    assert(start == 0 ==> digits =~= text@);
    if chars.len() == start {
        return None;
    }
    let mut value: u32 = 0;
    let mut i: usize = start;
    while i < chars.len()
        invariant
            chars@ == text@,
            digits == text@.skip(start as int),
            u16_text(text@) == (if digits.len() > 0 && is_decimal(digits) && decimal_value(digits)
                <= u16::MAX {
                Some(decimal_value(digits) as u16)
            } else {
                None
            }),
            start <= i <= chars@.len(),
            value == decimal_value(digits.take(i - start)),
            value <= u16::MAX,
            forall|j: int| 0 <= j < i - start ==> '0' <= #[trigger] digits[j] <= '9',
        decreases chars@.len() - i,
    {
        let c = chars[i];
        let ghost at = i - start;
        assert(c == digits[at]);
        if c < '0' || c > '9' {
            return None;
        }
        value = value * 10 + (c as u32 - 0x30);
        i += 1;
        proof {
            assert(digits.take(at + 1).drop_last() =~= digits.take(at));
            lemma_decimal_value_monotonic(digits, at + 1);
        }
        if value > 0xffff {
            return None;
        }
    }
    assert(digits.take(i - start) =~= digits);
    Some(value as u16)
}

/// Whether `needle` stands in `text` at position `at`.
pub open spec fn stands_at(text: Seq<char>, needle: Seq<char>, at: int) -> bool {
    0 <= at && at + needle.len() <= text.len() && text.subrange(at, at + needle.len()) == needle
}

/// Whether `needle` stands anywhere in `text`.
pub open spec fn contains_text(text: Seq<char>, needle: Seq<char>) -> bool {
    exists|at: int| stands_at(text, needle, at)
}

/// Tells whether `needle` stands in `text` at position `at`.
fn matches_at(text: &Vec<char>, needle: &Vec<char>, at: usize) -> (found: bool)
    requires
        at + needle@.len() <= text@.len(),
    ensures
        found == stands_at(text@, needle@, at as int),
{
    let len: usize = text.len();
    let mut i: usize = 0;
    while i < needle.len()
        invariant
            len == text@.len(),
            i <= needle@.len(),
            at + needle@.len() <= text@.len(),
            forall|j: int| 0 <= j < i ==> text@[at + j] == needle@[j],
        decreases needle@.len() - i,
    {
        if text[at + i] != needle[i] {
            assert(text@.subrange(at as int, at + needle@.len())[i as int] != needle@[i as int]);
            return false;
        }
        i += 1;
    }
    assert(text@.subrange(at as int, at + needle@.len()) =~= needle@);
    true
}

/// Tells whether `needle` stands anywhere in `text`.
pub fn contains(text: &str, needle: &str) -> (found: bool)
    ensures
        found == contains_text(text@, needle@),
{
    let text_chars = to_chars(text);
    let needle_chars = to_chars(needle);
    if needle_chars.len() > text_chars.len() {
        assert(forall|at: int| !stands_at(text@, needle@, at));
        return false;
    }
    let last: usize = text_chars.len() - needle_chars.len();
    let mut at: usize = 0;
    loop
        invariant
            text_chars@ == text@,
            needle_chars@ == needle@,
            last == text@.len() - needle@.len(),
            at <= last,
            forall|i: int| 0 <= i < at ==> !stands_at(text@, needle@, i),
        decreases last - at,
    {
        if matches_at(&text_chars, &needle_chars, at) {
            return true;
        }
        if at == last {
            assert(forall|i: int| !stands_at(text@, needle@, i));
            return false;
        }
        at += 1;
    }
}

/// A number is written with as many digits as it needs, and the digit at each place is that of its
/// tens, hundreds and so on: counted from the end, place `k` holds how often the `k`th power of ten
/// goes into the number, but for whole tens of it.
pub proof fn law_decimal_digits(n: nat)
    ensures
        n < pow(10, decimal(n).len()),
        decimal(n).len() > 0,
        decimal(n).len() > 1 ==> pow(10, (decimal(n).len() - 1) as nat) <= n,
        forall|k: nat|
            k < decimal(n).len() ==> #[trigger] decimal(n)[decimal(n).len() - 1 - k]
                == "0123456789"@[(n as int / pow(10, k)) % 10],
    decreases n,
{
    reveal_strlit("0123456789");
    reveal(pow);
    if n < 10 {
        reveal_with_fuel(pow, 3);
        assert(pow(10, 0) == 1);
        assert(pow(10, 1) == 10);
        assert forall|k: nat| k < decimal(n).len() implies #[trigger] decimal(n)[decimal(n).len() - 1
            - k] == "0123456789"@[(n as int / pow(10, k)) % 10] by {
            assert(k == 0);
        }
    } else {
        let front = decimal(n / 10);
        let len = decimal(n).len();
        law_decimal_digits(n / 10);
        assert(len == front.len() + 1);
        assert(pow(10, len) == 10 * pow(10, front.len()));
        assert(pow(10, front.len()) == 10 * pow(10, (front.len() - 1) as nat));
        assert(pow(10, 0) == 1);
        assert(front.len() == 1 ==> pow(10, (front.len() - 1) as nat) == 1);
        assert forall|k: nat| k < len implies #[trigger] decimal(n)[len - 1 - k]
            == "0123456789"@[(n as int / pow(10, k)) % 10] by {
            if k > 0 {
                let less = (k - 1) as nat;
                assert(decimal(n)[len - 1 - k] == front[front.len() - 1 - less]);
                lemma_pow_positive(less);
                lemma_div_denominator(n as int, 10, pow(10, less));
                assert(pow(10, k) == 10 * pow(10, less));
            } else {
                assert(n as int / 1 == n);
            }
        }
    }
}

/// A power of ten is positive.
proof fn lemma_pow_positive(k: nat)
    ensures
        pow(10, k) > 0,
    decreases k,
{
    reveal(pow);
    if k > 0 {
        lemma_pow_positive((k - 1) as nat);
    }
}

/// A row of digits is worth what its front part is worth at its place, and what the rest is worth; no
/// digits are worth nothing, and one digit is worth its place among the ten.
pub proof fn law_decimal_value_of_concat(a: Seq<char>, b: Seq<char>)
    ensures
        decimal_value(a + b) == decimal_value(a) * pow(10, b.len()) + decimal_value(b),
        decimal_value(Seq::empty()) == 0,
        forall|k: int| 0 <= k < 10 ==> decimal_value(seq![#[trigger] "0123456789"@[k]]) == k,
    decreases b.len(),
{
    reveal_strlit("0123456789");
    reveal(pow);
    assert forall|k: int| 0 <= k < 10 implies decimal_value(seq![#[trigger] "0123456789"@[k]]) == k by {
        let one = seq!["0123456789"@[k]];
        assert(one.drop_last() =~= Seq::<char>::empty());
        assert(decimal_value(one.drop_last()) == 0);
    }
    if b.len() == 0 {
        assert(a + b =~= a);
        assert(pow(10, 0) == 1);
    } else {
        let front = b.drop_last();
        law_decimal_value_of_concat(a, front);
        assert((a + b).drop_last() =~= a + front);
        assert((a + b).last() == b.last());
        let worth = decimal_value(a) as int;
        let power = pow(10, front.len());
        assert(pow(10, b.len()) == 10 * power);
        assert(10 * (worth * power) == worth * (10 * power)) by (nonlinear_arith);
    }
}

/// A row of zeros.
pub open spec fn zero_row(zeros: nat) -> Seq<char> {
    Seq::new(zeros, |i: int| '0')
}

/// A row of digits is the number that it is worth, in decimal, behind zeros.
proof fn lemma_digits_are_zeros_and_decimal(digits: Seq<char>)
    requires
        digits.len() > 0,
        is_decimal(digits),
    ensures
        exists|zeros: nat|
            digits == #[trigger] zero_row(zeros) + decimal(decimal_value(digits)),
    decreases digits.len(),
{
    let front = digits.drop_last();
    let value = decimal_value(digits);
    let units = (digits.last() as nat - 0x30) as nat;
    assert('0' <= digits[digits.len() - 1] <= '9');
    assert(digits.last() == digit(units));
    assert forall|i: int| 0 <= i < front.len() implies '0' <= #[trigger] front[i] <= '9' by {
        assert(front[i] == digits[i]);
    }
    if front.len() == 0 {
        assert(front =~= Seq::<char>::empty());
        assert(decimal_value(front) == 0);
        assert(digits =~= zero_row(0) + decimal(value));
    } else {
        lemma_digits_are_zeros_and_decimal(front);
        let zeros = choose|zeros: nat|
            front == #[trigger] zero_row(zeros) + decimal(decimal_value(front));
        if decimal_value(front) == 0 {
            assert(decimal(0) =~= seq!['0']);
            assert(front =~= zero_row(zeros + 1));
            assert(value == units && decimal(value) =~= seq![digit(units)]);
            assert(digits =~= front.push(digits.last()));
            assert(digits =~= zero_row(zeros + 1) + decimal(value));
        } else {
            let upper = decimal_value(front);
            assert(value == 10 * upper + units && value / 10 == upper && value % 10 == units);
            assert(decimal(value) == decimal(upper).push(digits.last()));
            assert(digits =~= front.push(digits.last()));
            assert(digits =~= zero_row(zeros) + decimal(value));
        }
    }
}

/// Zeros in front of a row of digits do not count.
proof fn lemma_zeros_in_front(zeros: nat, digits: Seq<char>)
    ensures
        decimal_value(zero_row(zeros) + digits) == decimal_value(digits),
    decreases zeros,
{
    let row = zero_row(zeros);
    law_decimal_value_of_concat(row, digits);
    if zeros > 0 {
        let fewer = (zeros - 1) as nat;
        lemma_zeros_in_front(fewer, Seq::empty());
        assert(row.drop_last() =~= zero_row(fewer));
        assert(row.drop_last() + Seq::<char>::empty() =~= row.drop_last());
        law_decimal_value_of_concat(Seq::empty(), Seq::empty());
        assert(decimal_value(row) == 0);
    }
    assert(decimal_value(row) == 0);
    assert(0 * pow(10, digits.len()) == 0);
}

/// The texts that stand for a number are its decimal form and that form behind a plus sign, each with
/// any number of zeros in front of its digits, and no others.
pub proof fn law_u16_texts(text: Seq<char>, value: u16)
    ensures
        u16_text(text) == Some(value) <==> exists|zeros: nat|
            {
                let digits = #[trigger] zero_row(zeros) + decimal(value as nat);
                text == digits || text == seq!['+'] + digits
            },
{
    let signed = text.len() > 0 && text[0] == '+';
    let digits = if signed { text.skip(1) } else { text };
    if u16_text(text) == Some(value) {
        lemma_digits_are_zeros_and_decimal(digits);
        let zeros = choose|zeros: nat|
            digits == #[trigger] zero_row(zeros) + decimal(decimal_value(digits));
        let row = zero_row(zeros) + decimal(value as nat);
        assert(digits == row);
        if signed {
            assert(text =~= seq!['+'] + row);
        }
    }
    assert forall|zeros: nat|
        ({
            let row = #[trigger] zero_row(zeros) + decimal(value as nat);
            text == row || text == seq!['+'] + row
        }) implies u16_text(text) == Some(value) by {
        let row = zero_row(zeros) + decimal(value as nat);
        law_decimal_round_trip(value as nat);
        lemma_zeros_in_front(zeros, decimal(value as nat));
        assert forall|i: int| 0 <= i < row.len() implies '0' <= #[trigger] row[i] <= '9' by {
            if i >= zeros {
                assert(row[i] == decimal(value as nat)[i - zeros]);
            }
        }
        assert('0' <= row[0] <= '9');
        if text != row {
            assert(text.skip(1) =~= row);
        }
    }
}

/// A text holds another exactly if it is that other with something, or nothing, in front of it and
/// behind it.
pub proof fn law_contained_texts(text: Seq<char>, needle: Seq<char>)
    ensures
        contains_text(text, needle) <==> exists|front: Seq<char>, back: Seq<char>|
            text == #[trigger] (front + needle + back),
{
    if contains_text(text, needle) {
        let at = choose|at: int| stands_at(text, needle, at);
        let front = text.take(at);
        let back = text.skip(at + needle.len());
        assert(text =~= front + text.subrange(at, at + needle.len()) + back);
    }
    assert forall|front: Seq<char>, back: Seq<char>|
        text == #[trigger] (front + needle + back) implies contains_text(text, needle) by {
        assert(text.subrange(front.len() as int, (front.len() + needle.len()) as int) =~= needle);
        assert(stands_at(text, needle, front.len() as int));
    }
}

} // verus!
