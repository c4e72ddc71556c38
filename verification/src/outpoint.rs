//! Transaction ids and the outputs they name.
use bitcoin_hashes::hex::{FromHex, ToHex};
use bitcoin_hashes::sha256d;
use vstd::prelude::*;
use vstd::string::*;
use vstd::utf8::*;

use crate::hex::{
    hex_decoded, hex_encoded, is_hex, is_hex_digit, law_hex_text_round_trip, lower_hex,
};

verus! {

/// An output of a transaction: the transaction's id, in the byte order of the hash, and the
/// output's place in it.
#[derive(Clone, Copy, Debug, PartialEq, Eq)]
pub struct OutPoint {
    pub txid: [u8; 32],
    pub index: u16,
}

/// A transaction id as it is shown to people: in hexadecimal, the last byte first.
pub open spec fn txid_text(txid: Seq<u8>) -> Seq<char> {
    hex_encoded(txid.reverse())
}

/// The transaction id that a text shows.
pub open spec fn txid_of_text(text: Seq<char>) -> Option<Seq<u8>> {
    let bytes = encode_utf8(text);
    if bytes.len() == 64 && is_hex(bytes) {
        Some(hex_decoded(bytes).reverse())
    } else {
        None
    }
}

/// Shows a transaction id.
///
/// Calls `to_hex` of `bitcoin_hashes::hex::ToHex` on a `bitcoin_hashes::sha256d::Hash`. What is
/// claimed of it: it writes the bytes of the hash from the last to the first, each as two
/// lower-case hexadecimal digits.
#[verifier::external_body]
pub(crate) fn show_txid(txid: &[u8; 32]) -> (text: String)
    ensures
        text@ == txid_text(txid@),
{
    <sha256d::Hash as bitcoin_hashes::Hash>::from_inner(*txid).to_hex()
}

/// Reads a transaction id.
///
/// Calls `from_hex` of `bitcoin_hashes::hex::FromHex` for `bitcoin_hashes::sha256d::Hash`. What is
/// claimed of it: it succeeds on exactly the texts of 64 hexadecimal digits of either case, and
/// gives the bytes that they stand for from the last to the first.
#[verifier::external_body]
pub(crate) fn read_txid(text: &str) -> (txid: Option<[u8; 32]>)
    ensures
        txid is Some <==> txid_of_text(text@) is Some,
        txid matches Some(t) ==> txid_of_text(text@) == Some(t@),
{
    match sha256d::Hash::from_hex(text) {
        Ok(hash) => Some(bitcoin_hashes::Hash::into_inner(hash)),
        Err(_) => None,
    }
}

/// Reading a transaction id that was shown gives it back.
pub proof fn law_txid_round_trip(txid: Seq<u8>)
    requires
        txid.len() == 32,
    ensures
        txid_of_text(txid_text(txid)) == Some(txid),
{
    crate::hex::law_hex_round_trip(txid.reverse());
    crate::hex::lemma_hex_encoded_ascii(txid.reverse());
    assert(txid.reverse().reverse() =~= txid);
}

/// Whether two hashes are the same.
pub fn same_hash(a: &[u8; 32], b: &[u8; 32]) -> (same: bool)
    ensures
        same == (*a == *b),
{
    let mut i: usize = 0;
    while i < 32
        invariant
            i <= 32,
            forall|j: int| 0 <= j < i ==> a@[j] == b@[j],
        decreases 32 - i,
    {
        if a[i] != b[i] {
            return false;
        }
        i += 1;
    }
    assert(*a =~= *b);
    true
}

/// A transaction id is shown from its last byte to its first, each as the digit of its sixteens and the
/// digit of its units.
pub proof fn law_txid_is_shown_backwards(txid: Seq<u8>, i: int)
    requires
        0 <= i < txid.len(),
    ensures
        txid_text(txid).len() == 2 * txid.len(),
        txid_text(txid)[2 * i] == "0123456789abcdef"@[txid[txid.len() - 1 - i] as int / 16],
        txid_text(txid)[2 * i + 1] == "0123456789abcdef"@[txid[txid.len() - 1 - i] as int % 16],
{
    crate::hex::law_hex_digits_of_each_byte(txid.reverse(), i);
}

/// The texts that show a transaction id are the one that it is shown by and those that differ from it
/// only in the case of letters.
pub proof fn law_txid_texts(text: Seq<char>, txid: Seq<u8>)
    ensures
        txid_of_text(text) == Some(txid) <==> txid.len() == 32 && text.map_values(
            |c: char| lower_hex(c),
        ) == txid_text(txid),
{
    let lower = text.map_values(|c: char| lower_hex(c));
    let shown = txid.reverse();
    let bytes = encode_utf8(text);
    assert(shown.reverse() =~= txid);
    if txid_of_text(text) == Some(txid) {
        law_hex_text_round_trip(text);
        crate::text::lemma_ascii_bytes(text);
        crate::text::lemma_ascii_encoding(text);
        assert(text.take(64) =~= text);
        assert(hex_decoded(bytes).len() == 32);
        assert(hex_decoded(bytes).reverse().reverse() =~= hex_decoded(bytes));
    }
    if txid.len() == 32 && lower == txid_text(txid) {
        assert(shown.len() == 32);
        assert(lower.len() == text.len());
        assert(text.len() == 64);
        assert forall|i: int| 0 <= i < text.len() implies '\0' <= #[trigger] text[i] <= '\u{7f}'
            && is_hex_digit(text[i] as u8) by {
            assert(lower[i] == lower_hex(text[i]));
            assert(lower[i] == hex_encoded(shown)[i]);
        }
        crate::text::lemma_ascii_encoding(text);
        assert forall|i: int| 0 <= i < bytes.len() implies is_hex_digit(#[trigger] bytes[i]) by {
            assert(bytes[i] == text[i] as u8);
        }
        law_hex_text_round_trip(text);
        assert(text.take(64) =~= text);
        let read = hex_decoded(bytes);
        assert(hex_encoded(read) == hex_encoded(shown));
        crate::hex::law_hex_round_trip(read);
        crate::hex::law_hex_round_trip(shown);
    }
}

} // verus!
