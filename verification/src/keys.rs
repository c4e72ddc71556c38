//! Keys: the node's seed, what is derived from it, and the keys of other nodes.
use bitcoin::secp256k1;
use bitcoin::util::bip32;
use vstd::prelude::*;
use vstd::string::*;
use vstd::utf8::*;

use crate::hex::{hex_decoded, hex_to_vec, is_hex};
use crate::network::Network;

verus! {

/// A public key.
#[derive(Clone, Copy, Debug, PartialEq, Eq)]
pub struct PublicKey {
    bytes: [u8; 33],
}

/// Whether 33 bytes are the compressed form of a point of the curve.
pub uninterp spec fn is_public_key(bytes: Seq<u8>) -> bool;

/// The compressed public key that belongs to a secret key, or `None` if there is no such secret key.
pub uninterp spec fn public_key_of(secret: Seq<u8>) -> Option<Seq<u8>>;

/// The secret key and the chain code at the root of the key tree of a seed, or `None` if the seed has
/// no such tree.
pub uninterp spec fn master_key_of(seed: Seq<u8>) -> Option<(Seq<u8>, Seq<u8>)>;

/// The secret key of a hardened child of a secret key and chain code, or `None` if there is no such
/// child.
pub uninterp spec fn hardened_child_of(
    secret: Seq<u8>,
    chain_code: Seq<u8>,
    index: u32,
) -> Option<Seq<u8>>;

/// Reads a compressed public key.
///
/// Calls `PublicKey::from_slice` of `secp256k1`, which `bitcoin` hands on, and writes the key out
/// again with `PublicKey::serialize`. What is claimed of them: whether 33 bytes are a key depends on
/// those bytes alone, and a key is written out as the bytes it was read from.
#[verifier::external_body]
fn read_public_key(data: &[u8]) -> (key: Option<[u8; 33]>)
    requires
        data@.len() == 33,
    ensures
        key is Some <==> is_public_key(data@),
        key matches Some(bytes) ==> bytes@ == data@,
{
    match secp256k1::PublicKey::from_slice(data) {
        Ok(key) => Some(key.serialize()),
        Err(_) => None,
    }
}

/// The public key of a secret key.
///
/// Calls `PublicKey::from_secret_key` of `secp256k1`, which `bitcoin` hands on, on the secret key
/// that `SecretKey::from_slice` reads. What is claimed of it: the result depends on the secret key
/// alone, and is a public key.
#[verifier::external_body]
fn derive_public_key(secret: &[u8; 32]) -> (key: Option<[u8; 33]>)
    ensures
        key is Some <==> public_key_of(secret@) is Some,
        key matches Some(bytes) ==> public_key_of(secret@) == Some(bytes@) && is_public_key(bytes@),
{
    match secp256k1::SecretKey::from_slice(secret) {
        Ok(secret) => {
            let context = secp256k1::Secp256k1::new();
            Some(secp256k1::PublicKey::from_secret_key(&context, &secret).serialize())
        },
        Err(_) => None,
    }
}

/// A secret key with the chain code that its children are derived with.
struct ExtendedKey {
    secret: [u8; 32],
    chain_code: [u8; 32],
}

/// The root of the key tree of a seed.
///
/// Calls `ExtendedPrivKey::new_master` of `bitcoin::util::bip32`. What is claimed of it: the secret
/// key and the chain code depend on the seed alone; the network is only carried along.
#[verifier::external_body]
fn derive_master_key(network: Network, seed: &[u8; 32]) -> (key: Option<ExtendedKey>)
    ensures
        key is Some <==> master_key_of(seed@) is Some,
        key matches Some(k) ==> master_key_of(seed@) == Some((k.secret@, k.chain_code@)),
{
    let network = match network {
        Network::Bitcoin => bitcoin::Network::Bitcoin,
        Network::Testnet => bitcoin::Network::Testnet,
        Network::Regtest => bitcoin::Network::Regtest,
    };
    let key = bip32::ExtendedPrivKey::new_master(network, seed).ok()?;
    let secret = <[u8; 32]>::try_from(&key.private_key[..]).ok()?;
    Some(ExtendedKey { secret, chain_code: key.chain_code.to_bytes() })
}

/// The secret key of a hardened child of `parent`.
///
/// Calls `ExtendedPrivKey::ckd_priv` of `bitcoin::util::bip32`, for the child number that
/// `ChildNumber::from_hardened_idx` makes of `index`. What is claimed of it: the child's secret key
/// depends on the parent's secret key and chain code and on the index; the network, the depth and
/// the parent's own place in the tree are only carried along.
#[verifier::external_body]
fn derive_hardened_child(parent: &ExtendedKey, index: u32) -> (key: Option<[u8; 32]>)
    requires
        index < 0x8000_0000,
    ensures
        key is Some <==> hardened_child_of(parent.secret@, parent.chain_code@, index) is Some,
        key matches Some(k) ==> hardened_child_of(parent.secret@, parent.chain_code@, index) == Some(
            k@,
        ),
{
    let network = bitcoin::Network::Bitcoin;
    let key = secp256k1::SecretKey::from_slice(&parent.secret).ok()?;
    let parent = bip32::ExtendedPrivKey {
        network,
        depth: 0,
        parent_fingerprint: Default::default(),
        child_number: bip32::ChildNumber::from(0),
        private_key: bitcoin::PrivateKey { compressed: true, network, key },
        chain_code: bip32::ChainCode::from(&parent.chain_code[..]),
    };
    let number = bip32::ChildNumber::from_hardened_idx(index).ok()?;
    let child = parent.ckd_priv(&secp256k1::Secp256k1::new(), number).ok()?;
    <[u8; 32]>::try_from(&child.private_key[..]).ok()
}

/// The bytes that stand for 32 bytes in the Bitcoin protocol.
///
/// Calls `bitcoin::consensus::serialize` on an array of 32 bytes. What is claimed of it: it writes
/// the array as it is.
#[verifier::external_body]
fn serialize_32_bytes(value: &[u8; 32]) -> (bytes: Vec<u8>)
    ensures
        bytes@ == value@,
{
    bitcoin::consensus::serialize(value)
}

impl PublicKey {
    /// The bytes are a point of the curve.
    #[verifier::type_invariant]
    spec fn is_point(&self) -> bool {
        is_public_key(self.bytes@)
    }

    /// The compressed form.
    pub closed spec fn view(&self) -> Seq<u8> {
        self.bytes@
    }

    /// Reads a public key from its compressed form.
    pub fn from_bytes(bytes: &[u8; 33]) -> (key: Option<PublicKey>)
        ensures
            key is Some <==> is_public_key(bytes@),
            key matches Some(k) ==> k@ == bytes@,
    {
        match read_public_key(bytes.as_slice()) {
            Some(bytes) => Some(PublicKey { bytes }),
            None => None,
        }
    }

    /// The compressed form.
    pub fn to_bytes(&self) -> (bytes: [u8; 33])
        ensures
            bytes@ == self@,
            is_public_key(bytes@),
    {
        proof {
            use_type_invariant(self);
        }
        self.bytes
    }
}

/// Reads a compressed public key from the 66 hexadecimal digits that a text begins with.
///
/// The text must be long enough, with a character boundary behind the digits.
pub fn hex_to_compressed_pubkey(hex: &str) -> (key: Option<PublicKey>)
    requires
        is_char_boundary(hex.spec_bytes(), 66),
    ensures
        key is Some <==> is_hex(hex.spec_bytes().take(66)) && is_public_key(
            hex_decoded(hex.spec_bytes().take(66)),
        ),
        key matches Some(k) ==> k@ == hex_decoded(hex.spec_bytes().take(66)),
{
    let digits = hex.split_at(66).0;
    proof {
        lemma_boundary_in_range(hex@, 66);
        assert(digits.spec_bytes() =~= hex.spec_bytes().take(66));
    }
    match hex_to_vec(digits) {
        Some(data) => match read_public_key(data.as_slice()) {
            Some(bytes) => Some(PublicKey { bytes }),
            None => None,
        },
        None => None,
    }
}

/// A character boundary lies within the text.
pub proof fn lemma_boundary_in_range(chars: Seq<char>, at: int)
    requires
        is_char_boundary(encode_utf8(chars), at),
    ensures
        0 <= at <= encode_utf8(chars).len(),
{
    encode_utf8_valid_utf8(chars);
}

/// The seed that a file holds: 32 bytes, or `None` if there are more or fewer.
pub fn seed_from_file(contents: &[u8]) -> (seed: Option<[u8; 32]>)
    ensures
        seed is Some <==> contents@.len() == 32,
        seed matches Some(s) ==> s@ == contents@,
{
    if contents.len() != 32 {
        return None;
    }
    let mut seed: [u8; 32] = [0u8; 32];
    let mut i: usize = 0;
    while i < 32
        invariant
            i <= 32,
            contents@.len() == 32,
            forall|j: int| 0 <= j < i ==> seed@[j] == contents@[j],
        decreases 32 - i,
    {
        seed[i] = contents[i];
        i += 1;
    }
    assert(seed@ =~= contents@);
    Some(seed)
}

/// A seed made of 32 random bytes.
pub fn seed_from_random(random: &[u8; 32]) -> (seed: [u8; 32])
    ensures
        seed == *random,
{
    let bytes = serialize_32_bytes(random);
    let seed = seed_from_file(bytes.as_slice()).unwrap();
    assert(seed =~= *random);
    seed
}

/// The secret key at `index`', directly below the root of the key tree of a seed.
pub open spec fn import_key_of(seed: Seq<u8>, index: u32) -> Option<Seq<u8>> {
    match master_key_of(seed) {
        Some((secret, chain_code)) => hardened_child_of(secret, chain_code, index),
        None => None,
    }
}

/// The two secret keys that a wallet needs to find what closed channels pay out: those at 1' and 2'
/// below the root of the key tree. `None` if one of them does not exist.
pub fn import_keys(network: Network, seed: &[u8; 32]) -> (keys: Option<([u8; 32], [u8; 32])>)
    ensures
        keys is Some <==> import_key_of(seed@, 1) is Some && import_key_of(seed@, 2) is Some,
        keys matches Some((first, second)) ==> import_key_of(seed@, 1) == Some(first@)
            && import_key_of(seed@, 2) == Some(second@),
{
    match derive_master_key(network, seed) {
        Some(master) => match (derive_hardened_child(&master, 1), derive_hardened_child(&master, 2)) {
            (Some(first), Some(second)) => Some((first, second)),
            _ => None,
        },
        None => None,
    }
}

/// The key by which other nodes know the node with this secret key, or `None` if it is not one.
pub fn node_id(secret: &[u8; 32]) -> (key: Option<PublicKey>)
    ensures
        key is Some <==> public_key_of(secret@) is Some,
        key matches Some(k) ==> public_key_of(secret@) == Some(k@),
{
    match derive_public_key(secret) {
        Some(bytes) => Some(PublicKey { bytes }),
        None => None,
    }
}

/// The keys of a seed lie directly below the root of its key tree: a seed without a root has none, and
/// otherwise the key at an index is the root's hardened child there.
pub proof fn law_import_keys_lie_below_the_root(seed: Seq<u8>, index: u32)
    ensures
        master_key_of(seed) is None ==> import_key_of(seed, index) is None,
        master_key_of(seed) matches Some((secret, chain_code)) ==> import_key_of(seed, index)
            == hardened_child_of(secret, chain_code, index),
{
}

/// A public key has 33 bytes.
pub proof fn lemma_public_key_length(key: PublicKey)
    ensures
        key@.len() == 33,
{
}

} // verus!
