use bitcoin::secp256k1::Secp256k1;
use bitcoin::util::bip32::{ChildNumber, ExtendedPrivKey};
use rusty_lightning::hex::{hex_str, hex_to_vec};
use rusty_lightning::keys::{
    hex_to_compressed_pubkey, import_keys, node_id, seed_from_file, seed_from_random, PublicKey,
};
use rusty_lightning::network::Network;

const GENERATOR: &str = "0279be667ef9dcbbac55a06295ce870b07029bfcdb2dce28d959f2815b16f81798";

#[test]
fn a_public_key_is_read_from_its_digits() {
    let key = hex_to_compressed_pubkey(GENERATOR).unwrap();
    assert_eq!(hex_str(&key.to_bytes()), GENERATOR);
}

#[test]
fn what_follows_the_digits_of_a_key_is_not_looked_at() {
    let key = hex_to_compressed_pubkey(&format!("{}@127.0.0.1:9735", GENERATOR)).unwrap();
    assert_eq!(hex_str(&key.to_bytes()), GENERATOR);
    let upper = hex_to_compressed_pubkey(&format!("{}é", GENERATOR.to_uppercase())).unwrap();
    assert_eq!(upper, key);
}

#[test]
fn digits_that_are_no_key_are_refused() {
    assert_eq!(hex_to_compressed_pubkey(&"0".repeat(66)), None);
    assert_eq!(hex_to_compressed_pubkey(&format!("04{}", &GENERATOR[2..])), None);
    assert_eq!(hex_to_compressed_pubkey(&format!("02{}", "f".repeat(64))), None);
    assert_eq!(hex_to_compressed_pubkey(&format!("{}z", &GENERATOR[..65])), None);
}

#[test]
fn a_public_key_is_read_from_its_bytes() {
    let mut bytes = [0u8; 33];
    assert_eq!(PublicKey::from_bytes(&bytes), None);
    bytes.copy_from_slice(&hex_to_vec(GENERATOR).unwrap());
    assert_eq!(PublicKey::from_bytes(&bytes).unwrap().to_bytes(), bytes);
}

#[test]
fn the_node_id_of_the_smallest_secret_is_the_generator() {
    let mut secret = [0u8; 32];
    assert_eq!(node_id(&secret), None);
    secret[31] = 1;
    assert_eq!(hex_str(&node_id(&secret).unwrap().to_bytes()), GENERATOR);
}

#[test]
fn a_seed_is_32_bytes() {
    let bytes: Vec<u8> = (1..=32).collect();
    assert_eq!(seed_from_file(&bytes).unwrap().to_vec(), bytes);
    assert_eq!(seed_from_file(&bytes[..31]), None);
    assert_eq!(seed_from_file(&[0; 33]), None);
    assert_eq!(seed_from_file(&[]), None);
}

#[test]
fn a_drawn_seed_is_what_was_drawn() {
    let random: [u8; 32] = core::array::from_fn(|i| 255 - i as u8);
    assert_eq!(seed_from_random(&random), random);
}

#[test]
fn the_wallet_keys_are_the_first_two_hardened_children() {
    let seed: [u8; 32] = core::array::from_fn(|i| i as u8);
    let context = Secp256k1::new();
    let master = ExtendedPrivKey::new_master(bitcoin::Network::Testnet, &seed).unwrap();
    let child = |index: u32| {
        let number = ChildNumber::from_hardened_idx(index).unwrap();
        master.ckd_priv(&context, number).unwrap().private_key[..].to_vec()
    };
    let (first, second) = import_keys(Network::Testnet, &seed).unwrap();
    assert_eq!(first.to_vec(), child(1));
    assert_eq!(second.to_vec(), child(2));
    assert_ne!(first, second);
    assert_eq!(import_keys(Network::Bitcoin, &seed), Some((first, second)));
}
