use rusty_lightning::hex::hex_to_vec;
use rusty_lightning::network::Network;

fn address(network: Network, script: &str) -> Option<String> {
    network.funding_address(&hex_to_vec(script).unwrap())
}

#[test]
fn the_names_of_the_networks_are_known() {
    assert_eq!(Network::from_id("main"), Some(Network::Bitcoin));
    assert_eq!(Network::from_id("test"), Some(Network::Testnet));
    assert_eq!(Network::from_id("regtest"), Some(Network::Regtest));
}

#[test]
fn other_names_are_not_known() {
    assert_eq!(Network::from_id("signet"), None);
    assert_eq!(Network::from_id("Main"), None);
    assert_eq!(Network::from_id(""), None);
    assert_eq!(Network::from_id("testnet"), None);
}

#[test]
fn a_key_hash_has_an_address() {
    let script = "0014751e76e8199196d454941c45d1b3a323f1433bd6";
    assert_eq!(
        address(Network::Bitcoin, script).unwrap(),
        "bc1qw508d6qejxtdg4y5r3zarvary0c5xw7kv8f3t4"
    );
    assert_eq!(
        address(Network::Testnet, script).unwrap(),
        "tb1qw508d6qejxtdg4y5r3zarvary0c5xw7kxpjzsx"
    );
    assert!(address(Network::Regtest, script).unwrap().starts_with("bcrt1q"));
}

#[test]
fn a_script_hash_has_an_address() {
    let script = "00201863143c14c5166804bd19203356da136c985678cd4d27a1b8c6329604903262";
    assert_eq!(
        address(Network::Testnet, script).unwrap(),
        "tb1qrp33g0q5c5txsp9arysrx4k6zdkfs4nce4xj0gdcccefvpysxf3q0sl5k7"
    );
}

#[test]
fn later_versions_have_addresses() {
    assert_eq!(
        address(
            Network::Bitcoin,
            "5128751e76e8199196d454941c45d1b3a323f1433bd6751e76e8199196d454941c45d1b3a323f1433bd6"
        )
        .unwrap(),
        "bc1pw508d6qejxtdg4y5r3zarvary0c5xw7kw508d6qejxtdg4y5r3zarvary0c5xw7k7grplx"
    );
    assert_eq!(address(Network::Bitcoin, "6002751e").unwrap(), "bc1sw50qa3jx3s");
}

#[test]
fn other_scripts_have_no_address() {
    // Too short.
    assert_eq!(address(Network::Bitcoin, ""), None);
    assert_eq!(address(Network::Bitcoin, "00"), None);
    assert_eq!(address(Network::Bitcoin, "000100"), None);
    // The length does not fit.
    assert_eq!(address(Network::Bitcoin, "0015751e76e8199196d454941c45d1b3a323f1433bd6"), None);
    // Neither 20 nor 32 bytes in version 0.
    assert_eq!(address(Network::Bitcoin, "0002751e"), None);
    // A version over 16.
    assert_eq!(address(Network::Bitcoin, "6102751e"), None);
    // A version that could not be written at all.
    assert_eq!(address(Network::Bitcoin, "2002751e"), None);
    assert_eq!(address(Network::Bitcoin, "7002751e"), None);
    // More than 40 bytes.
    assert_eq!(address(Network::Bitcoin, &format!("5129{}", "00".repeat(41))), None);
    // An ordinary payment to a key hash.
    assert_eq!(
        address(Network::Bitcoin, "76a914751e76e8199196d454941c45d1b3a323f1433bd688ac"),
        None
    );
}
