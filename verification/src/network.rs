//! The Bitcoin network that a node runs on, and addresses on it.
use vstd::prelude::*;
use vstd::string::*;

verus! {

/// A Bitcoin network.
#[derive(Clone, Copy, Debug, PartialEq, Eq, Structural)]
pub enum Network {
    Bitcoin,
    Testnet,
    Regtest,
}

/// The network that the full node calls by this name.
pub open spec fn network_of_id(id: Seq<char>) -> Option<Network> {
    if id == "main"@ {
        Some(Network::Bitcoin)
    } else if id == "test"@ {
        Some(Network::Testnet)
    } else if id == "regtest"@ {
        Some(Network::Regtest)
    } else {
        None
    }
}

/// What an address on a network begins with.
pub open spec fn address_prefix(network: Network) -> Seq<char> {
    match network {
        Network::Bitcoin => "bc"@,
        Network::Testnet => "tb"@,
        Network::Regtest => "bcrt"@,
    }
}

/// The witness version that an output script begins with.
pub open spec fn witness_version(script: Seq<u8>) -> int {
    if script[0] > 0x50 {
        script[0] - 0x50
    } else {
        script[0] as int
    }
}

/// Whether an output script has the outer form of a witness program: a version, a length, and that
/// many bytes, two or more.
pub open spec fn witness_form(script: Seq<u8>) -> bool {
    script.len() >= 4 && script.len() == 2 + script[1]
}

/// Whether an output script is a witness program: the form, a version up to 16, at most 40 bytes,
/// and 20 or 32 bytes in version 0.
pub open spec fn is_witness_script(script: Seq<u8>) -> bool {
    &&& witness_form(script)
    &&& witness_version(script) <= 16
    &&& script[1] <= 40
    &&& witness_version(script) == 0 ==> script[1] == 20 || script[1] == 32
}

/// The address of a witness program under a prefix, as `bitcoin_bech32` writes it.
pub uninterp spec fn witness_address(script: Seq<u8>, prefix: Seq<char>) -> Seq<char>;

/// The address of an output script.
///
/// Calls `WitnessProgram::from_scriptpubkey` and `WitnessProgram::to_address` of `bitcoin_bech32`.
/// What is claimed of them: they succeed on exactly the witness programs, and the address is a
/// function of the script and of the network's prefix. A script of the right outer form with a
/// version of 32 or more is left out, because `from_scriptpubkey` panics on it.
#[verifier::external_body]
fn encode_witness_address(script: &[u8], network: Network) -> (address: Option<String>)
    requires
        witness_form(script@) ==> witness_version(script@) < 32,
    ensures
        address is Some <==> is_witness_script(script@),
        address matches Some(text) ==> text@ == witness_address(script@, address_prefix(network)),
{
    let network = match network {
        Network::Bitcoin => bitcoin_bech32::constants::Network::Bitcoin,
        Network::Testnet => bitcoin_bech32::constants::Network::Testnet,
        Network::Regtest => bitcoin_bech32::constants::Network::Regtest,
    };
    match bitcoin_bech32::WitnessProgram::from_scriptpubkey(script, network) {
        Ok(program) => Some(program.to_address()),
        Err(_) => None,
    }
}

impl Network {
    /// The network that the full node calls by this name, or `None` if it is not known.
    pub fn from_id(id: &str) -> (network: Option<Network>)
        ensures
            network == network_of_id(id@),
    {
        let id = id.to_string();
        if id == "main".to_string() {
            Some(Network::Bitcoin)
        } else if id == "test".to_string() {
            Some(Network::Testnet)
        } else if id == "regtest".to_string() {
            Some(Network::Regtest)
        } else {
            None
        }
    }

    /// The address that a funding output pays to, or `None` if the output is not a witness program.
    pub fn funding_address(self, output_script: &[u8]) -> (address: Option<String>)
        ensures
            address is Some <==> is_witness_script(output_script@),
            address matches Some(text) ==> text@ == witness_address(
                output_script@,
                address_prefix(self),
            ),
    {
        if output_script.len() >= 2 {
            let version: u8 = if output_script[0] > 0x50 {
                output_script[0] - 0x50
            } else {
                output_script[0]
            };
            if version >= 32 {
                return None;
            }
        }
        encode_witness_address(output_script, self)
    }
}

/// No two names stand for one network, and no two networks have addresses that begin alike.
pub proof fn law_networks_are_told_apart(a: Seq<char>, b: Seq<char>)
    requires
        a != b,
        network_of_id(a) is Some,
        network_of_id(b) is Some,
    ensures
        network_of_id(a) != network_of_id(b),
        address_prefix(network_of_id(a)->0) != address_prefix(network_of_id(b)->0),
{
    reveal_strlit("bc");
    reveal_strlit("tb");
    reveal_strlit("bcrt");
    assert("bc"@[0] != "tb"@[0]);
    assert("bcrt"@.len() == 4);
}

/// An output script is a witness program exactly if it is made of a byte for its version, a byte for
/// the length of a program, and that program. The version is 0 to 16, as a number or as the opcode for
/// it; the program has 2 to 40 bytes, and in version 0 it has 20 or 32.
pub proof fn law_witness_scripts(script: Seq<u8>)
    ensures
        is_witness_script(script) <==> exists|first: u8, program: Seq<u8>|
            {
                &&& script == #[trigger] (Seq::empty().push(first).push(program.len() as u8) + program)
                &&& first <= 16 || 0x51 <= first <= 0x60
                &&& 2 <= program.len() <= 40
                &&& first == 0 ==> program.len() == 20 || program.len() == 32
            },
{
    if is_witness_script(script) {
        let program = script.skip(2);
        assert(script =~= Seq::empty().push(script[0]).push(program.len() as u8) + program);
    }
    assert forall|first: u8, program: Seq<u8>|
        ({
            &&& script == #[trigger] (Seq::empty().push(first).push(program.len() as u8) + program)
            &&& first <= 16 || 0x51 <= first <= 0x60
            &&& 2 <= program.len() <= 40
            &&& first == 0 ==> program.len() == 20 || program.len() == 32
        }) implies is_witness_script(script) by {
        assert(script[0] == first && script[1] == program.len());
    }
}

} // verus!
