//! A node: how it starts, and how it deals with other nodes.
use vstd::prelude::*;
use vstd::string::*;
use vstd::utf8::*;

use crate::hex::{
    hex_decoded, hex_encoded, hex_str, is_hex, is_hex_digit, law_hex_round_trip,
    law_hex_text_round_trip, lemma_hex_encoded_ascii, lower_hex,
};
use crate::keys::{
    hex_to_compressed_pubkey, import_key_of, import_keys, is_public_key, lemma_boundary_in_range,
    seed_from_file, seed_from_random, PublicKey,
};
use crate::network::{network_of_id, Network};
use crate::text::{decimal, lemma_encoding_of_concat, push_decimal};

verus! {

/// The share of a payment that the node takes for passing it on, in millionths.
pub const FEE_PROPORTIONAL_MILLIONTHS: u32 = 10;

/// Whether the node makes its channels known to everybody.
pub const ANNOUNCE_CHANNELS: bool = false;

/// The height of the chain that a new set of channels begins at.
pub const STARTING_HEIGHT: usize = 500000;

/// How long the node waits for another node to answer a call, in seconds.
pub const CONNECT_TIMEOUT_SECS: u64 = 10;

/// Why a node cannot start.
#[derive(Clone, Copy, Debug, PartialEq, Eq, Structural)]
pub enum StartupFault {
    /// The full node runs on a network that is not known.
    UnknownNetwork,
    /// The file that holds the seed does not hold 32 bytes.
    MalformedSeed,
    /// The keys that the wallet needs cannot be derived from the seed.
    UnusableSeed,
    /// There are channel monitors, but no state of the channels.
    LostChannelState,
}

/// What is to be done next to start a node.
#[derive(Clone, Copy, Debug, PartialEq, Eq, Structural)]
pub enum StartupStage {
    /// Read the file that holds the seed.
    ReadSeed,
    /// Draw 32 random bytes.
    DrawSeed,
    /// Write the seed to its file, and sync it.
    StoreSeed,
    /// Derive the keys that the wallet needs.
    DeriveKeys,
    /// Load the channel monitors.
    LoadMonitors,
    /// Open the file that holds the state of the channels.
    OpenManager,
    /// Restore the channels from their state, with their monitors.
    RestoreChannels,
    /// Begin without channels.
    CreateChannels,
    /// Give up.
    Refuse(StartupFault),
}

/// How what was to be done came out.
pub enum StartupEvent {
    /// What the file with the seed holds; `None` if it could not be read.
    SeedFile(Option<Vec<u8>>),
    /// The random bytes.
    Random([u8; 32]),
    /// The seed was written.
    SeedStored,
    /// The keys that the wallet needs; `None` if there are none.
    ImportKeys(Option<([u8; 32], [u8; 32])>),
    /// How many monitors there are.
    MonitorsLoaded(usize),
    /// Whether the file with the state of the channels could be opened.
    ManagerOpened(bool),
}

/// Whether `event` tells how `stage` came out.
pub open spec fn awaits(stage: StartupStage, event: StartupEvent) -> bool {
    match event {
        StartupEvent::SeedFile(_) => stage == StartupStage::ReadSeed,
        StartupEvent::Random(_) => stage == StartupStage::DrawSeed,
        StartupEvent::SeedStored => stage == StartupStage::StoreSeed,
        StartupEvent::ImportKeys(_) => stage == StartupStage::DeriveKeys,
        StartupEvent::MonitorsLoaded(_) => stage == StartupStage::LoadMonitors,
        StartupEvent::ManagerOpened(_) => stage == StartupStage::OpenManager,
    }
}

/// How far the start of a node has come.
pub struct Startup {
    pub stage: StartupStage,
    /// The seed, once it is known.
    pub seed: Option<Seq<u8>>,
    /// How many monitors there are, once it is known.
    pub monitors: nat,
}

/// The start of a node after an event.
pub open spec fn startup_step(state: Startup, event: StartupEvent) -> Startup {
    match event {
        StartupEvent::SeedFile(Some(contents)) => if contents@.len() == 32 {
            Startup { stage: StartupStage::DeriveKeys, seed: Some(contents@), ..state }
        } else {
            Startup { stage: StartupStage::Refuse(StartupFault::MalformedSeed), ..state }
        },
        StartupEvent::SeedFile(None) => Startup { stage: StartupStage::DrawSeed, ..state },
        StartupEvent::Random(bytes) => Startup {
            stage: StartupStage::StoreSeed,
            seed: Some(bytes@),
            ..state
        },
        StartupEvent::SeedStored => Startup { stage: StartupStage::DeriveKeys, ..state },
        StartupEvent::ImportKeys(keys) => Startup {
            stage: if keys is Some {
                StartupStage::LoadMonitors
            } else {
                StartupStage::Refuse(StartupFault::UnusableSeed)
            },
            ..state
        },
        StartupEvent::MonitorsLoaded(count) => Startup {
            stage: StartupStage::OpenManager,
            monitors: count as nat,
            ..state
        },
        StartupEvent::ManagerOpened(opened) => Startup {
            stage: if opened {
                StartupStage::RestoreChannels
            } else if state.monitors > 0 {
                StartupStage::Refuse(StartupFault::LostChannelState)
            } else {
                StartupStage::CreateChannels
            },
            ..state
        },
    }
}

/// A node.
pub struct Node {
    /// The network that it runs on.
    pub network: Network,
    /// The path of the directory that holds its files.
    pub data_path: String,
    /// Its seed, once it is known.
    pub seed: Option<[u8; 32]>,
    /// How many channel monitors it has, once it is known.
    pub monitors: usize,
    /// What is to be done next to start it.
    pub stage: StartupStage,
}

/// What to do about a line that names a node to connect to.
#[derive(Debug, PartialEq, Eq)]
pub enum ConnectPlan {
    /// The line is not text: answer no.
    Unreadable,
    /// The line does not begin with a public key.
    BadKey,
    /// There is no `@` behind the public key.
    BadLine,
    /// Connect to the node with this public key at this host and port.
    Dial { key: PublicKey, address: String },
}

/// A `ConnectPlan` with its texts as characters.
pub enum ConnectChoice {
    Unreadable,
    BadKey,
    BadLine,
    Dial { key: Seq<u8>, address: Seq<char> },
}

impl View for ConnectPlan {
    type V = ConnectChoice;

    open spec fn view(&self) -> ConnectChoice {
        match *self {
            ConnectPlan::Unreadable => ConnectChoice::Unreadable,
            ConnectPlan::BadKey => ConnectChoice::BadKey,
            ConnectPlan::BadLine => ConnectChoice::BadLine,
            ConnectPlan::Dial { key, address } => ConnectChoice::Dial {
                key: key@,
                address: address@,
            },
        }
    }
}

/// Whether a line can be cut behind the 66 bytes that a public key takes.
pub open spec fn has_key_part(line: Seq<char>) -> bool {
    is_char_boundary(encode_utf8(line), 66)
}

/// The public key that a line begins with.
pub open spec fn key_of_line(line: Seq<char>) -> Option<Seq<u8>> {
    let digits = encode_utf8(line).take(66);
    if is_hex(digits) && is_public_key(hex_decoded(digits)) {
        Some(hex_decoded(digits))
    } else {
        None
    }
}

/// What a line asks for, given the public key that it begins with.
pub open spec fn connect_choice(line: Seq<char>, key: Option<Seq<u8>>) -> ConnectChoice {
    let bytes = encode_utf8(line);
    match key {
        Some(key) => if bytes[66] == 0x40 {
            ConnectChoice::Dial { key, address: decode_utf8(bytes.skip(67)) }
        } else {
            ConnectChoice::BadLine
        },
        None => ConnectChoice::BadKey,
    }
}

/// Where and how a node listens for calls.
pub struct ListenPlan {
    /// The address of the interface.
    pub address: [u8; 4],
    pub port: u16,
    /// What to print first.
    pub report: String,
}

/// The list of the nodes that are connected.
pub open spec fn peers_text(node_ids: Seq<PublicKey>) -> Seq<char>
    decreases node_ids.len(),
{
    if node_ids.len() == 0 {
        Seq::empty()
    } else {
        peers_text(node_ids.drop_last()) + hex_encoded(node_ids.last()@) + ", "@
    }
}

impl Node {
    /// How far the start of the node has come.
    pub open spec fn startup(&self) -> Startup {
        Startup {
            stage: self.stage,
            seed: match self.seed {
                Some(seed) => Some(seed@),
                None => None,
            },
            monitors: self.monitors as nat,
        }
    }

    /// The seed is known once it has been read or drawn.
    pub open spec fn wf(&self) -> bool {
        self.stage == StartupStage::StoreSeed || self.stage == StartupStage::DeriveKeys
            ==> self.seed is Some
    }

    /// Begins to start a node whose files are under `data_path`, on the network that the full node
    /// calls `network_id`.
    pub fn new(data_path: String, network_id: &str) -> (node: Result<Node, StartupFault>)
        ensures
            match network_of_id(network_id@) {
                Some(network) => {
                    &&& node matches Ok(n)
                    &&& n.wf()
                    &&& n.network == network
                    &&& n.data_path == data_path
                    &&& n.startup() == startup_begin()
                },
                None => node == Err::<Node, _>(StartupFault::UnknownNetwork),
            },
    {
        match Network::from_id(network_id) {
            Some(network) => Ok(
                Node {
                    network,
                    data_path,
                    seed: None,
                    monitors: 0,
                    stage: StartupStage::ReadSeed,
                },
            ),
            None => Err(StartupFault::UnknownNetwork),
        }
    }

    /// The path of the file that holds the seed.
    pub fn seed_path(&self) -> (path: String)
        ensures
            path@ == self.data_path@ + "/key_seed"@,
    {
        let mut path = self.data_path.clone();
        path.append("/key_seed");
        path
    }

    /// The path of the directory that holds the channel monitors.
    pub fn monitors_path(&self) -> (path: String)
        ensures
            path@ == self.data_path@ + "/monitors"@,
    {
        let mut path = self.data_path.clone();
        path.append("/monitors");
        path
    }

    /// The path of the file that holds the state of the channels.
    pub fn manager_path(&self) -> (path: String)
        ensures
            path@ == self.data_path@ + "/manager_data"@,
    {
        let mut path = self.data_path.clone();
        path.append("/manager_data");
        path
    }

    /// Tells whether `event` tells how the present stage came out.
    pub fn awaits_event(&self, event: &StartupEvent) -> (awaited: bool)
        ensures
            awaited == awaits(self.stage, *event),
    {
        match event {
            StartupEvent::SeedFile(_) => self.stage == StartupStage::ReadSeed,
            StartupEvent::Random(_) => self.stage == StartupStage::DrawSeed,
            StartupEvent::SeedStored => self.stage == StartupStage::StoreSeed,
            StartupEvent::ImportKeys(_) => self.stage == StartupStage::DeriveKeys,
            StartupEvent::MonitorsLoaded(_) => self.stage == StartupStage::LoadMonitors,
            StartupEvent::ManagerOpened(_) => self.stage == StartupStage::OpenManager,
        }
    }

    /// Takes in how the present stage came out.
    pub fn advance(&mut self, event: StartupEvent)
        requires
            old(self).wf(),
            awaits(old(self).stage, event),
        ensures
            final(self).wf(),
            final(self).network == old(self).network,
            final(self).data_path == old(self).data_path,
            final(self).startup() == startup_step(old(self).startup(), event),
    {
        match event {
            StartupEvent::SeedFile(Some(contents)) => match seed_from_file(contents.as_slice()) {
                Some(seed) => {
                    self.seed = Some(seed);
                    self.stage = StartupStage::DeriveKeys;
                },
                None => {
                    self.stage = StartupStage::Refuse(StartupFault::MalformedSeed);
                },
            },
            StartupEvent::SeedFile(None) => {
                self.stage = StartupStage::DrawSeed;
            },
            StartupEvent::Random(bytes) => {
                self.seed = Some(seed_from_random(&bytes));
                self.stage = StartupStage::StoreSeed;
            },
            StartupEvent::SeedStored => {
                self.stage = StartupStage::DeriveKeys;
            },
            StartupEvent::ImportKeys(keys) => {
                self.stage = if keys.is_some() {
                    StartupStage::LoadMonitors
                } else {
                    StartupStage::Refuse(StartupFault::UnusableSeed)
                };
            },
            StartupEvent::MonitorsLoaded(count) => {
                self.monitors = count;
                self.stage = StartupStage::OpenManager;
            },
            StartupEvent::ManagerOpened(opened) => {
                self.stage = if opened {
                    StartupStage::RestoreChannels
                } else if self.monitors > 0 {
                    StartupStage::Refuse(StartupFault::LostChannelState)
                } else {
                    StartupStage::CreateChannels
                };
            },
        }
    }

    /// Derives the keys that the wallet needs, and goes on with them.
    pub fn derive_keys(&mut self)
        requires
            old(self).wf(),
            old(self).stage == StartupStage::DeriveKeys,
        ensures
            final(self).wf(),
            final(self).network == old(self).network,
            final(self).data_path == old(self).data_path,
            final(self).startup() == (Startup {
                stage: if import_key_of(old(self).seed->0@, 1) is Some && import_key_of(
                    old(self).seed->0@,
                    2,
                ) is Some {
                    StartupStage::LoadMonitors
                } else {
                    StartupStage::Refuse(StartupFault::UnusableSeed)
                },
                ..old(self).startup()
            }),
    {
        let seed = self.seed.unwrap();
        let keys = import_keys(self.network, &seed);
        self.advance(StartupEvent::ImportKeys(keys));
    }

    /// Where and how the node listens for calls: on all interfaces.
    pub fn listen_incoming(bind_port: u16) -> (plan: ListenPlan)
        ensures
            plan.address@ == seq![0u8, 0u8, 0u8, 0u8],
            plan.port == bind_port,
            plan.report@ == "Listening on port "@ + decimal(bind_port as nat) + "..."@,
    {
        let mut report = "Listening on port ".to_string();
        push_decimal(&mut report, bind_port as u64);
        report.append("...");
        let address: [u8; 4] = [0u8; 4];
        assert(address@ =~= seq![0u8, 0u8, 0u8, 0u8]);
        ListenPlan { address, port: bind_port, report }
    }

    /// Finds out what a line asks for, given the public key that it begins with.
    ///
    /// Where there is a key, the line must go on behind it.
    pub fn plan_connection(line: &str, key: Option<PublicKey>) -> (plan: ConnectPlan)
        requires
            has_key_part(line@),
            key is Some ==> encode_utf8(line@).len() > 66,
        ensures
            plan@ == connect_choice(
                line@,
                match key {
                    Some(k) => Some(k@),
                    None => None,
                },
            ),
    {
        let key = match key {
            Some(key) => key,
            None => return ConnectPlan::BadKey,
        };
        let rest = line.split_at(66).1;
        proof {
            lemma_boundary_in_range(line@, 66);
            encode_utf8_valid_utf8(rest@);
            assert(rest.spec_bytes()[0] == line.spec_bytes()[66]);
        }
        if rest.as_bytes()[0] != 0x40 {
            return ConnectPlan::BadLine;
        }
        proof {
            reveal_with_fuel(is_char_boundary, 2);
            assert(is_char_boundary(rest.spec_bytes(), 1));
        }
        let address = rest.split_at(1).1;
        proof {
            assert(address.spec_bytes() =~= line.spec_bytes().skip(67));
            encode_utf8_decode_utf8(address@);
        }
        ConnectPlan::Dial { key, address: address.to_string() }
    }

    /// Finds out what a line asks for that names a node to connect to; `line` is `None` for a line
    /// that is not text.
    ///
    /// There is no answer to a line that is too short: one that cannot be cut behind the public key,
    /// or that ends with it.
    pub fn connect_peer(line: Option<&str>) -> (plan: Option<ConnectPlan>)
        ensures
            match line {
                Some(l) => {
                    let cut = has_key_part(l@) && (encode_utf8(l@).len() > 66 || key_of_line(
                        l@,
                    ) is None);
                    &&& plan is Some <==> cut
                    &&& plan matches Some(p) ==> p@ == connect_choice(l@, key_of_line(l@))
                },
                None => plan matches Some(p) && p@ == ConnectChoice::Unreadable,
            },
    {
        let line = match line {
            Some(line) => line,
            None => return Some(ConnectPlan::Unreadable),
        };
        if !line.is_char_boundary(66) {
            return None;
        }
        let key = hex_to_compressed_pubkey(line);
        if key.is_some() && line.as_bytes().len() <= 66 {
            return None;
        }
        Some(Node::plan_connection(line, key))
    }

    /// The line that the nodes that are connected are reported by, and the answer: no, always.
    pub fn get_peers(node_ids: &Vec<PublicKey>) -> (report: (String, bool))
        ensures
            report.0@ == "Connected nodes: "@ + peers_text(node_ids@),
            !report.1,
    {
        let mut nodes = "Connected nodes: ".to_string();
        let mut i: usize = 0;
        assert(nodes@ + peers_text(node_ids@.take(0)) =~= nodes@);
        while i < node_ids.len()
            invariant
                i <= node_ids@.len(),
                nodes@ == "Connected nodes: "@ + peers_text(node_ids@.take(i as int)),
            decreases node_ids@.len() - i,
        {
            nodes.append(hex_str(node_ids[i].to_bytes().as_slice()).as_str());
            nodes.append(", ");
            i += 1;
            proof {
                let now = node_ids@.take(i as int);
                assert(now.drop_last() =~= node_ids@.take(i - 1));
                assert(nodes@ =~= "Connected nodes: "@ + peers_text(now));
            }
        }
        assert(node_ids@.take(i as int) =~= node_ids@);
        (nodes, false)
    }
}

impl ConnectPlan {
    /// What to print about a line that is not followed; `parsed` tells whether the address in it could
    /// be read, and is looked at only if there is one.
    pub fn refusal(&self, parsed: bool) -> (report: Option<String>)
        ensures
            match *self {
                ConnectPlan::Unreadable => report is None,
                ConnectPlan::BadKey => report matches Some(r) && r@ == "Bad PubKey for remote node"@,
                ConnectPlan::BadLine => report matches Some(r) && r@
                    == "Invalid line, should be c pubkey@host:port"@,
                ConnectPlan::Dial { .. } => {
                    &&& report is None <==> parsed
                    &&& report matches Some(r) ==> r@
                        == "Couldn't parse host:port into a socket address"@
                },
            },
    {
        match self {
            ConnectPlan::Unreadable => None,
            ConnectPlan::BadKey => Some("Bad PubKey for remote node".to_string()),
            ConnectPlan::BadLine => Some("Invalid line, should be c pubkey@host:port".to_string()),
            ConnectPlan::Dial { .. } => if parsed {
                None
            } else {
                Some("Couldn't parse host:port into a socket address".to_string())
            },
        }
    }

    /// The answer to whoever gave the line: yes, unless it was not text.
    pub fn answer(&self) -> (answer: bool)
        ensures
            answer == !(*self is Unreadable),
    {
        match self {
            ConnectPlan::Unreadable => false,
            _ => true,
        }
    }
}

/// The start of a node before anything has been done.
pub open spec fn startup_begin() -> Startup {
    Startup { stage: StartupStage::ReadSeed, seed: None, monitors: 0 }
}

/// How far the start of a node has come after these events, or `None` if one of them does not tell how
/// the stage before it came out.
pub open spec fn startup_run(events: Seq<StartupEvent>) -> Option<Startup>
    decreases events.len(),
{
    if events.len() == 0 {
        Some(startup_begin())
    } else {
        match startup_run(events.drop_last()) {
            Some(state) => if awaits(state.stage, events.last()) {
                Some(startup_step(state, events.last()))
            } else {
                None
            },
            None => None,
        }
    }
}

/// The seed of a node is what its file holds, all 32 bytes of it, or, if the file could not be read,
/// the random bytes that were drawn.
pub proof fn law_seed_is_stored_or_drawn(events: Seq<StartupEvent>)
    requires
        startup_run(events) is Some,
    ensures
        startup_run(events)->0.seed matches Some(seed) ==> {
            ||| events[0] matches StartupEvent::SeedFile(Some(contents)) && contents@ == seed
                && seed.len() == 32
            ||| events[0] == StartupEvent::SeedFile(None) && events.len() >= 2 && (
            events[1] matches StartupEvent::Random(bytes) && bytes@ == seed)
        },
{
    lemma_startup(events);
}

/// A seed is drawn, and written to its file, only if the file could not be read: a seed that is there
/// is never written over.
pub proof fn law_seed_is_never_written_over(events: Seq<StartupEvent>)
    requires
        startup_run(events) is Some,
    ensures
        startup_run(events)->0.stage == StartupStage::DrawSeed || startup_run(events)->0.stage
            == StartupStage::StoreSeed ==> events[0] == StartupEvent::SeedFile(None),
{
    lemma_startup(events);
}

/// Nothing is derived from a seed before it is in its file.
pub proof fn law_seed_is_stored_before_use(events: Seq<StartupEvent>)
    requires
        startup_run(events) is Some,
        startup_run(events)->0.stage == StartupStage::DeriveKeys,
    ensures
        startup_run(events)->0.seed is Some,
        events[0] matches StartupEvent::SeedFile(Some(_)) || events.last()
            == StartupEvent::SeedStored,
{
    lemma_startup(events);
}

/// A node begins without channels only if it has neither the state of channels nor a monitor of one;
/// with monitors and no state it refuses to start.
pub proof fn law_channels_are_never_forgotten(events: Seq<StartupEvent>)
    requires
        startup_run(events) is Some,
    ensures
        startup_run(events)->0.stage == StartupStage::CreateChannels <==> events.len() >= 2
            && events.last() == StartupEvent::ManagerOpened(false) && events[events.len() - 2]
            == StartupEvent::MonitorsLoaded(0),
        startup_run(events)->0.stage == StartupStage::Refuse(StartupFault::LostChannelState)
            <==> events.len() >= 2 && events.last() == StartupEvent::ManagerOpened(false) && (
        events[events.len() - 2] matches StartupEvent::MonitorsLoaded(count) && count > 0),
        startup_run(events)->0.stage == StartupStage::RestoreChannels <==> events.len() > 0
            && events.last() == StartupEvent::ManagerOpened(true),
{
    lemma_startup(events);
    if events.len() > 0 {
        lemma_startup(events.drop_last());
    }
}

/// What is known of the events behind each stage.
proof fn lemma_startup(events: Seq<StartupEvent>)
    requires
        startup_run(events) is Some,
    ensures
        ({
            let state = startup_run(events)->0;
            let stored = events[0] matches StartupEvent::SeedFile(Some(contents)) && state.seed
                == Some(contents@) && contents@.len() == 32;
            let drawn = events[0] == StartupEvent::SeedFile(None) && events.len() >= 2 && (
            events[1] matches StartupEvent::Random(bytes) && state.seed == Some(bytes@));
            match state.stage {
                StartupStage::ReadSeed => events.len() == 0 && state.seed is None,
                StartupStage::DrawSeed => events.len() == 1 && events[0]
                    == StartupEvent::SeedFile(None) && state.seed is None,
                StartupStage::StoreSeed => events.len() == 2 && drawn,
                StartupStage::DeriveKeys => events.len() > 0 && (stored || drawn && events.last()
                    == StartupEvent::SeedStored),
                StartupStage::Refuse(StartupFault::MalformedSeed) => state.seed is None,
                StartupStage::OpenManager => {
                    &&& events.len() > 0
                    &&& stored || drawn
                    &&& events.last() matches StartupEvent::MonitorsLoaded(count)
                    &&& state.monitors == count
                },
                _ => events.len() > 0 && (stored || drawn),
            }
        }),
    decreases events.len(),
{
    if events.len() > 0 {
        lemma_startup(events.drop_last());
    }
}

/// A line made of a node's public key in hexadecimal, an `@` and an address asks to connect to that
/// node at that address.
pub proof fn law_peer_line_round_trip(key: Seq<u8>, address: Seq<char>)
    requires
        key.len() == 33,
        is_public_key(key),
    ensures
        ({
            let line = hex_encoded(key) + "@"@ + address;
            &&& has_key_part(line)
            &&& encode_utf8(line).len() > 66
            &&& key_of_line(line) == Some(key)
            &&& connect_choice(line, key_of_line(line)) == (ConnectChoice::Dial { key, address })
        }),
{
    reveal_strlit("@");
    let line = hex_encoded(key) + "@"@ + address;
    let rest = "@"@ + address;
    let bytes = encode_utf8(line);
    assert(line =~= hex_encoded(key) + rest);
    lemma_encoding_of_concat(hex_encoded(key), rest);
    lemma_encoding_of_concat("@"@, address);
    lemma_hex_encoded_ascii(key);
    law_hex_round_trip(key);
    assert(is_ascii_chars("@"@));
    crate::text::lemma_ascii_encoding("@"@);
    assert(encode_utf8(rest)[0] == 0x40);
    assert(bytes.take(66) =~= encode_utf8(hex_encoded(key)));
    assert(bytes[66] == encode_utf8(rest)[0]);
    assert(bytes.skip(67) =~= encode_utf8(address));
    encode_utf8_decode_utf8(address);
    encode_utf8_valid_utf8(line);
    is_char_boundary_iff_not_is_continuation_byte(bytes, 66);
}

/// What is said of how far the start of a node has come is what the node holds.
pub proof fn law_startup_is_what_the_node_holds(node: Node)
    ensures
        node.startup().stage == node.stage,
        node.startup().monitors == node.monitors,
        node.startup().seed is Some <==> node.seed is Some,
        node.seed matches Some(seed) ==> node.startup().seed == Some(seed@),
{
}

/// A seed that could be read is taken, as it is, exactly if it has 32 bytes; one of any other length
/// is refused as malformed, and does not become the seed.
pub proof fn law_well_formed_seeds_are_taken(state: Startup, contents: Vec<u8>)
    ensures
        ({
            let after = startup_step(state, StartupEvent::SeedFile(Some(contents)));
            &&& contents@.len() == 32 <==> after.stage == StartupStage::DeriveKeys
            &&& contents@.len() == 32 ==> after.seed == Some(contents@)
            &&& contents@.len() != 32 <==> after.stage == StartupStage::Refuse(
                StartupFault::MalformedSeed,
            )
            &&& contents@.len() != 32 ==> after.seed == state.seed
            &&& after.monitors == state.monitors
        }),
{
}

/// A seed is stored with the random bytes that were drawn for it, whatever they are; and a seed that
/// was stored is one that the next start takes.
pub proof fn law_drawn_seeds_are_taken_at_the_next_start(
    state: Startup,
    bytes: [u8; 32],
    next: Startup,
    contents: Vec<u8>,
)
    requires
        startup_step(state, StartupEvent::Random(bytes)).seed == Some(contents@),
    ensures
        startup_step(state, StartupEvent::Random(bytes)).stage == StartupStage::StoreSeed,
        contents@ == bytes@,
        startup_step(next, StartupEvent::SeedFile(Some(contents))).stage
            == StartupStage::DeriveKeys,
        startup_step(next, StartupEvent::SeedFile(Some(contents))).seed == Some(bytes@),
{
    assert(bytes@.len() == 32);
}

/// The seed changes only when it is read or drawn, and the number of monitors only when they are
/// loaded.
pub proof fn law_start_keeps_what_it_knows(state: Startup, event: StartupEvent)
    ensures
        !(event is SeedFile || event is Random) ==> startup_step(state, event).seed == state.seed,
        event == StartupEvent::SeedFile(None) ==> startup_step(state, event).seed == state.seed,
        event matches StartupEvent::MonitorsLoaded(count) ==> startup_step(state, event).monitors
            == count,
        !(event is MonitorsLoaded) ==> startup_step(state, event).monitors == state.monitors,
{
}

/// A node with a seed on disk, of 32 bytes, and with keys to derive from it starts: it restores its
/// channels if their state can be opened, whether or not there are monitors; if not, it refuses if
/// there are monitors, and begins without channels if there are none. It does so with the seed that it
/// has read.
pub proof fn law_start_with_a_stored_seed(
    contents: Vec<u8>,
    keys: ([u8; 32], [u8; 32]),
    count: usize,
    opened: bool,
)
    requires
        contents@.len() == 32,
    ensures
        ({
            let events = seq![
                StartupEvent::SeedFile(Some(contents)),
                StartupEvent::ImportKeys(Some(keys)),
                StartupEvent::MonitorsLoaded(count),
                StartupEvent::ManagerOpened(opened),
            ];
            &&& startup_run(events) matches Some(end)
            &&& end.seed == Some(contents@)
            &&& end.monitors == count
            &&& opened ==> end.stage == StartupStage::RestoreChannels
            &&& !opened && count == 0 ==> end.stage == StartupStage::CreateChannels
            &&& !opened && count > 0 ==> end.stage == StartupStage::Refuse(
                StartupFault::LostChannelState,
            )
        }),
{
    let first = seq![StartupEvent::SeedFile(Some(contents))];
    assert(first.drop_last() =~= Seq::<StartupEvent>::empty());
    assert(startup_run(first.drop_last()) == Some(startup_begin()));
    assert(startup_run(first) is Some);
    lemma_start_from_keys(first, keys, count, opened);
    assert(first.push(StartupEvent::ImportKeys(Some(keys))).push(
        StartupEvent::MonitorsLoaded(count),
    ).push(StartupEvent::ManagerOpened(opened)) =~= seq![
        StartupEvent::SeedFile(Some(contents)),
        StartupEvent::ImportKeys(Some(keys)),
        StartupEvent::MonitorsLoaded(count),
        StartupEvent::ManagerOpened(opened),
    ]);
}

/// A node without a seed that could be read starts in the same way, with the random bytes as its seed,
/// once it has stored them.
pub proof fn law_start_with_a_drawn_seed(
    bytes: [u8; 32],
    keys: ([u8; 32], [u8; 32]),
    count: usize,
    opened: bool,
)
    ensures
        ({
            let events = seq![
                StartupEvent::SeedFile(None),
                StartupEvent::Random(bytes),
                StartupEvent::SeedStored,
                StartupEvent::ImportKeys(Some(keys)),
                StartupEvent::MonitorsLoaded(count),
                StartupEvent::ManagerOpened(opened),
            ];
            &&& startup_run(events) matches Some(end)
            &&& end.seed == Some(bytes@)
            &&& end.monitors == count
            &&& opened ==> end.stage == StartupStage::RestoreChannels
            &&& !opened && count == 0 ==> end.stage == StartupStage::CreateChannels
            &&& !opened && count > 0 ==> end.stage == StartupStage::Refuse(
                StartupFault::LostChannelState,
            )
        }),
{
    let unread = seq![StartupEvent::SeedFile(None)];
    let drawn = unread.push(StartupEvent::Random(bytes));
    let stored = drawn.push(StartupEvent::SeedStored);
    assert(unread.drop_last() =~= Seq::<StartupEvent>::empty());
    assert(startup_run(unread.drop_last()) == Some(startup_begin()));
    assert(drawn.drop_last() =~= unread);
    assert(stored.drop_last() =~= drawn);
    assert(startup_run(unread) is Some);
    assert(startup_run(drawn) is Some);
    assert(startup_run(stored) is Some);
    lemma_start_from_keys(stored, keys, count, opened);
    assert(stored.push(StartupEvent::ImportKeys(Some(keys))).push(
        StartupEvent::MonitorsLoaded(count),
    ).push(StartupEvent::ManagerOpened(opened)) =~= seq![
        StartupEvent::SeedFile(None),
        StartupEvent::Random(bytes),
        StartupEvent::SeedStored,
        StartupEvent::ImportKeys(Some(keys)),
        StartupEvent::MonitorsLoaded(count),
        StartupEvent::ManagerOpened(opened),
    ]);
}

/// A start that has come to the keys goes on to the channels.
proof fn lemma_start_from_keys(
    events: Seq<StartupEvent>,
    keys: ([u8; 32], [u8; 32]),
    count: usize,
    opened: bool,
)
    requires
        startup_run(events) is Some,
        startup_run(events)->0.stage == StartupStage::DeriveKeys,
    ensures
        ({
            let all = events.push(StartupEvent::ImportKeys(Some(keys))).push(
                StartupEvent::MonitorsLoaded(count),
            ).push(StartupEvent::ManagerOpened(opened));
            &&& startup_run(all) matches Some(end)
            &&& end.seed == startup_run(events)->0.seed
            &&& end.monitors == count
            &&& opened ==> end.stage == StartupStage::RestoreChannels
            &&& !opened && count == 0 ==> end.stage == StartupStage::CreateChannels
            &&& !opened && count > 0 ==> end.stage == StartupStage::Refuse(
                StartupFault::LostChannelState,
            )
        }),
{
    let derived = events.push(StartupEvent::ImportKeys(Some(keys)));
    let loaded = derived.push(StartupEvent::MonitorsLoaded(count));
    let all = loaded.push(StartupEvent::ManagerOpened(opened));
    assert(derived.drop_last() =~= events);
    assert(loaded.drop_last() =~= derived);
    assert(all.drop_last() =~= loaded);
    assert(startup_run(derived) is Some);
    assert(startup_run(loaded) is Some);
}

/// What is done next to start a node follows from what came last: a seed is drawn exactly when none
/// could be read, stored exactly when it was drawn, used exactly when it was stored or was read whole;
/// monitors are loaded exactly when there are keys, and the state of the channels is opened exactly
/// when the monitors are loaded. A start is refused as malformed or unusable exactly for the seed or
/// the keys.
pub proof fn law_startup_stages_follow_from_the_last_event(events: Seq<StartupEvent>)
    requires
        startup_run(events) is Some,
    ensures
        ({
            let stage = startup_run(events)->0.stage;
            let last = events.last();
            let some = events.len() > 0;
            &&& stage == StartupStage::ReadSeed <==> !some
            &&& stage == StartupStage::DrawSeed <==> some && last == StartupEvent::SeedFile(None)
            &&& stage == StartupStage::StoreSeed <==> some && last is Random
            &&& stage == StartupStage::DeriveKeys <==> some && (last == StartupEvent::SeedStored || (
            last matches StartupEvent::SeedFile(Some(contents)) && contents@.len() == 32))
            &&& stage == StartupStage::LoadMonitors <==> some && (
            last matches StartupEvent::ImportKeys(keys) && keys is Some)
            &&& stage == StartupStage::OpenManager <==> some && last is MonitorsLoaded
            &&& stage == StartupStage::Refuse(StartupFault::MalformedSeed) <==> some && (
            last matches StartupEvent::SeedFile(Some(contents)) && contents@.len() != 32)
            &&& stage == StartupStage::Refuse(StartupFault::UnusableSeed) <==> some && last
                == StartupEvent::ImportKeys(None)
            &&& stage != StartupStage::Refuse(StartupFault::UnknownNetwork)
        }),
    decreases events.len(),
{
    if events.len() > 0 {
        law_startup_stages_follow_from_the_last_event(events.drop_last());
    }
}

/// A start that is over, whether the node runs or has refused, awaits nothing more.
pub proof fn law_a_finished_start_awaits_nothing(events: Seq<StartupEvent>, later: StartupEvent)
    requires
        startup_run(events) is Some,
        ({
            let stage = startup_run(events)->0.stage;
            stage is Refuse || stage == StartupStage::RestoreChannels || stage
                == StartupStage::CreateChannels
        }),
    ensures
        startup_run(events.push(later)) is None,
{
    assert(events.push(later).drop_last() =~= events);
}

/// What a plan is said to be is what it holds.
pub proof fn law_choice_is_what_the_plan_holds(plan: ConnectPlan)
    ensures
        plan@ is Unreadable <==> plan is Unreadable,
        plan@ is BadKey <==> plan is BadKey,
        plan@ is BadLine <==> plan is BadLine,
        plan matches ConnectPlan::Dial { key, address } ==> plan@ == (ConnectChoice::Dial {
            key: key@,
            address: address@,
        }),
{
}

/// A line can be cut behind its key part exactly if it is a text of 66 bytes with something, or
/// nothing, behind it.
pub proof fn law_lines_with_a_key_part(line: Seq<char>)
    ensures
        has_key_part(line) <==> exists|head: Seq<char>, rest: Seq<char>|
            line == #[trigger] (head + rest) && encode_utf8(head).len() == 66,
{
    let bytes = encode_utf8(line);
    encode_utf8_valid_utf8(line);
    if has_key_part(line) {
        lemma_boundary_in_range(line, 66);
        let front = bytes.subrange(0, 66);
        let back = bytes.subrange(66, bytes.len() as int);
        valid_utf8_split(bytes, 66);
        decode_utf8_split(bytes, 66);
        encode_utf8_decode_utf8(line);
        decode_utf8_encode_utf8(front);
        let head = decode_utf8(front);
        let rest = decode_utf8(back);
        assert(line == head + rest);
        assert(encode_utf8(head).len() == 66);
    }
    assert forall|head: Seq<char>, rest: Seq<char>|
        line == #[trigger] (head + rest) && encode_utf8(head).len() == 66 implies has_key_part(
        line,
    ) by {
        lemma_encoding_of_concat(head, rest);
        encode_utf8_valid_utf8(rest);
        let after = encode_utf8(rest);
        if after.len() == 0 {
            is_char_boundary_start_end_of_seq(bytes);
        } else {
            is_char_boundary_start_end_of_seq(after);
            is_char_boundary_iff_not_is_continuation_byte(after, 0);
            assert(bytes[66] == after[0]);
            is_char_boundary_iff_not_is_continuation_byte(bytes, 66);
        }
    }
}

/// A line begins with a public key exactly if its first 66 bytes are the key in hexadecimal, with
/// letters of either case; what is behind them is not looked at.
pub proof fn law_keys_of_lines(head: Seq<char>, rest: Seq<char>, key: Seq<u8>)
    requires
        encode_utf8(head).len() == 66,
    ensures
        key_of_line(head + rest) == Some(key) <==> key.len() == 33 && is_public_key(key)
            && head.map_values(|c: char| lower_hex(c)) == hex_encoded(key),
{
    let bytes = encode_utf8(head);
    let lower = head.map_values(|c: char| lower_hex(c));
    lemma_encoding_of_concat(head, rest);
    assert(encode_utf8(head + rest).take(66) =~= bytes);
    if is_hex(bytes) {
        crate::text::lemma_ascii_bytes(head);
        crate::text::lemma_ascii_encoding(head);
        law_hex_text_round_trip(head);
        assert(head.take(66) =~= head);
        assert(hex_encoded(hex_decoded(bytes)) == lower);
        law_hex_round_trip(hex_decoded(bytes));
        law_hex_round_trip(key);
        assert(lower == hex_encoded(key) ==> hex_decoded(bytes) == key);
    } else if lower == hex_encoded(key) {
        assert(lower.len() == head.len());
        assert(head.len() == 2 * key.len());
        assert forall|i: int| 0 <= i < head.len() implies '\0' <= #[trigger] head[i] <= '\u{7f}'
            && is_hex_digit(head[i] as u8) by {
            assert(lower[i] == lower_hex(head[i]));
            assert(lower[i] == hex_encoded(key)[i]);
        }
        crate::text::lemma_ascii_encoding(head);
        assert forall|i: int| 0 <= i < bytes.len() implies is_hex_digit(#[trigger] bytes[i]) by {
            assert(bytes[i] == head[i] as u8);
        }
    }
}

/// A character whose encoding begins with the byte of `@` is `@`.
proof fn lemma_at_sign(chars: Seq<char>)
    requires
        chars.len() > 0,
    ensures
        encode_utf8(chars).len() > 0,
        encode_utf8(chars)[0] == 0x40 <==> chars[0] == '@',
{
    encode_utf8_first_scalar(chars);
    let bytes = encode_utf8(chars);
    if bytes[0] == 0x40 {
        assert(0x40u8 & 0x7f == 0x40) by (bit_vector);
        assert(is_leading_byte_width_1(bytes[0]));
        assert(decode_first_scalar(bytes) == 0x40);
        char_u32_cast(chars[0], 0x40);
    }
    if chars[0] == '@' {
        let sign = chars.take(1);
        let rest = chars.drop_first();
        assert(chars =~= sign + rest);
        lemma_encoding_of_concat(sign, rest);
        assert(is_ascii_chars(sign));
        crate::text::lemma_ascii_encoding(sign);
        assert(encode_utf8(sign)[0] == sign[0] as u8);
        assert(bytes[0] == encode_utf8(sign)[0]);
    }
}

/// A line that begins with a key asks for a call exactly if an `@` comes next, and then it is a call
/// with that key to the address that is the whole of what follows; a line that does not begin with a
/// key is refused for that, whatever follows.
pub proof fn law_lines_are_followed(head: Seq<char>, rest: Seq<char>, key: Option<Seq<u8>>)
    requires
        encode_utf8(head).len() == 66,
        rest.len() > 0,
    ensures
        match key {
            Some(k) => if rest[0] == '@' {
                connect_choice(head + rest, key) == (ConnectChoice::Dial {
                    key: k,
                    address: rest.skip(1),
                })
            } else {
                connect_choice(head + rest, key) == ConnectChoice::BadLine
            },
            None => connect_choice(head + rest, key) == ConnectChoice::BadKey,
        },
{
    let bytes = encode_utf8(head + rest);
    let after = encode_utf8(rest);
    lemma_encoding_of_concat(head, rest);
    lemma_at_sign(rest);
    assert(bytes[66] == after[0]);
    if rest[0] == '@' {
        let sign = rest.take(1);
        let address = rest.skip(1);
        assert(rest =~= sign + address);
        lemma_encoding_of_concat(sign, address);
        assert(is_ascii_chars(sign));
        crate::text::lemma_ascii_encoding(sign);
        assert(bytes.skip(67) =~= encode_utf8(address));
        encode_utf8_decode_utf8(address);
    }
}

/// The list of several nodes is the list of the first ones with the list of the others behind it; no
/// nodes have an empty list, and one node is listed by its key in hexadecimal, a comma and a space.
pub proof fn law_peers_are_listed_one_after_another(a: Seq<PublicKey>, b: Seq<PublicKey>, one: PublicKey)
    ensures
        peers_text(a + b) == peers_text(a) + peers_text(b),
        peers_text(Seq::empty()) == Seq::<char>::empty(),
        peers_text(seq![one]) == hex_encoded(one@) + ", "@,
    decreases b.len(),
{
    assert(seq![one].drop_last() =~= Seq::<PublicKey>::empty());
    assert(peers_text(Seq::empty()) =~= Seq::<char>::empty());
    assert(peers_text(seq![one]) =~= hex_encoded(one@) + ", "@);
    if b.len() == 0 {
        assert(a + b =~= a);
        assert(peers_text(a) + peers_text(b) =~= peers_text(a));
    } else {
        law_peers_are_listed_one_after_another(a, b.drop_last(), one);
        assert((a + b).drop_last() =~= a + b.drop_last());
        assert(peers_text(a + b) =~= peers_text(a) + peers_text(b));
    }
}

/// Every node is in the list, at its own place and with its whole key: each takes 68 characters, of
/// which the first 66 are the key in hexadecimal.
pub proof fn law_every_peer_is_listed(node_ids: Seq<PublicKey>, i: int)
    requires
        0 <= i < node_ids.len(),
    ensures
        peers_text(node_ids).len() == 68 * node_ids.len(),
        peers_text(node_ids).subrange(68 * i, 68 * i + 66) == hex_encoded(node_ids[i]@),
        peers_text(node_ids).subrange(68 * i + 66, 68 * i + 68) == ", "@,
    decreases node_ids.len(),
{
    reveal_strlit(", ");
    let front = node_ids.drop_last();
    let text = peers_text(node_ids);
    crate::keys::lemma_public_key_length(node_ids.last());
    if front.len() > 0 {
        law_every_peer_is_listed(front, 0);
    }
    assert(peers_text(front).len() == 68 * front.len());
    if i < front.len() {
        law_every_peer_is_listed(front, i);
        assert(text.subrange(68 * i, 68 * i + 66) =~= peers_text(front).subrange(
            68 * i,
            68 * i + 66,
        ));
        assert(text.subrange(68 * i + 66, 68 * i + 68) =~= peers_text(front).subrange(
            68 * i + 66,
            68 * i + 68,
        ));
    } else {
        assert(text.subrange(68 * i, 68 * i + 66) =~= hex_encoded(node_ids[i]@));
        assert(text.subrange(68 * i + 66, 68 * i + 68) =~= ", "@);
    }
}

/// A start begins with the seed to be read, and knows neither a seed nor monitors.
pub proof fn law_start_begins_with_nothing()
    ensures
        startup_run(Seq::empty()) matches Some(state) && state.stage == StartupStage::ReadSeed
            && state.seed is None && state.monitors == 0,
        startup_run(Seq::empty()) == Some(startup_begin()),
{
}

/// Each stage of a start awaits word of what was to be done at it, whatever that word is, and of nothing
/// else; a start that is over awaits nothing.
pub proof fn law_each_stage_of_a_start_awaits_its_own_event(stage: StartupStage, event: StartupEvent)
    ensures
        awaits(stage, event) <==> match stage {
            StartupStage::ReadSeed => event is SeedFile,
            StartupStage::DrawSeed => event is Random,
            StartupStage::StoreSeed => event is SeedStored,
            StartupStage::DeriveKeys => event is ImportKeys,
            StartupStage::LoadMonitors => event is MonitorsLoaded,
            StartupStage::OpenManager => event is ManagerOpened,
            StartupStage::RestoreChannels => false,
            StartupStage::CreateChannels => false,
            StartupStage::Refuse(_) => false,
        },
{
}

} // verus!
