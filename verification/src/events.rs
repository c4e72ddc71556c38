//! What a node does about the events that its channels report.
use vstd::prelude::*;
use vstd::string::*;

use crate::hex::{hex_encoded, hex_str};
use crate::network::{address_prefix, is_witness_script, witness_address, Network};
use crate::outpoint::{show_txid, txid_text, OutPoint};
use crate::table::Table;
use crate::text::{decimal, push_decimal};

verus! {

/// What a payment is expected to bring, in thousandths of a satoshi, when it is claimed.
pub const EXPECTED_AMOUNT: u64 = 10000;

/// How long an encoding may be and be sure to stay within the limits of the decoder on every machine.
///
/// The decoder refuses a list whose items would take more than 32 MiB of memory. An item takes up at
/// least one byte of the encoding, and a machine word is at most 8 bytes, so an item takes at most 24
/// bytes of memory for each byte of its encoding.
pub const WITHIN_DECODER_LIMITS: usize = 1_000_000;

/// Whether these bytes are the encoding of a transaction.
pub uninterp spec fn is_transaction_encoding(bytes: Seq<u8>) -> bool;

/// The id of the transaction with this encoding.
pub uninterp spec fn txid_of_encoding(encoding: Seq<u8>) -> Seq<u8>;

/// Reads a transaction, and gives its encoding and its id.
///
/// Calls `bitcoin::consensus::deserialize` for a `bitcoin::Transaction`, and on what it gives
/// `bitcoin::consensus::serialize` and `Transaction::txid`. What is claimed of them: the id depends
/// on the encoding alone; and whether bytes that stay within the limits of the decoder are read, and
/// written again as they were, depends on those bytes alone. Nothing is claimed of which longer
/// bytes can be read, because there the limits count, and they depend on the width of the machine's
/// pointers. Nor is it claimed that everything that is read is written again as it was: where
/// pointers are narrow, a length that is too large for them is cut off.
#[verifier::external_body]
fn read_transaction(raw: &[u8]) -> (read: Option<(Vec<u8>, [u8; 32])>)
    ensures
        read matches Some((encoding, txid)) ==> txid@ == txid_of_encoding(encoding@),
        raw@.len() <= WITHIN_DECODER_LIMITS ==> ((read matches Some((encoding, _)) && encoding@
            == raw@) <==> is_transaction_encoding(raw@)),
{
    match bitcoin::consensus::deserialize::<bitcoin::Transaction>(raw) {
        Ok(transaction) => {
            let txid = bitcoin_hashes::Hash::into_inner(transaction.txid());
            Some((bitcoin::consensus::serialize(&transaction), txid))
        },
        Err(_) => None,
    }
}

/// A transaction that funds a channel: its encoding and its id.
pub struct FundingTransaction {
    raw: Vec<u8>,
    txid: [u8; 32],
}

impl FundingTransaction {
    /// The encoding.
    pub closed spec fn encoding(&self) -> Seq<u8> {
        self.raw@
    }

    /// The id.
    pub closed spec fn id(&self) -> Seq<u8> {
        self.txid@
    }

    /// Takes a transaction that was read.
    pub fn from_read(raw: &[u8], read: Option<(Vec<u8>, [u8; 32])>) -> (transaction: Option<
        FundingTransaction,
    >)
        ensures
            transaction is Some <==> (read matches Some((encoding, _)) && encoding@ == raw@),
            transaction matches Some(t) ==> t.encoding() == raw@ && (read matches Some((_, txid))
                && t.id() == txid@),
    {
        match read {
            Some((encoding, txid)) => {
                if encoding.len() != raw.len() {
                    return None;
                }
                let mut i: usize = 0;
                while i < raw.len()
                    invariant
                        i <= raw@.len(),
                        read == Some((encoding, txid)),
                        encoding@.len() == raw@.len(),
                        forall|j: int| 0 <= j < i ==> encoding@[j] == raw@[j],
                    decreases raw@.len() - i,
                {
                    if encoding[i] != raw[i] {
                        return None;
                    }
                    i += 1;
                }
                assert(encoding@ =~= raw@);
                Some(FundingTransaction { raw: encoding, txid })
            },
            None => None,
        }
    }

    /// Reads a transaction from its encoding. `None` if these bytes are not the encoding of one, or
    /// of one that is too long to be read on this machine.
    pub fn from_raw(raw: &[u8]) -> (transaction: Option<FundingTransaction>)
        ensures
            raw@.len() <= WITHIN_DECODER_LIMITS ==> (transaction is Some
                <==> is_transaction_encoding(raw@)),
            transaction matches Some(t) ==> t.encoding() == raw@ && t.id() == txid_of_encoding(raw@),
    {
        FundingTransaction::from_read(raw, read_transaction(raw))
    }

    /// The encoding.
    pub fn raw(&self) -> (raw: &Vec<u8>)
        ensures
            raw@ == self.encoding(),
    {
        &self.raw
    }

    /// The id.
    pub fn txid(&self) -> (txid: [u8; 32])
        ensures
            txid@ == self.id(),
    {
        self.txid
    }
}

/// An output on the chain that belongs to the node.
#[derive(Clone, Copy, Debug, PartialEq, Eq)]
pub enum SpendableOutput {
    /// One that the wallet of the full node can spend.
    Static { txid: [u8; 32], vout: u32 },
    /// One that only the node can spend, by a script.
    DynamicP2wsh,
    /// One that only the node can spend, by a key.
    DynamicP2wpkh,
}

/// What a channel reports.
pub enum NodeEvent {
    /// A channel is to be funded by an output with this script.
    FundingGenerationReady { output_script: Vec<u8> },
    /// The transaction with this output, which funds a channel, may be broadcast.
    FundingBroadcastSafe { funding_txo: OutPoint },
    /// Somebody pays the node, in thousandths of a satoshi.
    PaymentReceived { payment_hash: [u8; 32], amt: u64 },
    /// A payment of the node has arrived.
    PaymentSent { payment_preimage: [u8; 32] },
    /// A payment of the node has failed.
    PaymentFailed { payment_hash: [u8; 32], rejected_by_dest: bool },
    /// Payments wait to be passed on.
    PendingHTLCsForwardable,
    /// Outputs have appeared on the chain.
    SpendableOutputs { outputs: Vec<SpendableOutput> },
}

/// What to do about an event.
pub enum EventAction {
    /// A funding transaction would have to pay to this address.
    Fund { address: String },
    /// Broadcast a transaction, then print the report.
    Broadcast { transaction: FundingTransaction, report: String },
    /// Claim a payment with its preimage, then print what `claim_report` says of it.
    Claim { payment_hash: [u8; 32], amt: u64, preimage: [u8; 32], expected_amount: u64 },
    /// Send a payment back, then print the report.
    FailBack { payment_hash: [u8; 32], report: String },
    /// Print these lines.
    Print { lines: Vec<String> },
    /// Nothing.
    Wait,
}

/// Why an event cannot be handled.
#[derive(Clone, Copy, Debug, PartialEq, Eq, Structural)]
pub enum EventFault {
    /// A channel is to be funded by an output that is not a witness program.
    NotSegwit,
    /// There is no transaction with this output to broadcast.
    UnknownFunding,
}

/// An `EventAction` with its texts as characters.
pub enum Response {
    Fund { address: Seq<char> },
    Broadcast { transaction: FundingTransaction, report: Seq<char> },
    Claim { payment_hash: [u8; 32], amt: u64, preimage: [u8; 32], expected_amount: u64 },
    FailBack { payment_hash: [u8; 32], report: Seq<char> },
    Print { lines: Seq<Seq<char>> },
    Wait,
}

/// The characters of several texts.
pub open spec fn texts(lines: Seq<String>) -> Seq<Seq<char>> {
    lines.map_values(|line: String| line@)
}

impl View for EventAction {
    type V = Response;

    open spec fn view(&self) -> Response {
        match *self {
            EventAction::Fund { address } => Response::Fund { address: address@ },
            EventAction::Broadcast { transaction, report } => Response::Broadcast {
                transaction,
                report: report@,
            },
            EventAction::Claim { payment_hash, amt, preimage, expected_amount } => Response::Claim {
                payment_hash,
                amt,
                preimage,
                expected_amount,
            },
            EventAction::FailBack { payment_hash, report } => Response::FailBack {
                payment_hash,
                report: report@,
            },
            EventAction::Print { lines } => Response::Print { lines: texts(lines@) },
            EventAction::Wait => Response::Wait,
        }
    }
}

/// What is said of an output that belongs to the node.
pub open spec fn output_line(output: SpendableOutput) -> Seq<char> {
    match output {
        SpendableOutput::Static { txid, vout } =>
        "Got on-chain output Bitcoin Core should know how to claim at "@ + hex_encoded(txid@) + ":"@
            + decimal(vout as nat),
        SpendableOutput::DynamicP2wsh => "Got on-chain output we should claim..."@,
        SpendableOutput::DynamicP2wpkh => "Got on-chain output we should claim..."@,
    }
}

/// What is said of a payment that was to be claimed.
pub open spec fn claim_line(claimed: bool, payment_hash: Seq<u8>, amt: u64) -> Seq<char> {
    if claimed {
        "Moneymoney! "@ + decimal(amt as nat) + " id "@ + hex_encoded(payment_hash)
    } else {
        "Failed to claim money we were told we had?"@
    }
}

/// The transactions that wait to be broadcast, and the preimages of the payments to come.
pub struct HandlerState {
    pub network: Network,
    pub txn_to_broadcast: Map<OutPoint, FundingTransaction>,
    pub payment_preimages: Map<[u8; 32], [u8; 32]>,
}

/// What is to be done about an event, and what becomes of the transactions that wait.
pub open spec fn respond(state: HandlerState, event: NodeEvent) -> Result<
    (HandlerState, Response),
    EventFault,
> {
    match event {
        NodeEvent::FundingGenerationReady { output_script } => if is_witness_script(output_script@) {
            let address = witness_address(output_script@, address_prefix(state.network));
            Ok((state, Response::Fund { address }))
        } else {
            Err(EventFault::NotSegwit)
        },
        NodeEvent::FundingBroadcastSafe { funding_txo } => if state.txn_to_broadcast.contains_key(
            funding_txo,
        ) {
            let transaction = state.txn_to_broadcast[funding_txo];
            let left = state.txn_to_broadcast.remove(funding_txo);
            let report = "Broadcast funding tx "@ + txid_text(transaction.id()) + "!"@;
            Ok(
                (
                    HandlerState { txn_to_broadcast: left, ..state },
                    Response::Broadcast { transaction, report },
                ),
            )
        } else {
            Err(EventFault::UnknownFunding)
        },
        NodeEvent::PaymentReceived { payment_hash, amt } => if state.payment_preimages.contains_key(
            payment_hash,
        ) {
            let preimage = state.payment_preimages[payment_hash];
            Ok(
                (
                    state,
                    Response::Claim { payment_hash, amt, preimage, expected_amount: EXPECTED_AMOUNT },
                ),
            )
        } else {
            let report = "Received payment but we didn't know the preimage :("@;
            Ok((state, Response::FailBack { payment_hash, report }))
        },
        NodeEvent::PaymentSent { payment_preimage } => {
            let line = "Less money :(, proof: "@ + hex_encoded(payment_preimage@);
            Ok((state, Response::Print { lines: seq![line] }))
        },
        NodeEvent::PaymentFailed { payment_hash, rejected_by_dest } => {
            let what = if rejected_by_dest { "Send"@ } else { "Route"@ };
            let line = what + " failed id "@ + hex_encoded(payment_hash@) + "!"@;
            Ok((state, Response::Print { lines: seq![line] }))
        },
        NodeEvent::PendingHTLCsForwardable => Ok((state, Response::Wait)),
        NodeEvent::SpendableOutputs { outputs } => {
            let lines = outputs@.map_values(|output: SpendableOutput| output_line(output));
            Ok((state, Response::Print { lines }))
        },
    }
}

/// What is to be done about events one after another, up to the first that cannot be handled.
pub open spec fn respond_all(state: HandlerState, events: Seq<NodeEvent>) -> (
    HandlerState,
    Seq<Response>,
    Option<EventFault>,
)
    decreases events.len(),
{
    if events.len() == 0 {
        (state, Seq::empty(), None)
    } else {
        match respond(state, events[0]) {
            Ok((next, response)) => {
                let (end, responses, fault) = respond_all(next, events.drop_first());
                (end, seq![response] + responses, fault)
            },
            Err(fault) => (state, Seq::empty(), Some(fault)),
        }
    }
}

/// Where the state of the channels is to be saved: written to the one file, which is then renamed to
/// the other.
pub struct SavePlan {
    pub tmp_filename: String,
    pub filename: String,
}

/// What to do about a batch of events.
pub struct EventPlan {
    /// What to do, in order.
    pub actions: Vec<EventAction>,
    /// What to do after that: save the state of the channels, or give up.
    pub outcome: Result<SavePlan, EventFault>,
}

/// Handles the events of a node's channels.
pub struct EventHandler {
    /// The network that the node runs on.
    pub network: Network,
    /// The path of the directory that the state of the channels is saved in.
    pub file_prefix: String,
    /// The transactions that fund channels, and wait to be broadcast, by the output that funds.
    pub txn_to_broadcast: Table<OutPoint, FundingTransaction>,
    /// The preimages of the payments that the node expects, by their hashes.
    pub payment_preimages: Table<[u8; 32], [u8; 32]>,
}

/// The line that a claim, or a failed one, is reported by.
pub fn claim_report(claimed: bool, payment_hash: &[u8; 32], amt: u64) -> (report: String)
    ensures
        report@ == claim_line(claimed, payment_hash@, amt),
{
    if claimed {
        let mut report = "Moneymoney! ".to_string();
        push_decimal(&mut report, amt);
        report.append(" id ");
        report.append(hex_str(payment_hash.as_slice()).as_str());
        report
    } else {
        "Failed to claim money we were told we had?".to_string()
    }
}

/// The line that an output on the chain is reported by.
fn output_report(output: &SpendableOutput) -> (report: String)
    ensures
        report@ == output_line(*output),
{
    match *output {
        SpendableOutput::Static { txid, vout } => {
            let mut report =
                "Got on-chain output Bitcoin Core should know how to claim at ".to_string();
            report.append(hex_str(txid.as_slice()).as_str());
            report.append(":");
            push_decimal(&mut report, vout as u64);
            report
        },
        SpendableOutput::DynamicP2wsh => "Got on-chain output we should claim...".to_string(),
        SpendableOutput::DynamicP2wpkh => "Got on-chain output we should claim...".to_string(),
    }
}

/// The lines that outputs on the chain are reported by.
fn output_reports(outputs: &Vec<SpendableOutput>) -> (lines: Vec<String>)
    ensures
        texts(lines@) == outputs@.map_values(|output: SpendableOutput| output_line(output)),
{
    let mut lines: Vec<String> = Vec::new();
    let mut i: usize = 0;
    while i < outputs.len()
        invariant
            i <= outputs@.len(),
            lines@.len() == i,
            forall|j: int| 0 <= j < i ==> (#[trigger] lines@[j])@ == output_line(outputs@[j]),
        decreases outputs@.len() - i,
    {
        lines.push(output_report(&outputs[i]));
        i += 1;
    }
    assert(texts(lines@) =~= outputs@.map_values(|output: SpendableOutput| output_line(output)));
    lines
}

/// One line to print.
fn print_line(line: String) -> (action: EventAction)
    ensures
        action@ == (Response::Print { lines: seq![line@] }),
{
    let mut lines: Vec<String> = Vec::new();
    lines.push(line);
    assert(texts(lines@) =~= seq![line@]);
    EventAction::Print { lines }
}

impl EventHandler {
    /// The tables are in order.
    pub open spec fn wf(&self) -> bool {
        self.txn_to_broadcast.wf() && self.payment_preimages.wf()
    }

    /// The handler's state.
    pub open spec fn state(&self) -> HandlerState {
        HandlerState {
            network: self.network,
            txn_to_broadcast: self.txn_to_broadcast@,
            payment_preimages: self.payment_preimages@,
        }
    }

    /// A handler without transactions to broadcast.
    pub fn new(
        network: Network,
        file_prefix: String,
        payment_preimages: Table<[u8; 32], [u8; 32]>,
    ) -> (handler: EventHandler)
        requires
            payment_preimages.wf(),
        ensures
            handler.wf(),
            handler.file_prefix == file_prefix,
            handler.state() == (HandlerState {
                network,
                txn_to_broadcast: Map::empty(),
                payment_preimages: payment_preimages@,
            }),
    {
        EventHandler { network, file_prefix, txn_to_broadcast: Table::new(), payment_preimages }
    }

    /// Finds out what to do about one event.
    fn handle(&mut self, event: &NodeEvent) -> (action: Result<EventAction, EventFault>)
        requires
            old(self).wf(),
        ensures
            final(self).wf(),
            final(self).file_prefix == old(self).file_prefix,
            match respond(old(self).state(), *event) {
                Ok((state, response)) => final(self).state() == state && action is Ok
                    && action->Ok_0@ == response,
                Err(fault) => final(self).state() == old(self).state() && action == Err::<
                    EventAction,
                    _,
                >(fault),
            },
    {
        match event {
            NodeEvent::FundingGenerationReady { output_script } => {
                match self.network.funding_address(output_script.as_slice()) {
                    Some(address) => Ok(EventAction::Fund { address }),
                    None => Err(EventFault::NotSegwit),
                }
            },
            NodeEvent::FundingBroadcastSafe { funding_txo } => {
                match self.txn_to_broadcast.remove(funding_txo) {
                    Some(transaction) => {
                        let mut report = "Broadcast funding tx ".to_string();
                        report.append(show_txid(&transaction.txid()).as_str());
                        report.append("!");
                        Ok(EventAction::Broadcast { transaction, report })
                    },
                    None => {
                        assert(self.txn_to_broadcast@ =~= old(self).txn_to_broadcast@);
                        Err(EventFault::UnknownFunding)
                    },
                }
            },
            NodeEvent::PaymentReceived { payment_hash, amt } => {
                match self.payment_preimages.get(payment_hash) {
                    Some(preimage) => Ok(
                        EventAction::Claim {
                            payment_hash: *payment_hash,
                            amt: *amt,
                            preimage: *preimage,
                            expected_amount: EXPECTED_AMOUNT,
                        },
                    ),
                    None => {
                        let report =
                            "Received payment but we didn't know the preimage :(".to_string();
                        Ok(EventAction::FailBack { payment_hash: *payment_hash, report })
                    },
                }
            },
            NodeEvent::PaymentSent { payment_preimage } => {
                let mut line = "Less money :(, proof: ".to_string();
                line.append(hex_str(payment_preimage.as_slice()).as_str());
                Ok(print_line(line))
            },
            NodeEvent::PaymentFailed { payment_hash, rejected_by_dest } => {
                let mut line = if *rejected_by_dest {
                    "Send".to_string()
                } else {
                    "Route".to_string()
                };
                line.append(" failed id ");
                line.append(hex_str(payment_hash.as_slice()).as_str());
                line.append("!");
                Ok(print_line(line))
            },
            NodeEvent::PendingHTLCsForwardable => Ok(EventAction::Wait),
            NodeEvent::SpendableOutputs { outputs } => Ok(
                EventAction::Print { lines: output_reports(outputs) },
            ),
        }
    }

    /// The path that the state of the channels is saved under.
    pub open spec fn manager_path(&self) -> Seq<char> {
        self.file_prefix@ + "/manager_data"@
    }

    /// Finds out what to do about the events of the channels and those of their monitors.
    ///
    /// The events of the channels come first. If one cannot be handled, what comes before it is still
    /// to be done, and nothing after it.
    pub fn process_events(
        &mut self,
        channel_events: Vec<NodeEvent>,
        monitor_events: Vec<NodeEvent>,
    ) -> (plan: EventPlan)
        requires
            old(self).wf(),
        ensures
            final(self).wf(),
            final(self).file_prefix == old(self).file_prefix,
            ({
                let (state, responses, fault) = respond_all(
                    old(self).state(),
                    channel_events@ + monitor_events@,
                );
                &&& final(self).state() == state
                &&& plan.actions@.map_values(|action: EventAction| action@) == responses
                &&& match plan.outcome {
                    Ok(save) => {
                        &&& fault is None
                        &&& save.filename@ == old(self).manager_path()
                        &&& save.tmp_filename@ == old(self).manager_path() + ".tmp"@
                    },
                    Err(found) => fault == Some(found),
                }
            }),
    {
        let mut events = channel_events;
        let mut more = monitor_events;
        events.append(&mut more);
        let ghost all = channel_events@ + monitor_events@;
        let ghost target = respond_all(old(self).state(), all);
        assert(events@ =~= all);
        assert(all.skip(0) =~= all);
        let mut actions: Vec<EventAction> = Vec::new();
        let mut i: usize = 0;
        assert(actions@.map_values(|action: EventAction| action@) + target.1 =~= target.1);
        while i < events.len()
            invariant
                events@ == all,
                all == channel_events@ + monitor_events@,
                target == respond_all(old(self).state(), all),
                i <= events@.len(),
                self.wf(),
                self.file_prefix == old(self).file_prefix,
                ({
                    let rest = respond_all(self.state(), all.skip(i as int));
                    &&& target.0 == rest.0
                    &&& target.1 == actions@.map_values(|action: EventAction| action@) + rest.1
                    &&& target.2 == rest.2
                }),
            decreases events@.len() - i,
        {
            let ghost before = self.state();
            let ghost so_far = actions@.map_values(|action: EventAction| action@);
            assert(all.skip(i as int)[0] == all[i as int]);
            assert(all.skip(i as int).drop_first() =~= all.skip(i + 1));
            match self.handle(&events[i]) {
                Ok(action) => {
                    let ghost response = action@;
                    actions.push(action);
                    proof {
                        let now = actions@.map_values(|action: EventAction| action@);
                        let rest = respond_all(self.state(), all.skip(i + 1)).1;
                        assert(now =~= so_far.push(response));
                        assert(so_far + (seq![response] + rest) =~= now + rest);
                    }
                },
                Err(fault) => {
                    assert(so_far + Seq::<Response>::empty() =~= so_far);
                    return EventPlan { actions, outcome: Err(fault) };
                },
            }
            i += 1;
        }
        proof {
            assert(all.skip(i as int) =~= Seq::<NodeEvent>::empty());
            let done = actions@.map_values(|action: EventAction| action@);
            assert(done + Seq::<Response>::empty() =~= done);
        }
        let mut filename = self.file_prefix.clone();
        filename.append("/manager_data");
        let mut tmp_filename = filename.clone();
        tmp_filename.append(".tmp");
        EventPlan { actions, outcome: Ok(SavePlan { tmp_filename, filename }) }
    }
}

/// Handling two batches of events together is handling the one, and then, unless it held an event
/// that cannot be handled, the other.
pub proof fn law_events_are_handled_in_order(
    state: HandlerState,
    first: Seq<NodeEvent>,
    second: Seq<NodeEvent>,
)
    ensures
        ({
            let (middle, responses, fault) = respond_all(state, first);
            let (end, more, late_fault) = respond_all(middle, second);
            respond_all(state, first + second) == if fault is None {
                (end, responses + more, late_fault)
            } else {
                (middle, responses, fault)
            }
        }),
    decreases first.len(),
{
    if first.len() == 0 {
        assert(first + second =~= second);
        let more = respond_all(state, second).1;
        assert(Seq::<Response>::empty() + more =~= more);
    } else {
        assert((first + second).drop_first() =~= first.drop_first() + second);
        match respond(state, first[0]) {
            Ok((next, response)) => {
                law_events_are_handled_in_order(next, first.drop_first(), second);
                let responses = respond_all(next, first.drop_first()).1;
                let more = respond_all(respond_all(next, first.drop_first()).0, second).1;
                assert(seq![response] + (responses + more) =~= (seq![response] + responses) + more);
            },
            Err(_) => {},
        }
    }
}

/// Every event gets an answer, up to the first that cannot be handled, and that one is the fault.
pub proof fn law_answers_stop_at_the_fault(state: HandlerState, events: Seq<NodeEvent>)
    ensures
        ({
            let (_, responses, fault) = respond_all(state, events);
            match fault {
                None => responses.len() == events.len(),
                Some(f) => {
                    let n = responses.len() as int;
                    &&& n < events.len()
                    &&& respond(respond_all(state, events.take(n)).0, events[n]) == Err::<
                        (HandlerState, Response),
                        _,
                    >(f)
                },
            }
        }),
    decreases events.len(),
{
    if events.len() > 0 {
        let rest = events.drop_first();
        match respond(state, events[0]) {
            Ok((next, _)) => {
                law_answers_stop_at_the_fault(next, rest);
                let n = respond_all(next, rest).1.len() as int;
                if n < rest.len() {
                    assert(events.take(n + 1).drop_first() =~= rest.take(n));
                }
            },
            Err(_) => {
                assert(events.take(0) =~= Seq::<NodeEvent>::empty());
            },
        }
    }
}

/// The answer to an event is the one that it gets after the events before it.
pub proof fn law_answers_follow_the_events(state: HandlerState, events: Seq<NodeEvent>, i: int)
    requires
        0 <= i < respond_all(state, events).1.len(),
    ensures
        i < events.len(),
        respond(respond_all(state, events.take(i)).0, events[i]) matches Ok((_, response))
            && response == respond_all(state, events).1[i],
    decreases events.len(),
{
    let next = respond(state, events[0])->Ok_0.0;
    let rest = events.drop_first();
    if i > 0 {
        law_answers_follow_the_events(next, rest, i - 1);
        assert(events.take(i).drop_first() =~= rest.take(i - 1));
    } else {
        assert(events.take(0) =~= Seq::<NodeEvent>::empty());
    }
}

/// Events change neither the network nor the preimages, and they add no transaction to those that
/// wait to be broadcast.
pub proof fn law_events_only_use_up_transactions(state: HandlerState, events: Seq<NodeEvent>)
    ensures
        respond_all(state, events).0.network == state.network,
        respond_all(state, events).0.payment_preimages == state.payment_preimages,
        respond_all(state, events).0.txn_to_broadcast.submap_of(state.txn_to_broadcast),
    decreases events.len(),
{
    if events.len() > 0 {
        match respond(state, events[0]) {
            Ok((next, _)) => {
                law_events_only_use_up_transactions(next, events.drop_first());
                let end = respond_all(next, events.drop_first()).0.txn_to_broadcast;
                assert forall|o: OutPoint| #[trigger] end.dom().contains(o) implies
                    state.txn_to_broadcast.dom().contains(o) && end[o] == state.txn_to_broadcast[o] by {
                    assert(next.txn_to_broadcast.dom().contains(o));
                }
            },
            Err(_) => {},
        }
    }
}

/// A funding transaction is broadcast once: after that, and after any further events, being told again
/// that it may be broadcast is an event that cannot be handled.
pub proof fn law_funding_is_broadcast_once(
    state: HandlerState,
    funding_txo: OutPoint,
    events: Seq<NodeEvent>,
)
    requires
        state.txn_to_broadcast.contains_key(funding_txo),
    ensures
        ({
            let again = NodeEvent::FundingBroadcastSafe { funding_txo };
            &&& respond(state, again) matches Ok((next, response))
            &&& response matches Response::Broadcast { transaction, .. }
            &&& transaction == state.txn_to_broadcast[funding_txo]
            &&& respond(respond_all(next, events).0, again) == Err::<(HandlerState, Response), _>(
                EventFault::UnknownFunding,
            )
        }),
{
    let again = NodeEvent::FundingBroadcastSafe { funding_txo };
    let next = respond(state, again)->Ok_0.0;
    law_events_only_use_up_transactions(next, events);
    let end = respond_all(next, events).0.txn_to_broadcast;
    assert(!next.txn_to_broadcast.dom().contains(funding_txo));
    assert(!end.dom().contains(funding_txo));
}

/// A payment is claimed only with the preimage that is on record for its hash, and for the expected
/// amount.
pub proof fn law_claims_use_recorded_preimages(state: HandlerState, events: Seq<NodeEvent>, i: int)
    requires
        0 <= i < respond_all(state, events).1.len(),
    ensures
        respond_all(state, events).1[i] matches Response::Claim {
            payment_hash,
            preimage,
            expected_amount,
            ..
        } ==> state.payment_preimages.contains_pair(payment_hash, preimage) && expected_amount
            == EXPECTED_AMOUNT,
        respond_all(state, events).1[i] matches Response::FailBack { payment_hash, .. }
            ==> !state.payment_preimages.contains_key(payment_hash),
{
    law_answers_follow_the_events(state, events, i);
    law_events_only_use_up_transactions(state, events.take(i));
}

/// What is said of the handler's state is what the handler holds.
pub proof fn law_state_is_what_the_handler_holds(handler: EventHandler)
    ensures
        handler.state().network == handler.network,
        handler.state().txn_to_broadcast == handler.txn_to_broadcast@,
        handler.state().payment_preimages == handler.payment_preimages@,
        handler.manager_path() == handler.file_prefix@ + "/manager_data"@,
{
}

/// What is said of an action is what it holds.
pub proof fn law_response_is_what_the_action_holds(action: EventAction)
    ensures
        match action {
            EventAction::Fund { address } => action@ matches Response::Fund { address: said }
                && said == address@,
            EventAction::Broadcast { transaction, report } => action@ matches Response::Broadcast {
                transaction: sent,
                report: said,
            } && sent == transaction && said == report@,
            EventAction::Claim {
                payment_hash,
                amt,
                preimage,
                expected_amount,
            } => action@ matches Response::Claim {
                payment_hash: hash,
                amt: amount,
                preimage: image,
                expected_amount: expected,
            } && hash == payment_hash && amount == amt && image == preimage && expected
                == expected_amount,
            EventAction::FailBack { payment_hash, report } => action@ matches Response::FailBack {
                payment_hash: hash,
                report: said,
            } && hash == payment_hash && said == report@,
            EventAction::Print { lines } => action@ matches Response::Print { lines: said }
                && said.len() == lines@.len() && forall|i: int|
                0 <= i < said.len() ==> #[trigger] said[i] == lines@[i]@,
            EventAction::Wait => action@ is Wait,
        },
{
}

/// A channel is funded at the address of its output script on the network that the handler's node runs
/// on; a script that is no witness program is the fault. Either way nothing else changes.
pub proof fn law_channels_are_funded_on_the_network_of_the_node(
    handler: EventHandler,
    output_script: Vec<u8>,
)
    ensures
        ({
            let event = NodeEvent::FundingGenerationReady { output_script };
            let prefix = match handler.network {
                Network::Bitcoin => "bc"@,
                Network::Testnet => "tb"@,
                Network::Regtest => "bcrt"@,
            };
            if is_witness_script(output_script@) {
                &&& respond(handler.state(), event) matches Ok((after, response))
                &&& after == handler.state()
                &&& response matches Response::Fund { address }
                &&& address == witness_address(output_script@, prefix)
            } else {
                respond(handler.state(), event) == Err::<(HandlerState, Response), _>(
                    EventFault::NotSegwit,
                )
            }
        }),
{
}

/// A transaction that may be broadcast is broadcast, the one on record for that output, and reported by
/// its id; it leaves the record, and every other stays. If none is on record, that is the fault.
pub proof fn law_broadcasts_take_one_transaction_off_the_record(
    handler: EventHandler,
    funding_txo: OutPoint,
    other: OutPoint,
)
    ensures
        ({
            let waiting = handler.txn_to_broadcast@;
            let answer = respond(
                handler.state(),
                NodeEvent::FundingBroadcastSafe { funding_txo },
            );
            if waiting.contains_key(funding_txo) {
                &&& answer matches Ok((after, response))
                &&& response matches Response::Broadcast { transaction, report }
                &&& transaction == waiting[funding_txo]
                &&& report == "Broadcast funding tx "@ + txid_text(transaction.id()) + "!"@
                &&& !after.txn_to_broadcast.contains_key(funding_txo)
                &&& other != funding_txo ==> (after.txn_to_broadcast.contains_key(other)
                    <==> waiting.contains_key(other))
                &&& other != funding_txo && waiting.contains_key(other)
                    ==> after.txn_to_broadcast[other] == waiting[other]
                &&& after.network == handler.network
                &&& after.payment_preimages == handler.payment_preimages@
            } else {
                answer == Err::<(HandlerState, Response), _>(EventFault::UnknownFunding)
            }
        }),
{
}

/// A payment is claimed, for its own hash and amount, with the preimage on record for that hash and for
/// the expected amount; if there is none on record, it is sent back. Either way nothing else changes.
pub proof fn law_payments_are_claimed_or_sent_back(
    handler: EventHandler,
    payment_hash: [u8; 32],
    amt: u64,
)
    ensures
        ({
            let preimages = handler.payment_preimages@;
            &&& respond(
                handler.state(),
                NodeEvent::PaymentReceived { payment_hash, amt },
            ) matches Ok((after, response))
            &&& after == handler.state()
            &&& preimages.contains_key(payment_hash) ==> response == (Response::Claim {
                payment_hash,
                amt,
                preimage: preimages[payment_hash],
                expected_amount: EXPECTED_AMOUNT,
            })
            &&& !preimages.contains_key(payment_hash) ==> response == (Response::FailBack {
                payment_hash,
                report: "Received payment but we didn't know the preimage :("@,
            })
        }),
{
}

/// What becomes of the node's own payments is reported in one line, with the proof or the hash in
/// hexadecimal, and by whether the destination or the route is at fault. Nothing else happens.
pub proof fn law_own_payments_are_reported(
    handler: EventHandler,
    payment_preimage: [u8; 32],
    payment_hash: [u8; 32],
    rejected_by_dest: bool,
)
    ensures
        respond(handler.state(), NodeEvent::PaymentSent { payment_preimage }) == Ok::<
            _,
            EventFault,
        >(
            (
                handler.state(),
                Response::Print {
                    lines: seq!["Less money :(, proof: "@ + hex_encoded(payment_preimage@)],
                },
            ),
        ),
        ({
            &&& respond(
                handler.state(),
                NodeEvent::PaymentFailed { payment_hash, rejected_by_dest },
            ) matches Ok((after, response))
            &&& after == handler.state()
            &&& response matches Response::Print { lines }
            &&& lines.len() == 1
            &&& rejected_by_dest ==> lines[0] == "Send"@ + " failed id "@ + hex_encoded(
                payment_hash@,
            ) + "!"@
            &&& !rejected_by_dest ==> lines[0] == "Route"@ + " failed id "@ + hex_encoded(
                payment_hash@,
            ) + "!"@
        }),
        respond(handler.state(), NodeEvent::PendingHTLCsForwardable) == Ok::<_, EventFault>(
            (handler.state(), Response::Wait),
        ),
{
}

/// Outputs on the chain are reported in one line each, in order: one that the full node's wallet can
/// spend by its transaction id, in the byte order of the hash, and its place, the others all alike.
pub proof fn law_outputs_are_reported_one_by_one(
    handler: EventHandler,
    outputs: Vec<SpendableOutput>,
    i: int,
)
    requires
        0 <= i < outputs@.len(),
    ensures
        ({
            &&& respond(
                handler.state(),
                NodeEvent::SpendableOutputs { outputs },
            ) matches Ok((after, response))
            &&& after == handler.state()
            &&& response matches Response::Print { lines }
            &&& lines.len() == outputs@.len()
            &&& outputs@[i] matches SpendableOutput::Static { txid, vout } ==> lines[i]
                == "Got on-chain output Bitcoin Core should know how to claim at "@ + hex_encoded(
                txid@,
            ) + ":"@ + decimal(vout as nat)
            &&& !(outputs@[i] is Static) ==> lines[i] == "Got on-chain output we should claim..."@
        }),
{
}

/// A claim is reported by the amount and the hash of the payment, and a claim that failed by neither.
pub proof fn law_claims_are_reported(payment_hash: Seq<u8>, amt: u64, other: Seq<u8>, more: u64)
    ensures
        claim_line(true, payment_hash, amt) == "Moneymoney! "@ + decimal(amt as nat) + " id "@
            + hex_encoded(payment_hash),
        claim_line(false, payment_hash, amt) == "Failed to claim money we were told we had?"@,
        claim_line(false, payment_hash, amt) == claim_line(false, other, more),
{
}

/// Only a funding transaction that is broadcast changes what is on record; and there are two faults and
/// no other: a channel that is to be funded by something else than a witness program, and a transaction
/// that is to be broadcast and is not on record.
pub proof fn law_changes_and_faults_of_events(state: HandlerState, event: NodeEvent)
    ensures
        !(event is FundingBroadcastSafe) ==> (respond(state, event) matches Ok((after, _)) ==> after
            == state),
        respond(state, event) == Err::<(HandlerState, Response), _>(EventFault::NotSegwit) <==> (
        event matches NodeEvent::FundingGenerationReady { output_script } && !is_witness_script(
            output_script@,
        )),
        respond(state, event) == Err::<(HandlerState, Response), _>(EventFault::UnknownFunding) <==> (
        event matches NodeEvent::FundingBroadcastSafe { funding_txo }
            && !state.txn_to_broadcast.contains_key(funding_txo)),
{
}

/// No events call for nothing, and one event calls for its own answer and nothing else.
pub proof fn law_batches_of_none_and_of_one(state: HandlerState, event: NodeEvent)
    ensures
        respond_all(state, Seq::empty()) == (state, Seq::<Response>::empty(), None::<EventFault>),
        match respond(state, event) {
            Ok((after, response)) => respond_all(state, seq![event]) == (
                after,
                seq![response],
                None::<EventFault>,
            ),
            Err(fault) => respond_all(state, seq![event]) == (
                state,
                Seq::<Response>::empty(),
                Some(fault),
            ),
        },
{
    let one = seq![event];
    assert(one.drop_first() =~= Seq::<NodeEvent>::empty());
    if let Ok((after, response)) = respond(state, event) {
        assert(respond_all(after, one.drop_first()) == (
            after,
            Seq::<Response>::empty(),
            None::<EventFault>,
        ));
        assert(seq![response] + Seq::<Response>::empty() =~= seq![response]);
    }
}

} // verus!
