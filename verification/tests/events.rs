use rusty_lightning::events::{
    claim_report, EventAction, EventFault, EventHandler, FundingTransaction, NodeEvent,
    SpendableOutput,
};
use rusty_lightning::hex::{hex_str, hex_to_vec};
use rusty_lightning::network::Network;
use rusty_lightning::outpoint::OutPoint;
use rusty_lightning::table::Table;

const TRANSACTION: &str = "020000000001010e0adef48412e4361325ac1c6e36411299ab09d4f083b9d8ddb55fbc06e1b0c00000000000feffffff0220a1070000000000220020f81d95e040bd0a493e38bae27bff52fe2bb58b93b293eb579c01c31b05c5af1dc072cfee54a3000016001434b1d6211af5551905dc2642d05f5b04d25a8fe80247304402207f570e3f0de50546aad25a872e3df059d277e776dda4269fa0d2cc8c2ee6ec9a022054e7fae5ca94d47534c86705857c24ceea3ad51c69dd6051c5850304880fc43a012103cb11a1bacc223d98d91f1946c6752e358a5eb1a1c983b3e6fb15378f453b76bd00000000";

const TXID: &str = "3e88dd7165faf7be58b3c5bb2c9c452aebef682807ea57080f62e6f6e113c25e";

fn handler() -> EventHandler {
    let mut preimages = Table::new();
    preimages.insert([0; 32], [0xbb; 32]);
    preimages.insert([0xaa; 32], [0xbb; 32]);
    preimages.insert([0; 32], [0xcc; 32]);
    EventHandler::new(Network::Testnet, "/data".to_string(), preimages)
}

fn funding() -> OutPoint {
    let mut txid = [0u8; 32];
    txid.copy_from_slice(&hex_to_vec(TXID).unwrap());
    OutPoint { txid, index: 1 }
}

fn transaction() -> FundingTransaction {
    FundingTransaction::from_raw(&hex_to_vec(TRANSACTION).unwrap()).unwrap()
}

fn lines(event: NodeEvent) -> Vec<String> {
    let mut plan = handler().process_events(vec![event], vec![]);
    assert_eq!(plan.actions.len(), 1);
    assert!(plan.outcome.is_ok());
    match plan.actions.pop() {
        Some(EventAction::Print { lines }) => lines,
        _ => panic!("nothing to print"),
    }
}

#[test]
fn a_transaction_is_read_with_its_id() {
    assert_eq!(hex_str(&transaction().txid()), TXID);
    assert_eq!(hex_str(transaction().raw()), TRANSACTION);
}

#[test]
fn bytes_that_are_no_transaction_are_refused() {
    let raw = hex_to_vec(TRANSACTION).unwrap();
    assert!(FundingTransaction::from_raw(&raw[..raw.len() - 1]).is_none());
    assert!(FundingTransaction::from_raw(&[]).is_none());
    let mut longer = raw.clone();
    longer.push(0);
    assert!(FundingTransaction::from_raw(&longer).is_none());
    let mut other_flag = raw.clone();
    other_flag[5] = 2;
    assert!(FundingTransaction::from_raw(&other_flag).is_none());
}

#[test]
fn a_transaction_of_a_great_many_outputs_is_read() {
    // One input without a script, 65,536 empty outputs, no witness.
    let mut raw = vec![2, 0, 0, 0, 1];
    raw.extend([7; 36]);
    raw.extend([0, 0xff, 0xff, 0xff, 0xff]);
    raw.extend([0xfe, 0, 0, 1, 0]);
    raw.extend(vec![0; 9 * 65_536]);
    raw.extend([0; 4]);
    assert_eq!(*FundingTransaction::from_raw(&raw).unwrap().raw(), raw);
}

#[test]
fn what_was_read_must_be_what_was_given() {
    let raw = vec![1u8, 2, 3];
    assert!(FundingTransaction::from_read(&raw, None).is_none());
    assert!(FundingTransaction::from_read(&raw, Some((vec![1, 2], [7; 32]))).is_none());
    assert!(FundingTransaction::from_read(&raw, Some((vec![1, 2, 4], [7; 32]))).is_none());
    let same = FundingTransaction::from_read(&raw, Some((vec![1, 2, 3], [7; 32]))).unwrap();
    assert_eq!(same.txid(), [7; 32]);
    assert_eq!(*same.raw(), raw);
}

#[test]
fn without_events_the_channels_are_saved() {
    let plan = handler().process_events(vec![], vec![]);
    assert!(plan.actions.is_empty());
    let save = plan.outcome.ok().unwrap();
    assert_eq!(save.filename, "/data/manager_data");
    assert_eq!(save.tmp_filename, "/data/manager_data.tmp");
}

#[test]
fn a_channel_is_funded_at_an_address() {
    let output_script =
        hex_to_vec("00201863143c14c5166804bd19203356da136c985678cd4d27a1b8c6329604903262").unwrap();
    let event = NodeEvent::FundingGenerationReady { output_script };
    let plan = handler().process_events(vec![event], vec![]);
    match &plan.actions[..] {
        [EventAction::Fund { address }] => assert_eq!(
            address,
            "tb1qrp33g0q5c5txsp9arysrx4k6zdkfs4nce4xj0gdcccefvpysxf3q0sl5k7"
        ),
        _ => panic!("no address"),
    }
}

#[test]
fn a_channel_is_funded_by_segwit_only() {
    let event = NodeEvent::FundingGenerationReady { output_script: vec![0x51] };
    let plan = handler().process_events(vec![NodeEvent::PendingHTLCsForwardable, event], vec![
        NodeEvent::PendingHTLCsForwardable,
    ]);
    assert_eq!(plan.actions.len(), 1);
    assert_eq!(plan.outcome.err(), Some(EventFault::NotSegwit));
}

#[test]
fn a_funding_transaction_is_broadcast_once() {
    let mut handler = handler();
    handler.txn_to_broadcast.insert(funding(), transaction());
    handler.txn_to_broadcast.insert(OutPoint { index: 2, ..funding() }, transaction());
    let event = || NodeEvent::FundingBroadcastSafe { funding_txo: funding() };
    let plan = handler.process_events(vec![event()], vec![NodeEvent::PendingHTLCsForwardable]);
    match &plan.actions[..] {
        [EventAction::Broadcast { transaction, report }, EventAction::Wait] => {
            assert_eq!(hex_str(transaction.raw()), TRANSACTION);
            let shown: Vec<u8> = hex_to_vec(TXID).unwrap().into_iter().rev().collect();
            assert_eq!(*report, format!("Broadcast funding tx {}!", hex_str(&shown)));
        }
        _ => panic!("no broadcast"),
    }
    assert!(handler.txn_to_broadcast.get(&funding()).is_none());
    assert!(handler.txn_to_broadcast.get(&OutPoint { index: 2, ..funding() }).is_some());
    let again = handler.process_events(vec![event()], vec![]);
    assert_eq!(again.outcome.err(), Some(EventFault::UnknownFunding));
    assert!(again.actions.is_empty());
}

#[test]
fn a_payment_is_claimed_with_its_preimage() {
    for (payment_hash, expected) in [([0xaa; 32], [0xbb; 32]), ([0; 32], [0xcc; 32])] {
        let event = NodeEvent::PaymentReceived { payment_hash, amt: 12345 };
        let plan = handler().process_events(vec![], vec![event]);
        match &plan.actions[..] {
            [EventAction::Claim { payment_hash: hash, amt, preimage, expected_amount }] => {
                assert_eq!(*hash, payment_hash);
                assert_eq!(*amt, 12345);
                assert_eq!(*preimage, expected);
                assert_eq!(*expected_amount, 10000);
            }
            _ => panic!("no claim"),
        }
    }
}

#[test]
fn a_claim_is_reported() {
    assert_eq!(
        claim_report(true, &[0xaa; 32], 12345),
        format!("Moneymoney! 12345 id {}", "aa".repeat(32))
    );
    assert_eq!(
        claim_report(false, &[0xaa; 32], 12345),
        "Failed to claim money we were told we had?"
    );
    assert!(claim_report(true, &[0; 32], u64::MAX).starts_with("Moneymoney! 18446744073709551615 "));
    assert!(claim_report(true, &[0; 32], 0).starts_with("Moneymoney! 0 "));
}

#[test]
fn a_payment_without_preimage_is_sent_back() {
    let event = NodeEvent::PaymentReceived { payment_hash: [0xab; 32], amt: 1 };
    let plan = handler().process_events(vec![event], vec![]);
    match &plan.actions[..] {
        [EventAction::FailBack { payment_hash, report }] => {
            assert_eq!(*payment_hash, [0xab; 32]);
            assert_eq!(report, "Received payment but we didn't know the preimage :(");
        }
        _ => panic!("not sent back"),
    }
}

#[test]
fn a_payment_that_arrived_is_reported() {
    assert_eq!(lines(NodeEvent::PaymentSent { payment_preimage: [1; 32] }), vec![format!(
        "Less money :(, proof: {}",
        "01".repeat(32)
    )]);
}

#[test]
fn a_payment_that_failed_is_reported() {
    let failed = |rejected_by_dest: bool| {
        lines(NodeEvent::PaymentFailed { payment_hash: [2; 32], rejected_by_dest })
    };
    assert_eq!(failed(true), vec![format!("Send failed id {}!", "02".repeat(32))]);
    assert_eq!(failed(false), vec![format!("Route failed id {}!", "02".repeat(32))]);
}

#[test]
fn outputs_on_the_chain_are_reported() {
    let txid = funding().txid;
    let event = NodeEvent::SpendableOutputs {
        outputs: vec![
            SpendableOutput::DynamicP2wsh,
            SpendableOutput::Static { txid, vout: 4294967295 },
            SpendableOutput::DynamicP2wpkh,
        ],
    };
    assert_eq!(lines(event), vec![
        "Got on-chain output we should claim...".to_string(),
        format!(
            "Got on-chain output Bitcoin Core should know how to claim at {}:4294967295",
            TXID
        ),
        "Got on-chain output we should claim...".to_string(),
    ]);
}

#[test]
fn the_events_of_the_channels_come_before_those_of_the_monitors() {
    let sent = |byte: u8| NodeEvent::PaymentSent { payment_preimage: [byte; 32] };
    let plan = handler().process_events(vec![sent(1), sent(2)], vec![sent(3)]);
    let printed: Vec<String> = plan
        .actions
        .into_iter()
        .map(|action| match action {
            EventAction::Print { mut lines } => lines.remove(0),
            _ => panic!("nothing to print"),
        })
        .collect();
    assert_eq!(printed, vec![
        format!("Less money :(, proof: {}", "01".repeat(32)),
        format!("Less money :(, proof: {}", "02".repeat(32)),
        format!("Less money :(, proof: {}", "03".repeat(32)),
    ]);
}
