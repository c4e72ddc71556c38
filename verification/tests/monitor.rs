use std::sync::Arc;

use lightning::util::logger::{Logger, Record};
use rusty_lightning::hex::hex_to_vec;
use rusty_lightning::monitor::{
    ChannelMonitor, LogSink, MonitorEntry, MonitorFile, MonitorWrite, WriteEvent, WriteStage,
};
use rusty_lightning::outpoint::OutPoint;

fn funding(index: u16) -> OutPoint {
    OutPoint { txid: core::array::from_fn(|i| i as u8), index }
}

const TXID: &str = "1f1e1d1c1b1a191817161514131211100f0e0d0c0b0a09080706050403020100";

fn begin(index: u16) -> MonitorWrite {
    let monitors = ChannelMonitor { file_prefix: "/data/monitors".to_string() };
    monitors.add_update_monitor(&funding(index))
}

fn after(events: &[WriteEvent]) -> MonitorWrite {
    let mut write = begin(3);
    for event in events {
        write.advance(*event);
    }
    write
}

#[test]
fn the_files_are_named_after_the_funding_output() {
    let write = begin(513);
    assert_eq!(write.filename, format!("/data/monitors/{}_513", TXID));
    assert_eq!(write.tmp_filename, format!("/data/monitors/{}_513.tmp", TXID));
    assert_eq!(write.bk_filename, format!("/data/monitors/{}_513.bk", TXID));
    assert_eq!(write.stage, WriteStage::CreateTmp);
    assert_eq!(write.need_bk, false);
}

#[test]
fn a_name_that_was_made_is_understood() {
    for index in [0, 1, 9, 10, 255, 65535] {
        for suffix in ["", ".tmp", ".bk", ".a.b", "."] {
            let name = format!("{}_{}{}", TXID, index, suffix);
            assert_eq!(ChannelMonitor::named_funding(Some(&name)), Some(funding(index)));
        }
    }
}

#[test]
fn digits_are_read_as_generously_as_numbers_are() {
    let read = |rest: &str| ChannelMonitor::named_funding(Some(&format!("{}{}", TXID, rest)));
    assert_eq!(read("_+7"), Some(funding(7)));
    assert_eq!(read("_0007"), Some(funding(7)));
    assert_eq!(read("x7"), Some(funding(7)));
    assert_eq!(
        ChannelMonitor::named_funding(Some(&format!("{}_7", TXID.to_uppercase()))),
        Some(funding(7))
    );
}

#[test]
fn other_names_are_passed_over() {
    let read = |name: &str| ChannelMonitor::named_funding(Some(name));
    assert_eq!(ChannelMonitor::named_funding(None), None);
    assert_eq!(read(""), None);
    assert_eq!(read(TXID), None);
    assert_eq!(read(&format!("{}_", TXID)), None);
    assert_eq!(read(&format!("{}_.tmp", TXID)), None);
    assert_eq!(read(&format!("{}_+", TXID)), None);
    assert_eq!(read(&format!("{}_-1", TXID)), None);
    assert_eq!(read(&format!("{}_ 1", TXID)), None);
    assert_eq!(read(&format!("{}_1_", TXID)), None);
    assert_eq!(read(&format!("{}_65536", TXID)), None);
    assert_eq!(read(&format!("{}_99999999999999999999999", TXID)), None);
    assert_eq!(read(&format!("{}_1.é", TXID)), None);
    assert_eq!(read(&format!("g{}_1", &TXID[1..])), None);
}

fn entry(name: &str, decodes: bool) -> MonitorEntry {
    MonitorEntry { name: Some(name.to_string()), decodes }
}

#[test]
fn the_monitors_of_a_directory_are_loaded_and_the_rest_is_reported() {
    let load = ChannelMonitor::load_from_disk(&vec![
        entry(&format!("{}_9", TXID), true),
        MonitorEntry { name: None, decodes: true },
        entry(&format!("{}_3.bk", TXID), true),
        entry("notes.txt", true),
        entry(&format!("{}_4", TXID), false),
        entry(&format!("{}_3", TXID), true),
    ]);
    assert_eq!(load.loaded, vec![(funding(9), 0), (funding(3), 2), (funding(3), 5)]);
    assert_eq!(load.reports, vec![
        "WARNING: Failed to read one of the channel monitor storage files! Check perms!";
        3
    ]);
}

#[test]
fn an_empty_directory_holds_no_monitors() {
    let load = ChannelMonitor::load_from_disk(&vec![]);
    assert!(load.loaded.is_empty());
    assert!(load.reports.is_empty());
}

#[test]
fn a_monitor_that_was_written_is_loaded() {
    let path = begin(77).filename;
    let name = path.rsplit('/').next().unwrap();
    let load = ChannelMonitor::load_from_disk(&vec![entry(name, true)]);
    assert_eq!(load.loaded, vec![(funding(77), 0)]);
}

#[test]
fn a_first_monitor_is_written_without_a_backup() {
    let mut write = begin(3);
    let mut seen = vec![write.stage];
    for event in [
        WriteEvent::Done,
        WriteEvent::Done,
        WriteEvent::Done,
        WriteEvent::NotFound,
        WriteEvent::Done,
        WriteEvent::Done,
        WriteEvent::Done,
    ] {
        write.advance(event);
        seen.push(write.stage);
    }
    assert_eq!(seen, vec![
        WriteStage::CreateTmp,
        WriteStage::WriteTmp,
        WriteStage::SyncTmp,
        WriteStage::Inspect,
        WriteStage::Rename,
        WriteStage::OpenFile,
        WriteStage::SyncFile,
        WriteStage::Update,
    ]);
    assert!(!write.need_bk);
    write.advance(WriteEvent::Failed);
    assert_eq!(write.stage, WriteStage::Update);
}

#[test]
fn a_later_monitor_is_written_with_a_backup() {
    let mut write = begin(3);
    let mut seen = vec![write.stage];
    while write.stage != WriteStage::Update {
        write.advance(WriteEvent::Done);
        seen.push(write.stage);
    }
    assert_eq!(seen, vec![
        WriteStage::CreateTmp,
        WriteStage::WriteTmp,
        WriteStage::SyncTmp,
        WriteStage::Inspect,
        WriteStage::CopyBackup,
        WriteStage::OpenBackup,
        WriteStage::SyncBackup,
        WriteStage::Rename,
        WriteStage::OpenFile,
        WriteStage::SyncFile,
        WriteStage::RemoveBackup,
        WriteStage::Update,
    ]);
    assert!(write.need_bk);
}

#[test]
fn a_look_that_fails_is_no_reason_to_go_without_a_backup() {
    let write = after(&[WriteEvent::Done, WriteEvent::Done, WriteEvent::Done, WriteEvent::Failed]);
    assert_eq!(write.stage, WriteStage::CopyBackup);
    assert!(write.need_bk);
}

#[test]
fn something_that_is_not_a_file_is_in_the_way() {
    let write =
        after(&[WriteEvent::Done, WriteEvent::Done, WriteEvent::Done, WriteEvent::NotAFile]);
    assert_eq!(write.stage, WriteStage::Fail);
}

#[test]
fn every_other_failure_is_permanent() {
    for done in (0..11).filter(|stage| *stage != 3) {
        for event in [WriteEvent::Failed, WriteEvent::NotFound, WriteEvent::NotAFile] {
            let mut write = after(&vec![WriteEvent::Done; done]);
            write.advance(event);
            assert_eq!(write.stage, WriteStage::Fail);
            write.advance(WriteEvent::Done);
            assert_eq!(write.stage, WriteStage::Fail);
        }
    }
}

#[test]
fn different_outputs_have_different_files() {
    let other = OutPoint { txid: [9; 32], index: 3 };
    let monitors = ChannelMonitor { file_prefix: "/data/monitors".to_string() };
    assert_ne!(begin(3).filename, begin(30).filename);
    assert_ne!(begin(3).filename, monitors.add_update_monitor(&other).filename);
}

struct Silent;

impl Logger for Silent {
    fn log(&self, _record: &Record) {}
}

fn sink() -> LogSink {
    LogSink { inner: Arc::new(Silent) }
}

/// The encoding of the monitor of a channel that has seen nothing yet.
fn encoding(index: u16) -> Vec<u8> {
    let key =
        hex_to_vec("0279be667ef9dcbbac55a06295ce870b07029bfcdb2dce28d959f2815b16f81798").unwrap();
    let mut bytes = vec![1, 1];
    bytes.extend([0; 6]);
    bytes.push(0);
    bytes.extend([1; 4 * 32]);
    bytes.extend(&key);
    // No points of commitments yet, and the funding output with an empty script.
    bytes.extend([0, 0]);
    bytes.extend(funding(index).txid);
    bytes.extend(index.to_be_bytes());
    bytes.extend([0, 0]);
    // No commitments of the other node yet, its keys, and no revocation points.
    bytes.extend([0, 0]);
    bytes.extend(&key);
    bytes.extend(&key);
    bytes.extend([0; 6]);
    // The delays, and 49 secrets that are not known yet.
    bytes.extend([0; 4]);
    bytes.extend(vec![0; 49 * 40]);
    // Three empty lists, no transactions of its own, a number, and an empty list.
    bytes.extend([0; 3 * 8]);
    bytes.extend([0, 0]);
    bytes.extend([0; 6]);
    bytes.extend([0; 8]);
    // The last block, an empty script, nothing to rescue, and three empty lists.
    bytes.extend([0; 32]);
    bytes.extend([0, 0]);
    bytes.push(0);
    bytes.extend([0; 3 * 8]);
    bytes
}

fn file(name: &str, contents: Option<Vec<u8>>) -> MonitorFile {
    MonitorFile { name: Some(name.to_string()), contents }
}

#[test]
fn the_monitors_among_files_are_loaded_from_what_they_hold() {
    let mut short = encoding(4);
    short.pop();
    let mut newer = encoding(5);
    newer[1] = 2;
    let load = ChannelMonitor::load_files(
        &vec![
            file(&format!("{}_9", TXID), Some(encoding(9))),
            MonitorFile { name: None, contents: Some(encoding(1)) },
            file("notes.txt", Some(encoding(2))),
            file(&format!("{}_3", TXID), None),
            file(&format!("{}_4", TXID), Some(short)),
            file(&format!("{}_5", TXID), Some(newer)),
            file(&format!("{}_6", TXID), Some(vec![])),
            file(&format!("{}_7.bk", TXID), Some(encoding(7))),
        ],
        &sink(),
    );
    let loaded: Vec<(OutPoint, Option<u16>)> = load
        .loaded
        .iter()
        .map(|(funding, monitor)| (*funding, monitor.inner.get_funding_txo().map(|o| o.index)))
        .collect();
    assert_eq!(loaded, vec![(funding(9), Some(9)), (funding(7), Some(7))]);
    assert_eq!(load.reports, vec![
        "WARNING: Failed to read one of the channel monitor storage files! Check perms!";
        6
    ]);
}

#[test]
fn no_files_hold_no_monitors() {
    let load = ChannelMonitor::load_files(&vec![], &sink());
    assert!(load.loaded.is_empty());
    assert!(load.reports.is_empty());
}

#[test]
fn a_monitor_file_that_was_written_is_loaded() {
    let path = begin(300).filename;
    let name = path.rsplit('/').next().unwrap();
    let load = ChannelMonitor::load_files(&vec![file(name, Some(encoding(300)))], &sink());
    assert_eq!(load.loaded.len(), 1);
    assert_eq!(load.loaded[0].0, funding(300));
    assert!(load.reports.is_empty());
}
