//! Channel monitors on disk: their file names, and the order in which a file is replaced.
use bitcoin_hashes::sha256d;
use lightning::util::ser::ReadableArgs;
use vstd::prelude::*;
use vstd::string::*;
use vstd::utf8::*;

use crate::hex::{lemma_hex_encoded_ascii, lower_hex};
use crate::outpoint::{
    law_txid_round_trip, law_txid_texts, read_txid, show_txid, txid_of_text, txid_text, OutPoint,
};
use crate::text::{
    decimal, law_decimal_round_trip, lemma_ascii_encoding, parse_u16, push_decimal,
    u16_text,
};

verus! {

/// The part of a text before its first dot, or all of it.
pub open spec fn before_dot(text: Seq<char>) -> Seq<char> {
    match text.index_of_first('.') {
        Some(at) => text.take(at),
        None => text,
    }
}

/// The name of the file that holds the monitor of the channel with this funding output.
pub open spec fn monitor_name(funding: OutPoint) -> Seq<char> {
    txid_text(funding.txid@) + "_"@ + decimal(funding.index as nat)
}

/// The funding output that the name of a file stands for.
///
/// A name stands for one if it is ASCII, longer than 65 characters, begins with a transaction id,
/// and holds an output index from its character 65 up to the next dot. The character between the
/// two is not looked at, and neither is what follows the dot.
pub open spec fn named_outpoint(name: Seq<char>) -> Option<(Seq<u8>, u16)> {
    if is_ascii_chars(name) && name.len() > 65 {
        match (txid_of_text(name.take(64)), u16_text(before_dot(name.skip(65)))) {
            (Some(txid), Some(index)) => Some((txid, index)),
            _ => None,
        }
    } else {
        None
    }
}

/// The part of `text` before its first dot.
fn front_of_dot(text: &str) -> (front: &str)
    requires
        text.is_ascii(),
    ensures
        front@ == before_dot(text@),
{
    let chars = crate::text::to_chars(text);
    let mut at: usize = 0;
    while at < chars.len()
        invariant
            chars@ == text@,
            text.is_ascii(),
            at <= chars@.len(),
            forall|i: int| 0 <= i < at ==> text@[i] != '.',
        decreases chars@.len() - at,
    {
        if chars[at] == '.' {
            proof {
                lemma_first_dot(text@, at as int);
            }
            return text.substring_ascii(0, at);
        }
        at += 1;
    }
    proof {
        lemma_no_dot(text@);
    }
    text
}

/// The first dot of a text, once it is known where it stands.
proof fn lemma_first_dot(text: Seq<char>, at: int)
    requires
        0 <= at < text.len(),
        text[at] == '.',
        forall|i: int| 0 <= i < at ==> text[i] != '.',
    ensures
        before_dot(text) == text.subrange(0, at),
{
    text.index_of_first_ensures('.');
    assert(text.contains('.'));
}

/// A text without a dot is its own front part.
proof fn lemma_no_dot(text: Seq<char>)
    requires
        forall|i: int| 0 <= i < text.len() ==> text[i] != '.',
    ensures
        before_dot(text) == text,
{
    text.index_of_first_ensures('.');
    assert(!text.contains('.'));
}

/// Where a monitor logs to, once it is loaded.
#[verifier::external_body]
pub struct LogSink {
    pub inner: std::sync::Arc<dyn lightning::util::logger::Logger>,
}

/// A channel monitor that was read.
#[verifier::external_body]
pub struct LoadedMonitor {
    pub inner: lightning::ln::channelmonitor::ChannelMonitor,
}

/// Whether bytes can be read as a channel monitor on a machine whose pointers have this many bits.
pub uninterp spec fn is_monitor_encoding(bytes: Seq<u8>, pointer_bits: nat) -> bool;

/// The bytes that a channel monitor was read from.
pub uninterp spec fn monitor_source(monitor: LoadedMonitor) -> Seq<u8>;

/// Reads a channel monitor.
///
/// Calls `read` of `lightning::util::ser::ReadableArgs` for a pair of a block hash and a
/// `lightning::ln::channelmonitor::ChannelMonitor`. What is claimed of it: whether it succeeds
/// depends on the bytes and on the width of the machine's pointers. The width counts because the
/// transactions in a monitor are read by `bitcoin`, which limits a list by the memory that it would
/// take, and cuts off a length that is too large for a pointer. The sink is only put into the monitor.
/// What else is in the monitor is not stated, except that it comes from these bytes.
#[verifier::external_body]
fn read_monitor(contents: &Vec<u8>, sink: &LogSink) -> (monitor: Option<LoadedMonitor>)
    ensures
        monitor is Some <==> is_monitor_encoding(contents@, usize::BITS as nat),
        monitor matches Some(m) ==> monitor_source(m) == contents@,
{
    let mut reader = std::io::Cursor::new(contents.as_slice());
    let read = <(sha256d::Hash, lightning::ln::channelmonitor::ChannelMonitor)>::read(
        &mut reader,
        sink.inner.clone(),
    );
    match read {
        Ok((_, inner)) => Some(LoadedMonitor { inner }),
        Err(_) => None,
    }
}

/// A file in a directory that monitors are kept in.
pub struct MonitorFile {
    /// Its name, or `None` if that is not text.
    pub name: Option<String>,
    /// What it holds, or `None` if that could not be read. If its name stands for no funding output,
    /// this is not looked at.
    pub contents: Option<Vec<u8>>,
}

/// The monitors in a directory.
pub struct FileLoad {
    /// The monitors, each with its funding output.
    pub loaded: Vec<(OutPoint, LoadedMonitor)>,
    /// What to print about the other files, one line for each.
    pub reports: Vec<String>,
}

/// The funding output of a monitor that was loaded, and the bytes that it was read from.
pub open spec fn loaded_monitor(found: (OutPoint, LoadedMonitor)) -> ((Seq<u8>, u16), Seq<u8>) {
    ((found.0.txid@, found.0.index), monitor_source(found.1))
}

/// The funding output and the bytes of the monitor that a file holds, or `None` if it holds none.
pub open spec fn file_monitor(file: MonitorFile) -> Option<((Seq<u8>, u16), Seq<u8>)> {
    match (file.name, file.contents) {
        (Some(name), Some(contents)) => match named_outpoint(name@) {
            Some(funding) => if is_monitor_encoding(contents@, usize::BITS as nat) {
                Some((funding, contents@))
            } else {
                None
            },
            None => None,
        },
        _ => None,
    }
}

/// The monitors among the files of a directory, in the order of the files.
pub open spec fn files_loaded(files: Seq<MonitorFile>) -> Seq<((Seq<u8>, u16), Seq<u8>)>
    decreases files.len(),
{
    if files.len() == 0 {
        Seq::empty()
    } else {
        let before = files_loaded(files.drop_last());
        match file_monitor(files.last()) {
            Some(found) => before.push(found),
            None => before,
        }
    }
}

/// An entry of a directory that monitors are kept in.
pub struct MonitorEntry {
    /// Its name, or `None` if that is not text.
    pub name: Option<String>,
    /// Whether it could be read as a monitor. If its name stands for no funding output, this is not
    /// looked at.
    pub decodes: bool,
}

/// Which entries of a directory are monitors.
pub struct MonitorLoad {
    /// The funding output of each monitor, and the place of its entry.
    pub loaded: Vec<(OutPoint, usize)>,
    /// What to print about the other entries, one line for each.
    pub reports: Vec<String>,
}

/// The funding output of a monitor, and the place of its entry.
pub open spec fn found_monitor(found: (OutPoint, usize)) -> ((Seq<u8>, u16), int) {
    ((found.0.txid@, found.0.index), found.1 as int)
}

/// The funding output of the monitor that an entry holds, or `None` if it holds none.
pub open spec fn entry_outpoint(entry: MonitorEntry) -> Option<(Seq<u8>, u16)> {
    match entry.name {
        Some(name) => if entry.decodes {
            named_outpoint(name@)
        } else {
            None
        },
        None => None,
    }
}

/// The monitors among the entries of a directory, in the order of the entries.
pub open spec fn loaded_from(entries: Seq<MonitorEntry>) -> Seq<((Seq<u8>, u16), int)>
    decreases entries.len(),
{
    if entries.len() == 0 {
        Seq::empty()
    } else {
        let before = loaded_from(entries.drop_last());
        match entry_outpoint(entries.last()) {
            Some(funding) => before.push((funding, entries.len() - 1)),
            None => before,
        }
    }
}

/// The channel monitors that are kept as files under one directory.
pub struct ChannelMonitor {
    /// The path of the directory.
    pub file_prefix: String,
}

impl ChannelMonitor {
    /// Tells which funding output the name of a directory entry stands for; `name` is `None` for a
    /// name that is not text.
    pub fn named_funding(name: Option<&str>) -> (funding: Option<OutPoint>)
        ensures
            funding is Some <==> name is Some && named_outpoint(name->0@) is Some,
            funding matches Some(o) ==> named_outpoint(name->0@) == Some((o.txid@, o.index)),
    {
        let filename = match name {
            Some(filename) => filename,
            None => return None,
        };
        if !filename.is_ascii() {
            return None;
        }
        proof {
            lemma_ascii_encoding(filename@);
        }
        let length: usize = filename.as_bytes().len();
        if length <= 65 {
            return None;
        }
        let head = filename.substring_ascii(0, 64);
        let tail = filename.substring_ascii(65, length);
        assert(head@ =~= filename@.take(64));
        assert(tail@ =~= filename@.skip(65));
        match (read_txid(head), parse_u16(front_of_dot(tail))) {
            (Some(txid), Some(index)) => Some(OutPoint { txid, index }),
            _ => None,
        }
    }

    /// Finds out which entries of a directory are loaded as monitors, and what to print about the
    /// others.
    pub fn load_from_disk(entries: &Vec<MonitorEntry>) -> (load: MonitorLoad)
        ensures
            load.loaded@.map_values(|found: (OutPoint, usize)| found_monitor(found)) == loaded_from(
                entries@,
            ),
            load.reports@.len() == entries@.len() - load.loaded@.len(),
            forall|i: int|
                0 <= i < load.reports@.len() ==> (#[trigger] load.reports@[i])@
                    == "WARNING: Failed to read one of the channel monitor storage files! Check perms!"@,
    {
        let mut loaded: Vec<(OutPoint, usize)> = Vec::new();
        let mut reports: Vec<String> = Vec::new();
        let mut i: usize = 0;
        proof {
            assert(entries@.take(0) =~= Seq::<MonitorEntry>::empty());
            assert(loaded@.map_values(|found: (OutPoint, usize)| found_monitor(found))
                =~= loaded_from(entries@.take(0)));
        }
        while i < entries.len()
            invariant
                i <= entries@.len(),
                loaded@.map_values(|found: (OutPoint, usize)| found_monitor(found)) == loaded_from(
                    entries@.take(i as int),
                ),
                reports@.len() == i - loaded@.len(),
                forall|j: int|
                    0 <= j < reports@.len() ==> (#[trigger] reports@[j])@
                        == "WARNING: Failed to read one of the channel monitor storage files! Check perms!"@,
            decreases entries@.len() - i,
        {
            let name = match &entries[i].name {
                Some(name) => Some(name.as_str()),
                None => None,
            };
            let funding = if entries[i].decodes {
                ChannelMonitor::named_funding(name)
            } else {
                None
            };
            assert(entries@.take(i + 1).drop_last() =~= entries@.take(i as int));
            match funding {
                Some(funding) => {
                    loaded.push((funding, i));
                    assert(loaded@.map_values(|found: (OutPoint, usize)| found_monitor(found))
                        =~= loaded_from(entries@.take(i as int)).push(
                        found_monitor((funding, i)),
                    ));
                },
                None => {
                    reports.push(
                        "WARNING: Failed to read one of the channel monitor storage files! Check perms!".to_string(),
                    );
                },
            }
            i += 1;
        }
        assert(entries@.take(i as int) =~= entries@);
        MonitorLoad { loaded, reports }
    }

    /// Loads the monitors among the files of a directory, and finds out what to print about the other
    /// files.
    pub fn load_files(files: &Vec<MonitorFile>, sink: &LogSink) -> (load: FileLoad)
        ensures
            load.loaded@.map_values(|found: (OutPoint, LoadedMonitor)| loaded_monitor(found))
                == files_loaded(files@),
            load.reports@.len() == files@.len() - load.loaded@.len(),
            forall|i: int|
                0 <= i < load.reports@.len() ==> (#[trigger] load.reports@[i])@
                    == "WARNING: Failed to read one of the channel monitor storage files! Check perms!"@,
    {
        let mut loaded: Vec<(OutPoint, LoadedMonitor)> = Vec::new();
        let mut entries: Vec<MonitorEntry> = Vec::new();
        let mut i: usize = 0;
        proof {
            assert(files@.take(0) =~= Seq::<MonitorFile>::empty());
            assert(loaded@.map_values(|found: (OutPoint, LoadedMonitor)| loaded_monitor(found))
                =~= files_loaded(files@.take(0)));
        }
        while i < files.len()
            invariant
                i <= files@.len(),
                entries@.len() == i,
                loaded@.map_values(|found: (OutPoint, LoadedMonitor)| loaded_monitor(found))
                    == files_loaded(files@.take(i as int)),
                loaded@.len() == loaded_from(entries@).len(),
            decreases files@.len() - i,
        {
            let ghost so_far = entries@;
            let file = &files[i];
            let name = match &file.name {
                Some(name) => Some(name.clone()),
                None => None,
            };
            let funding = match &file.name {
                Some(name) => ChannelMonitor::named_funding(Some(name.as_str())),
                None => None,
            };
            let monitor = match (&funding, &file.contents) {
                (Some(_), Some(contents)) => read_monitor(contents, sink),
                _ => None,
            };
            entries.push(MonitorEntry { name, decodes: monitor.is_some() });
            proof {
                assert(files@.take(i + 1).drop_last() =~= files@.take(i as int));
                assert(entries@.drop_last() =~= so_far);
            }
            if let (Some(funding), Some(monitor)) = (funding, monitor) {
                loaded.push((funding, monitor));
                assert(loaded@.map_values(|found: (OutPoint, LoadedMonitor)| loaded_monitor(found))
                    =~= files_loaded(files@.take(i as int)).push(
                    loaded_monitor((funding, monitor)),
                ));
            }
            i += 1;
        }
        assert(files@.take(i as int) =~= files@);
        let reports = ChannelMonitor::load_from_disk(&entries).reports;
        FileLoad { loaded, reports }
    }

    /// The path of a monitor's file.
    pub open spec fn path(&self, funding: OutPoint) -> Seq<char> {
        self.file_prefix@ + "/"@ + monitor_name(funding)
    }

    /// Begins to replace a monitor's file.
    pub fn add_update_monitor(&self, funding_txo: &OutPoint) -> (write: MonitorWrite)
        ensures
            write.filename@ == self.path(*funding_txo),
            write.tmp_filename@ == self.path(*funding_txo) + ".tmp"@,
            write.bk_filename@ == self.path(*funding_txo) + ".bk"@,
            write.stage == WriteStage::CreateTmp,
            !write.need_bk,
    {
        let mut filename = self.file_prefix.clone();
        filename.append("/");
        filename.append(show_txid(&funding_txo.txid).as_str());
        filename.append("_");
        push_decimal(&mut filename, funding_txo.index as u64);
        assert(filename@ =~= self.path(*funding_txo));
        let mut tmp_filename = filename.clone();
        tmp_filename.append(".tmp");
        let mut bk_filename = filename.clone();
        bk_filename.append(".bk");
        MonitorWrite {
            filename,
            tmp_filename,
            bk_filename,
            stage: WriteStage::CreateTmp,
            need_bk: false,
        }
    }
}

/// What is to be done next to replace a monitor's file.
#[derive(Clone, Copy, Debug, PartialEq, Eq, Structural)]
pub enum WriteStage {
    /// Create the temporary file, empty.
    CreateTmp,
    /// Write the monitor to the temporary file.
    WriteTmp,
    /// Sync the temporary file.
    SyncTmp,
    /// Look whether the file is there and is a regular one.
    Inspect,
    /// Copy the file to the backup file.
    CopyBackup,
    /// Open the backup file.
    OpenBackup,
    /// Sync the backup file.
    SyncBackup,
    /// Rename the temporary file to the file.
    Rename,
    /// Open the file.
    OpenFile,
    /// Sync the file.
    SyncFile,
    /// Remove the backup file.
    RemoveBackup,
    /// The file is in place: hand the monitor on to the monitors in memory.
    Update,
    /// Report a permanent failure.
    Fail,
}

/// How what was to be done came out.
#[derive(Clone, Copy, Debug, PartialEq, Eq, Structural)]
pub enum WriteEvent {
    /// It was done. Of the look: the file is there and is a regular one.
    Done,
    /// Of the look: something is there that is not a regular file.
    NotAFile,
    /// It failed, because there is no such file.
    NotFound,
    /// It failed in another way.
    Failed,
}

/// The stage that follows when everything so far was done.
pub open spec fn stage_after(stage: WriteStage, need_bk: bool) -> WriteStage {
    match stage {
        WriteStage::CreateTmp => WriteStage::WriteTmp,
        WriteStage::WriteTmp => WriteStage::SyncTmp,
        WriteStage::SyncTmp => WriteStage::Inspect,
        WriteStage::Inspect => if need_bk { WriteStage::CopyBackup } else { WriteStage::Rename },
        WriteStage::CopyBackup => WriteStage::OpenBackup,
        WriteStage::OpenBackup => WriteStage::SyncBackup,
        WriteStage::SyncBackup => WriteStage::Rename,
        WriteStage::Rename => WriteStage::OpenFile,
        WriteStage::OpenFile => WriteStage::SyncFile,
        WriteStage::SyncFile => if need_bk { WriteStage::RemoveBackup } else { WriteStage::Update },
        WriteStage::RemoveBackup => WriteStage::Update,
        WriteStage::Update => WriteStage::Update,
        WriteStage::Fail => WriteStage::Fail,
    }
}

/// The stage, and whether there is a backup to keep, after an event.
///
/// A backup is kept unless the look found that there is no file; a look that failed in any other
/// way is no reason to go without one. Anything else that is not done ends in failure.
pub open spec fn write_step(stage: WriteStage, need_bk: bool, event: WriteEvent) -> (
    WriteStage,
    bool,
) {
    if stage == WriteStage::Update || stage == WriteStage::Fail {
        (stage, need_bk)
    } else if stage == WriteStage::Inspect {
        match event {
            WriteEvent::Done | WriteEvent::Failed => (stage_after(stage, true), true),
            WriteEvent::NotFound => (stage_after(stage, false), false),
            WriteEvent::NotAFile => (WriteStage::Fail, need_bk),
        }
    } else if event == WriteEvent::Done {
        (stage_after(stage, need_bk), need_bk)
    } else {
        (WriteStage::Fail, need_bk)
    }
}

/// The replacement of a monitor's file, under way.
pub struct MonitorWrite {
    /// The file.
    pub filename: String,
    /// The file that the monitor is first written to.
    pub tmp_filename: String,
    /// The file that keeps what was there before.
    pub bk_filename: String,
    /// What is to be done next.
    pub stage: WriteStage,
    /// Whether there was something before that is to be kept until the end.
    pub need_bk: bool,
}

impl MonitorWrite {
    /// Takes in how the present stage came out.
    pub fn advance(&mut self, event: WriteEvent)
        ensures
            (final(self).stage, final(self).need_bk) == write_step(
                old(self).stage,
                old(self).need_bk,
                event,
            ),
            final(self).filename == old(self).filename,
            final(self).tmp_filename == old(self).tmp_filename,
            final(self).bk_filename == old(self).bk_filename,
    {
        let done = event == WriteEvent::Done;
        match self.stage {
            WriteStage::Update | WriteStage::Fail => {},
            WriteStage::Inspect => match event {
                WriteEvent::Done | WriteEvent::Failed => {
                    self.need_bk = true;
                    self.stage = WriteStage::CopyBackup;
                },
                WriteEvent::NotFound => {
                    self.need_bk = false;
                    self.stage = WriteStage::Rename;
                },
                WriteEvent::NotAFile => {
                    self.stage = WriteStage::Fail;
                },
            },
            stage => {
                self.stage = if !done {
                    WriteStage::Fail
                } else {
                    match stage {
                        WriteStage::CreateTmp => WriteStage::WriteTmp,
                        WriteStage::WriteTmp => WriteStage::SyncTmp,
                        WriteStage::SyncTmp => WriteStage::Inspect,
                        WriteStage::CopyBackup => WriteStage::OpenBackup,
                        WriteStage::OpenBackup => WriteStage::SyncBackup,
                        WriteStage::SyncBackup => WriteStage::Rename,
                        WriteStage::Rename => WriteStage::OpenFile,
                        WriteStage::OpenFile => WriteStage::SyncFile,
                        WriteStage::SyncFile => if self.need_bk {
                            WriteStage::RemoveBackup
                        } else {
                            WriteStage::Update
                        },
                        _ => WriteStage::Update,
                    }
                };
            },
        }
    }
}

/// What a file holds, and whether that is sure to survive a loss of power.
pub struct FileState {
    pub data: Seq<u8>,
    pub durable: bool,
}

/// The three files that take part in a replacement; `None` where there is no such file.
pub struct DiskState {
    pub tmp: Option<FileState>,
    pub main: Option<FileState>,
    pub bk: Option<FileState>,
}

/// What carrying out a stage may do to the files.
///
/// A stage that is not done may leave the file that it works on in any state, except that a rename
/// happens whole or not at all, a sync alters no data, and a file that is only read or removed
/// keeps its data as long as it is there. A rename that was done is taken to be kept; where the
/// file system asks for a sync of the directory as well, that is not part of a replacement.
pub open spec fn disk_step(
    stage: WriteStage,
    event: WriteEvent,
    monitor: Seq<u8>,
    before: DiskState,
    after: DiskState,
) -> bool {
    let done = event == WriteEvent::Done;
    match stage {
        WriteStage::CreateTmp => {
            &&& after.main == before.main
            &&& after.bk == before.bk
        },
        WriteStage::WriteTmp => {
            &&& after.main == before.main
            &&& after.bk == before.bk
            &&& done ==> after.tmp is Some && after.tmp->0.data == monitor
        },
        WriteStage::SyncTmp => {
            &&& after.main == before.main
            &&& after.bk == before.bk
            &&& done ==> before.tmp is Some && after.tmp == Some(
                FileState { data: before.tmp->0.data, durable: true },
            )
        },
        WriteStage::Inspect => {
            &&& after == before
            &&& done ==> before.main is Some
            &&& event == WriteEvent::NotFound ==> before.main is None
        },
        WriteStage::CopyBackup => {
            &&& after.main == before.main
            &&& after.tmp == before.tmp
            &&& done ==> before.main is Some && after.bk is Some && after.bk->0.data
                == before.main->0.data
        },
        WriteStage::OpenBackup | WriteStage::OpenFile => after == before,
        WriteStage::SyncBackup => {
            &&& after.main == before.main
            &&& after.tmp == before.tmp
            &&& done ==> before.bk is Some && after.bk == Some(
                FileState { data: before.bk->0.data, durable: true },
            )
        },
        WriteStage::Rename => if done {
            &&& before.tmp is Some
            &&& after == DiskState { tmp: None, main: before.tmp, bk: before.bk }
        } else {
            after == before
        },
        WriteStage::SyncFile => {
            &&& after.tmp == before.tmp
            &&& after.bk == before.bk
            &&& after.main is Some == before.main is Some
            &&& before.main matches Some(file) ==> {
                &&& after.main->0.data == file.data
                &&& file.durable || done ==> after.main->0.durable
            }
        },
        WriteStage::RemoveBackup => {
            &&& after.main == before.main
            &&& after.tmp == before.tmp
            &&& if done { after.bk is None } else { after.bk == before.bk || after.bk is None }
        },
        WriteStage::Update | WriteStage::Fail => after == before,
    }
}

/// A replacement under way, together with the files.
pub struct WriteState {
    pub stage: WriteStage,
    pub need_bk: bool,
    pub disk: DiskState,
}

/// Whether `states` is a course that a replacement can take under `events`, from the start.
pub open spec fn write_run(
    states: Seq<WriteState>,
    events: Seq<WriteEvent>,
    monitor: Seq<u8>,
) -> bool {
    &&& states.len() == events.len() + 1
    &&& states[0].stage == WriteStage::CreateTmp
    &&& !states[0].need_bk
    &&& forall|i: int|
        #![trigger events[i]]
        0 <= i < events.len() ==> {
            &&& (states[i + 1].stage, states[i + 1].need_bk) == write_step(
                states[i].stage,
                states[i].need_bk,
                events[i],
            )
            &&& disk_step(states[i].stage, events[i], monitor, states[i].disk, states[i + 1].disk)
        }
}

/// What holds at each stage, of the files and of what was there at the start.
pub open spec fn write_inv(state: WriteState, initial: Option<FileState>, monitor: Seq<u8>) -> bool {
    let written = Some(FileState { data: monitor, durable: true });
    let disk = state.disk;
    match state.stage {
        WriteStage::CreateTmp | WriteStage::WriteTmp => disk.main == initial,
        WriteStage::SyncTmp => {
            &&& disk.main == initial
            &&& disk.tmp is Some
            &&& disk.tmp->0.data == monitor
        },
        WriteStage::Inspect => disk.main == initial && disk.tmp == written,
        WriteStage::CopyBackup => {
            &&& state.need_bk
            &&& disk.main == initial
            &&& disk.tmp == written
        },
        WriteStage::OpenBackup | WriteStage::SyncBackup => {
            &&& state.need_bk
            &&& disk.main == initial
            &&& disk.tmp == written
            &&& initial is Some
            &&& disk.bk is Some
            &&& disk.bk->0.data == initial->0.data
        },
        WriteStage::Rename => {
            &&& disk.main == initial
            &&& disk.tmp == written
            &&& initial matches Some(file) ==> state.need_bk && disk.bk == Some(
                FileState { data: file.data, durable: true },
            )
        },
        WriteStage::OpenFile | WriteStage::SyncFile | WriteStage::RemoveBackup => {
            &&& disk.main == written
            &&& disk.tmp is None
            &&& initial matches Some(file) ==> state.need_bk && disk.bk == Some(
                FileState { data: file.data, durable: true },
            )
        },
        WriteStage::Update => {
            &&& disk.main == written
            &&& disk.tmp is None
            &&& initial is Some ==> disk.bk is None
        },
        WriteStage::Fail => disk.main == initial || disk.main == written,
    }
}

proof fn lemma_write_inv(states: Seq<WriteState>, events: Seq<WriteEvent>, monitor: Seq<u8>, i: int)
    requires
        write_run(states, events, monitor),
        0 <= i < states.len(),
    ensures
        write_inv(states[i], states[0].disk.main, monitor),
    decreases i,
{
    if i > 0 {
        lemma_write_inv(states, events, monitor, i - 1);
        let event = events[i - 1];
        assert(disk_step(states[i - 1].stage, event, monitor, states[i - 1].disk, states[i].disk));
    }
}

/// The stages from the moment at which the file is about to be replaced until the backup is removed.
pub open spec fn backed_up(stage: WriteStage) -> bool {
    ||| stage == WriteStage::Rename
    ||| stage == WriteStage::OpenFile
    ||| stage == WriteStage::SyncFile
    ||| stage == WriteStage::RemoveBackup
}

/// At no point of a replacement, however it comes out, is what the file held before lost: the file
/// holds it, untouched, or it holds the whole new monitor, on durable storage.
///
/// From the moment at which the file is about to be replaced until the backup is removed, the
/// backup file holds what was there before as well, on durable storage.
pub proof fn law_old_monitor_is_never_lost(
    states: Seq<WriteState>,
    events: Seq<WriteEvent>,
    monitor: Seq<u8>,
    i: int,
)
    requires
        write_run(states, events, monitor),
        0 <= i < states.len(),
    ensures
        states[i].disk.main == states[0].disk.main || states[i].disk.main == Some(
            FileState { data: monitor, durable: true },
        ),
        backed_up(states[i].stage) ==> (states[0].disk.main matches Some(file)
            ==> states[i].disk.bk == Some(FileState { data: file.data, durable: true })),
{
    lemma_write_inv(states, events, monitor, i);
}

/// A replacement that reports success has put the whole new monitor into the file, on durable
/// storage, and has left neither the temporary file nor a backup of an earlier monitor behind.
pub proof fn law_success_is_durable(
    states: Seq<WriteState>,
    events: Seq<WriteEvent>,
    monitor: Seq<u8>,
    i: int,
)
    requires
        write_run(states, events, monitor),
        0 <= i < states.len(),
        states[i].stage == WriteStage::Update,
    ensures
        states[i].disk.main == Some(FileState { data: monitor, durable: true }),
        states[i].disk.tmp is None,
        states[0].disk.main is Some ==> states[i].disk.bk is None,
{
    lemma_write_inv(states, events, monitor, i);
}

/// How far a stage is from the end, at most.
pub open spec fn stages_left(stage: WriteStage) -> nat {
    match stage {
        WriteStage::CreateTmp => 11,
        WriteStage::WriteTmp => 10,
        WriteStage::SyncTmp => 9,
        WriteStage::Inspect => 8,
        WriteStage::CopyBackup => 7,
        WriteStage::OpenBackup => 6,
        WriteStage::SyncBackup => 5,
        WriteStage::Rename => 4,
        WriteStage::OpenFile => 3,
        WriteStage::SyncFile => 2,
        WriteStage::RemoveBackup => 1,
        WriteStage::Update | WriteStage::Fail => 0,
    }
}

/// Every event brings a replacement nearer to its end, until it has come to it.
pub proof fn law_write_ends(stage: WriteStage, need_bk: bool, event: WriteEvent)
    ensures
        stages_left(stage) > 0 ==> stages_left(write_step(stage, need_bk, event).0) < stages_left(
            stage,
        ),
        stages_left(stage) == 0 <==> stage == WriteStage::Update || stage == WriteStage::Fail,
{
}

/// The name of a monitor's file stands for the funding output that it was made from. So does that
/// name with anything behind it that begins with a dot, such as the names of the temporary file and
/// of the backup file.
pub proof fn law_monitor_name_round_trip(funding: OutPoint, suffix: Seq<char>)
    requires
        is_ascii_chars(suffix),
        suffix.len() == 0 || suffix[0] == '.',
    ensures
        named_outpoint(monitor_name(funding) + suffix) == Some((funding.txid@, funding.index)),
{
    reveal_strlit("_");
    let txid = txid_text(funding.txid@);
    let index = decimal(funding.index as nat);
    let name = monitor_name(funding) + suffix;
    law_txid_round_trip(funding.txid@);
    lemma_hex_encoded_ascii(funding.txid@.reverse());
    law_decimal_round_trip(funding.index as nat);
    assert(name.take(64) =~= txid);
    assert(name.skip(65) =~= index + suffix);
    assert forall|i: int| 0 <= i < name.len() implies '\0' <= #[trigger] name[i] <= '\u{7f}' by {
        if i < 64 {
            assert(name[i] == txid[i]);
        } else if 65 <= i < 65 + index.len() {
            assert(name[i] == index[i - 65]);
        } else if i >= 65 + index.len() {
            assert(name[i] == suffix[i - 65 - index.len()]);
        }
    }
    let rest = name.skip(65);
    assert forall|i: int| 0 <= i < index.len() implies rest[i] != '.' by {
        assert(rest[i] == index[i]);
    }
    if suffix.len() == 0 {
        lemma_no_dot(rest);
    } else {
        assert(rest[index.len() as int] == suffix[0]);
        lemma_first_dot(rest, index.len() as int);
    }
    assert(before_dot(rest) =~= index);
    assert(index[0] != '+');
}

/// An entry is loaded exactly if it holds a monitor, and as the one that its name stands for.
pub proof fn law_all_monitors_are_loaded(
    entries: Seq<MonitorEntry>,
    funding: (Seq<u8>, u16),
    i: int,
)
    ensures
        loaded_from(entries).contains((funding, i)) <==> 0 <= i < entries.len() && entry_outpoint(
            entries[i],
        ) == Some(funding),
    decreases entries.len(),
{
    let loaded = loaded_from(entries);
    if entries.len() > 0 {
        let before = loaded_from(entries.drop_last());
        let last = entries.len() - 1;
        law_all_monitors_are_loaded(entries.drop_last(), funding, i);
        match entry_outpoint(entries.last()) {
            Some(found) => {
                assert(loaded.last() == (found, last));
                if before.contains((funding, i)) {
                    let k = before.index_of((funding, i));
                    assert(loaded[k] == (funding, i));
                }
                if loaded.contains((funding, i)) && (funding, i) != (found, last) {
                    let k = loaded.index_of((funding, i));
                    assert(before[k] == (funding, i));
                }
            },
            None => {},
        }
    }
}

/// A monitor that was written is loaded: an entry with the name that the monitor's file was given is
/// loaded, once it can be read, as the monitor of the same funding output.
pub proof fn law_written_monitors_are_loaded(
    entries: Seq<MonitorEntry>,
    funding: OutPoint,
    i: int,
)
    requires
        0 <= i < entries.len(),
        entries[i].decodes,
        entries[i].name matches Some(name) && name@ == monitor_name(funding),
    ensures
        loaded_from(entries).contains(((funding.txid@, funding.index), i)),
{
    law_monitor_name_round_trip(funding, Seq::empty());
    assert(monitor_name(funding) + Seq::empty() =~= monitor_name(funding));
    law_all_monitors_are_loaded(entries, (funding.txid@, funding.index), i);
}

/// Exactly the files that hold monitors are loaded, each as the monitor that its name and its bytes
/// stand for.
pub proof fn law_all_monitor_files_are_loaded(
    files: Seq<MonitorFile>,
    found: ((Seq<u8>, u16), Seq<u8>),
)
    ensures
        files_loaded(files).contains(found) <==> exists|i: int|
            0 <= i < files.len() && file_monitor(#[trigger] files[i]) == Some(found),
    decreases files.len(),
{
    let loaded = files_loaded(files);
    if files.len() > 0 {
        let front = files.drop_last();
        let before = files_loaded(front);
        law_all_monitor_files_are_loaded(front, found);
        if before.contains(found) {
            let i = choose|i: int|
                0 <= i < front.len() && file_monitor(#[trigger] front[i]) == Some(found);
            assert(files[i] == front[i]);
            assert(loaded[before.index_of(found)] == found);
        }
        if file_monitor(files.last()) == Some(found) {
            assert(files[files.len() - 1] == files.last());
            assert(loaded.last() == found);
        }
        if loaded.contains(found) && !before.contains(found) {
            let k = loaded.index_of(found);
            assert(k < before.len() ==> before[k] == found);
            assert(files[files.len() - 1] == files.last());
        }
        if exists|i: int| 0 <= i < files.len() && file_monitor(#[trigger] files[i]) == Some(found) {
            let i = choose|i: int|
                0 <= i < files.len() && file_monitor(#[trigger] files[i]) == Some(found);
            if i < front.len() {
                assert(front[i] == files[i]);
            }
        }
    }
}

/// What was written is loaded: a file with the name that the monitor of a funding output is given, and
/// with bytes that can be read as a monitor, is loaded as the monitor of that output, from those bytes.
pub proof fn law_written_files_are_loaded(files: Seq<MonitorFile>, funding: OutPoint, i: int)
    requires
        0 <= i < files.len(),
        files[i].name matches Some(name) && name@ == monitor_name(funding),
        files[i].contents matches Some(contents) && is_monitor_encoding(
            contents@,
            usize::BITS as nat,
        ),
    ensures
        files_loaded(files).contains(
            ((funding.txid@, funding.index), files[i].contents->0@),
        ),
{
    law_monitor_name_round_trip(funding, Seq::empty());
    assert(monitor_name(funding) + Seq::empty() =~= monitor_name(funding));
    let found = ((funding.txid@, funding.index), files[i].contents->0@);
    assert(file_monitor(files[i]) == Some(found));
    law_all_monitor_files_are_loaded(files, found);
}

/// The three files that take part in a replacement are three different files.
pub proof fn law_replacement_files_differ(path: Seq<char>)
    ensures
        path + ".tmp"@ != path,
        path + ".bk"@ != path,
        path + ".tmp"@ != path + ".bk"@,
{
    reveal_strlit(".tmp");
    reveal_strlit(".bk");
    assert((path + ".tmp"@).len() == path.len() + 4);
    assert((path + ".bk"@).len() == path.len() + 3);
}

/// Different funding outputs have their monitors in different files.
pub proof fn law_monitor_names_differ(a: OutPoint, b: OutPoint)
    requires
        monitor_name(a) == monitor_name(b),
    ensures
        a == b,
{
    law_monitor_name_round_trip(a, Seq::empty());
    law_monitor_name_round_trip(b, Seq::empty());
    assert(monitor_name(a) + Seq::empty() =~= monitor_name(a));
    assert(monitor_name(b) + Seq::empty() =~= monitor_name(b));
    assert(a.txid =~= b.txid);
}

/// A monitor is written to its own file in the directory: the path is that of the directory, a slash,
/// and a name without a slash. That name is the transaction id of the funding output as it is shown, an
/// underscore, and the output's index in decimal; and it is read, when monitors are loaded, as standing
/// for exactly that funding output.
pub proof fn law_monitors_are_written_under_their_funding_output(
    monitors: ChannelMonitor,
    funding: OutPoint,
)
    ensures
        ({
            let path = monitors.path(funding);
            let name = path.skip(1 + monitors.file_prefix@.len() as int);
            &&& path == monitors.file_prefix@ + "/"@ + name
            &&& !name.contains('/')
            &&& named_outpoint(name) == Some((funding.txid@, funding.index))
            &&& name.len() > 65
            &&& name.take(64) == txid_text(funding.txid@)
            &&& name[64] == '_'
            &&& name.skip(65) == decimal(funding.index as nat)
        }),
{
    reveal_strlit("/");
    reveal_strlit("_");
    let path = monitors.path(funding);
    let name = path.skip(1 + monitors.file_prefix@.len() as int);
    let txid = txid_text(funding.txid@);
    let index = decimal(funding.index as nat);
    assert(name =~= monitor_name(funding));
    law_monitor_name_round_trip(funding, Seq::empty());
    assert(name + Seq::empty() =~= name);
    law_decimal_round_trip(funding.index as nat);
    assert(name.take(64) =~= txid);
    assert(name.skip(65) =~= index);
    assert forall|i: int| 0 <= i < name.len() implies name[i] != '/' by {
        if i < 64 {
            assert(name[i] == txid[i]);
        } else if i > 64 {
            assert(name[i] == index[i - 65]);
        }
    }
    assert(path =~= monitors.file_prefix@ + "/"@ + name);
}

/// The files that hold the monitors of different funding outputs, or take part in replacing them, are
/// different files.
pub proof fn law_files_of_different_outputs_differ(
    monitors: ChannelMonitor,
    a: OutPoint,
    b: OutPoint,
    behind_a: Seq<char>,
    behind_b: Seq<char>,
)
    requires
        a != b,
        behind_a == ""@ || behind_a == ".tmp"@ || behind_a == ".bk"@,
        behind_b == ""@ || behind_b == ".tmp"@ || behind_b == ".bk"@,
    ensures
        monitors.path(a) + behind_a != monitors.path(b) + behind_b,
{
    reveal_strlit("");
    reveal_strlit(".tmp");
    reveal_strlit(".bk");
    let front = monitors.file_prefix@ + "/"@;
    let one = monitors.path(a) + behind_a;
    let other = monitors.path(b) + behind_b;
    law_monitor_name_round_trip(a, behind_a);
    law_monitor_name_round_trip(b, behind_b);
    assert(one.skip(front.len() as int) =~= monitor_name(a) + behind_a);
    assert(other.skip(front.len() as int) =~= monitor_name(b) + behind_b);
    if one == other {
        assert(a.txid =~= b.txid);
    }
}

/// A name stands for a funding output exactly if it is ASCII and made of a text that shows the
/// transaction id, any one character, a text for the index, and then nothing, or a dot and anything.
pub proof fn law_monitor_names(name: Seq<char>, txid: Seq<u8>, index: u16)
    ensures
        named_outpoint(name) == Some((txid, index)) <==> is_ascii_chars(name) && exists|
            head: Seq<char>,
            mark: char,
            number: Seq<char>,
            rest: Seq<char>,
        |
            {
                &&& name == #[trigger] (head.push(mark) + number + rest)
                &&& txid_of_text(head) == Some(txid)
                &&& u16_text(number) == Some(index)
                &&& rest.len() == 0 || rest[0] == '.'
            },
{
    if named_outpoint(name) == Some((txid, index)) {
        let head = name.take(64);
        let tail = name.skip(65);
        let number = before_dot(tail);
        tail.index_of_first_ensures('.');
        let rest = tail.skip(number.len() as int);
        assert(tail =~= number + rest);
        assert(name =~= head.push(name[64]) + number + rest);
    }
    if is_ascii_chars(name) {
        assert forall|head: Seq<char>, mark: char, number: Seq<char>, rest: Seq<char>|
            ({
                &&& name == #[trigger] (head.push(mark) + number + rest)
                &&& txid_of_text(head) == Some(txid)
                &&& u16_text(number) == Some(index)
                &&& rest.len() == 0 || rest[0] == '.'
            }) implies named_outpoint(name) == Some((txid, index)) by {
            law_txid_texts(head, txid);
            assert(txid_text(txid).len() == 64);
            assert(head.map_values(|c: char| lower_hex(c)).len() == head.len());
            assert(head.len() == 64);
            assert(name.take(64) =~= head);
            let tail = name.skip(65);
            assert(tail =~= number + rest);
            let digits = if number.len() > 0 && number[0] == '+' { number.skip(1) } else { number };
            assert forall|i: int| 0 <= i < number.len() implies number[i] != '.' by {
                if number[0] != '+' {
                    assert(digits[i] == number[i]);
                } else if i > 0 {
                    assert(digits[i - 1] == number[i]);
                }
            }
            if rest.len() == 0 {
                lemma_no_dot(tail);
            } else {
                lemma_first_dot(tail, number.len() as int);
            }
            assert(before_dot(tail) =~= number);
        }
    }
}

/// What is said of a monitor that was found or loaded is what was returned of it.
pub proof fn law_found_monitors_are_what_is_returned(
    funding: OutPoint,
    place: usize,
    monitor: LoadedMonitor,
)
    ensures
        found_monitor((funding, place)) == ((funding.txid@, funding.index), place as int),
        loaded_monitor((funding, monitor)) == (
            (funding.txid@, funding.index),
            monitor_source(monitor),
        ),
{
}

/// A file holds a monitor exactly if its name stands for a funding output and its bytes can be read as
/// a monitor; and then it is the monitor of that output, from those bytes.
pub proof fn law_monitor_files(file: MonitorFile, funding: (Seq<u8>, u16), contents: Seq<u8>)
    ensures
        file_monitor(file) == Some((funding, contents)) <==> {
            &&& file.name matches Some(name)
            &&& named_outpoint(name@) == Some(funding)
            &&& file.contents matches Some(bytes)
            &&& bytes@ == contents
            &&& is_monitor_encoding(contents, usize::BITS as nat)
        },
{
}

/// An entry holds a monitor exactly if its name stands for a funding output and it could be read.
pub proof fn law_monitor_entries(entry: MonitorEntry, funding: (Seq<u8>, u16))
    ensures
        entry_outpoint(entry) == Some(funding) <==> {
            &&& entry.decodes
            &&& entry.name matches Some(name)
            &&& named_outpoint(name@) == Some(funding)
        },
{
}

/// The monitors among files are those among the first ones, and behind them those among the others; and
/// each file gives at most one.
pub proof fn law_files_are_loaded_in_order(a: Seq<MonitorFile>, b: Seq<MonitorFile>, one: MonitorFile)
    ensures
        files_loaded(a + b) == files_loaded(a) + files_loaded(b),
        files_loaded(Seq::empty()) == Seq::<((Seq<u8>, u16), Seq<u8>)>::empty(),
        file_monitor(one) is None ==> files_loaded(seq![one]).len() == 0,
        file_monitor(one) matches Some(found) ==> files_loaded(seq![one]) == seq![found],
    decreases b.len(),
{
    assert(seq![one].drop_last() =~= Seq::<MonitorFile>::empty());
    assert(files_loaded(seq![one].drop_last()).len() == 0);
    if let Some(found) = file_monitor(one) {
        assert(files_loaded(seq![one]) =~= seq![found]);
    }
    if b.len() == 0 {
        assert(a + b =~= a);
        assert(files_loaded(a) + files_loaded(b) =~= files_loaded(a));
    } else {
        law_files_are_loaded_in_order(a, b.drop_last(), one);
        assert((a + b).drop_last() =~= a + b.drop_last());
        assert(files_loaded(a + b) =~= files_loaded(a) + files_loaded(b));
    }
}

/// The monitors among entries come in the order of the entries, none of them twice.
pub proof fn law_entries_are_loaded_in_order(entries: Seq<MonitorEntry>, i: int, j: int)
    requires
        0 <= i < j < loaded_from(entries).len(),
    ensures
        0 <= loaded_from(entries)[i].1 < loaded_from(entries)[j].1 < entries.len(),
    decreases entries.len(),
{
    let before = loaded_from(entries.drop_last());
    if j < before.len() {
        law_entries_are_loaded_in_order(entries.drop_last(), i, j);
    } else {
        assert(before.contains(before[i]));
        law_all_monitors_are_loaded(entries.drop_last(), before[i].0, before[i].1);
    }
}

/// A replacement fails exactly when a step of it is not done; only of the look whether the file is
/// there, a failure or a missing file is no reason to fail, and something in the way is.
pub proof fn law_writes_fail_exactly_when_a_step_fails(
    stage: WriteStage,
    need_bk: bool,
    event: WriteEvent,
)
    requires
        stage != WriteStage::Update,
        stage != WriteStage::Fail,
    ensures
        write_step(stage, need_bk, event).0 == WriteStage::Fail <==> if stage
            == WriteStage::Inspect {
            event == WriteEvent::NotAFile
        } else {
            event != WriteEvent::Done
        },
{
}

/// A backup is kept unless the look found that there is no file; nothing else changes whether one is
/// kept, and a replacement that is over changes no more.
pub proof fn law_backups_are_kept_unless_there_was_no_file(
    stage: WriteStage,
    need_bk: bool,
    event: WriteEvent,
)
    ensures
        stage == WriteStage::Inspect && event != WriteEvent::NotAFile ==> write_step(
            stage,
            need_bk,
            event,
        ).1 == (event != WriteEvent::NotFound),
        stage != WriteStage::Inspect ==> write_step(stage, need_bk, event).1 == need_bk,
        stage == WriteStage::Update || stage == WriteStage::Fail ==> write_step(
            stage,
            need_bk,
            event,
        ) == (stage, need_bk),
{
}

/// The stage of a replacement, and whether a backup is kept, after these events.
pub open spec fn write_course(events: Seq<WriteEvent>) -> (WriteStage, bool)
    decreases events.len(),
{
    if events.len() == 0 {
        (WriteStage::CreateTmp, false)
    } else {
        let (stage, need_bk) = write_course(events.drop_last());
        write_step(stage, need_bk, events.last())
    }
}

/// As long as no step fails, a replacement goes through all its stages, in this order and leaving none
/// out, and comes to its end: with a backup, unless the look found that there is no file.
pub proof fn law_writes_go_through_all_stages(events: Seq<WriteEvent>)
    requires
        forall|i: int|
            0 <= i < events.len() ==> if i == 3 {
                #[trigger] events[i] != WriteEvent::NotAFile
            } else {
                events[i] == WriteEvent::Done
            },
    ensures
        ({
            let n = events.len() as int;
            let backup = n > 3 && events[3] != WriteEvent::NotFound;
            let stages = if backup {
                seq![
                    WriteStage::CreateTmp,
                    WriteStage::WriteTmp,
                    WriteStage::SyncTmp,
                    WriteStage::Inspect,
                    WriteStage::CopyBackup,
                    WriteStage::OpenBackup,
                    WriteStage::SyncBackup,
                    WriteStage::Rename,
                    WriteStage::OpenFile,
                    WriteStage::SyncFile,
                    WriteStage::RemoveBackup,
                    WriteStage::Update,
                ]
            } else {
                seq![
                    WriteStage::CreateTmp,
                    WriteStage::WriteTmp,
                    WriteStage::SyncTmp,
                    WriteStage::Inspect,
                    WriteStage::Rename,
                    WriteStage::OpenFile,
                    WriteStage::SyncFile,
                    WriteStage::Update,
                ]
            };
            &&& write_course(events).0 == stages[if n < stages.len() { n } else { stages.len() - 1 }]
            &&& write_course(events).1 == backup
        }),
    decreases events.len(),
{
    if events.len() > 0 {
        let before = events.drop_last();
        assert forall|i: int| 0 <= i < before.len() implies if i == 3 {
            #[trigger] before[i] != WriteEvent::NotAFile
        } else {
            before[i] == WriteEvent::Done
        } by {
            assert(before[i] == events[i]);
        }
        law_writes_go_through_all_stages(before);
        assert(events.last() == events[events.len() - 1]);
    }
}

} // verus!
