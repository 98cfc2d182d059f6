//! Folder measurement.
//!
//! The measurement of a directory is fully specified:
//!
//! * the directory is walked recursively;
//! * only regular files are measured (directories, FIFOs, sockets and devices
//!   are ignored);
//! * a symlink is followed only when it resolves to a regular file *inside* the
//!   measured root - anything pointing outside (or dangling) is skipped;
//! * every file is known by its path **relative to the measured root**, with
//!   `/` between the components;
//! * `file_hash = SHA-256(file contents)`;
//! * files are sorted by the raw bytes of their relative path
//!   (lexicographic), and
//! * `total_hash = SHA-256( for each file in order:
//!        u64_le(len(relative_path)) || relative_path || file_hash )`.
//!
//! What is sorted and hashed of a relative path are its raw bytes. The name that
//! is listed of a file is for reading: bytes that are not UTF-8 are replaced in
//! it, and backslashes are shown as slashes.
//!
//! [`FolderScan`] asks for one file system operation at a time and is told its
//! outcome; [`measure_folder`] takes the measurement out of a finished scan.
//! That a scan measures what the list above says is
//! [`crate::tpm::walk::law_scan_measures_the_folder`].

use crate::encoding;
use crate::paths;
use crate::tpm::config::DEFAULT_HASH_ALGORITHM;
use crate::tpm::error::{TpmError, TpmFault};
use crate::tpm::payload;
use crate::tpm::payload::{FileModel, FolderMeasurement, FolderModel, MeasuredFile};
use vstd::prelude::*;
use vstd::utf8::*;

verus! {

// ---------------------------------------------------------------------------
// Questions and answers
// ---------------------------------------------------------------------------

/// What a path names.
#[derive(Debug, Clone, Copy, PartialEq, Eq, Structural)]
pub enum FileKind {
    Directory,
    File,
    Symlink,
    /// A FIFO, a socket or a device.
    Other,
}

/// The operation that a scan waits for.
#[derive(Debug)]
pub enum ScanAction {
    /// Say what the path names, following symlinks.
    Status(Vec<u8>),
    /// Say what the path names, not following a symlink.
    Inspect(Vec<u8>),
    /// Resolve the path to a canonical one.
    Canonicalize(Vec<u8>),
    /// List the names in the directory.
    List(Vec<u8>),
    /// Read the file.
    Read(Vec<u8>),
    /// None: the scan is finished.
    Finished,
}

/// Why a directory could not be listed.
#[derive(Debug)]
pub enum ListFault {
    /// The directory could not be opened, for the given reason.
    Directory(String),
    /// An entry could not be read, for the given reason.
    Entry(String),
}

/// The outcome of the operation that a scan waits for.
#[derive(Debug)]
pub enum ScanAnswer {
    /// Of [`ScanAction::Status`] and [`ScanAction::Inspect`].
    Status(Result<FileKind, String>),
    /// Of [`ScanAction::Canonicalize`].
    Path(Result<Vec<u8>, String>),
    /// Of [`ScanAction::List`]: the names, in any order.
    Names(Result<Vec<Vec<u8>>, ListFault>),
    /// Of [`ScanAction::Read`].
    Contents(Result<Vec<u8>, String>),
}

/// The views of a list of byte strings.
pub open spec fn byte_views(list: Seq<Vec<u8>>) -> Seq<Seq<u8>> {
    Seq::new(list.len(), |i: int| list[i]@)
}

/// The mathematical view of a [`ScanAction`].
pub enum ActionModel {
    Status(Seq<u8>),
    Inspect(Seq<u8>),
    Canonicalize(Seq<u8>),
    List(Seq<u8>),
    Read(Seq<u8>),
    Finished,
}

impl View for ScanAction {
    type V = ActionModel;

    open spec fn view(&self) -> ActionModel {
        match self {
            ScanAction::Status(path) => ActionModel::Status(path@),
            ScanAction::Inspect(path) => ActionModel::Inspect(path@),
            ScanAction::Canonicalize(path) => ActionModel::Canonicalize(path@),
            ScanAction::List(path) => ActionModel::List(path@),
            ScanAction::Read(path) => ActionModel::Read(path@),
            ScanAction::Finished => ActionModel::Finished,
        }
    }
}

/// The mathematical view of a [`ScanAnswer`]. A failure carries its reason.
pub enum AnswerModel {
    Status(Result<FileKind, Seq<char>>),
    Path(Result<Seq<u8>, Seq<char>>),
    Names(Seq<Seq<u8>>),
    NotListed(Seq<char>),
    EntryNotListed(Seq<char>),
    Contents(Result<Seq<u8>, Seq<char>>),
}

impl View for ScanAnswer {
    type V = AnswerModel;

    open spec fn view(&self) -> AnswerModel {
        match self {
            ScanAnswer::Status(Ok(kind)) => AnswerModel::Status(Ok(*kind)),
            ScanAnswer::Status(Err(reason)) => AnswerModel::Status(Err(reason@)),
            ScanAnswer::Path(Ok(path)) => AnswerModel::Path(Ok(path@)),
            ScanAnswer::Path(Err(reason)) => AnswerModel::Path(Err(reason@)),
            ScanAnswer::Names(Ok(names)) => AnswerModel::Names(byte_views(names@)),
            ScanAnswer::Names(Err(ListFault::Directory(reason))) => AnswerModel::NotListed(reason@),
            ScanAnswer::Names(Err(ListFault::Entry(reason))) => AnswerModel::EntryNotListed(
                reason@,
            ),
            ScanAnswer::Contents(Ok(contents)) => AnswerModel::Contents(Ok(contents@)),
            ScanAnswer::Contents(Err(reason)) => AnswerModel::Contents(Err(reason@)),
        }
    }
}

// ---------------------------------------------------------------------------
// Order
// ---------------------------------------------------------------------------

/// Where `key` goes in the sorted list `keys`: behind every key that it does
/// not come before.
pub open spec fn slot(keys: Seq<Seq<u8>>, key: Seq<u8>) -> int
    decreases keys.len(),
{
    if keys.len() > 0 && paths::bytes_before(key, keys.last()) {
        slot(keys.drop_last(), key)
    } else {
        keys.len() as int
    }
}

/// `names` in the order of their raw bytes.
pub open spec fn sorted_names(names: Seq<Seq<u8>>) -> Seq<Seq<u8>>
    decreases names.len(),
{
    if names.len() == 0 {
        Seq::empty()
    } else {
        let sorted = sorted_names(names.drop_last());
        sorted.insert(slot(sorted, names.last()), names.last())
    }
}

/// A file to read: its path relative to the measured root, and its path.
#[verifier::ext_equal]
pub struct EntryModel {
    pub relative: Seq<u8>,
    pub path: Seq<u8>,
}

/// The relative paths of `entries`.
pub open spec fn entry_keys(entries: Seq<EntryModel>) -> Seq<Seq<u8>> {
    Seq::new(entries.len(), |i: int| entries[i].relative)
}

/// `entries` in the order of the raw bytes of their relative paths.
pub open spec fn sorted_entries(entries: Seq<EntryModel>) -> Seq<EntryModel>
    decreases entries.len(),
{
    if entries.len() == 0 {
        Seq::empty()
    } else {
        let sorted = sorted_entries(entries.drop_last());
        let entry = entries.last();
        sorted.insert(slot(entry_keys(sorted), entry.relative), entry)
    }
}

/// A slot lies within the list.
pub proof fn lemma_slot_bounds(keys: Seq<Seq<u8>>, key: Seq<u8>)
    ensures
        0 <= slot(keys, key) <= keys.len(),
    decreases keys.len(),
{
    if keys.len() > 0 {
        lemma_slot_bounds(keys.drop_last(), key);
    }
}

/// Sorts names by their raw bytes.
fn sort_names(names: Vec<Vec<u8>>) -> (r: Vec<Vec<u8>>)
    ensures
        byte_views(r@) == sorted_names(byte_views(names@)),
{
    let mut sorted: Vec<Vec<u8>> = Vec::new();
    let ghost all = byte_views(names@);
    let mut i: usize = 0;
    assert(all.take(0) == Seq::<Seq<u8>>::empty());
    assert(byte_views(sorted@) == Seq::<Seq<u8>>::empty());
    while i < names.len()
        invariant
            i <= names@.len(),
            all == byte_views(names@),
            byte_views(sorted@) == sorted_names(all.take(i as int)),
        decreases names@.len() - i,
    {
        let name = paths::copy_bytes(names[i].as_slice());
        let ghost before = byte_views(sorted@);
        let mut at: usize = sorted.len();
        assert(before.take(at as int) == before);
        while at > 0 && paths::is_before(name.as_slice(), sorted[at - 1].as_slice())
            invariant
                at <= sorted@.len(),
                before == byte_views(sorted@),
                slot(before, name@) == slot(before.take(at as int), name@),
            ensures
                at <= sorted@.len(),
                slot(before, name@) == at,
            decreases at,
        {
            assert(before.take(at as int).last() == sorted@[at - 1]@);
            assert(before.take(at as int).drop_last() == before.take(at - 1));
            at = at - 1;
        }
        let ghost value = name@;
        sorted.insert(at, name);
        proof {
            assert(byte_views(sorted@) == before.insert(at as int, value));
            assert(all.take(i + 1).drop_last() == all.take(i as int));
            assert(all.take(i + 1).last() == value);
        }
        i = i + 1;
    }
    assert(all.take(i as int) == all);
    sorted
}

/// A file to read.
#[derive(Debug)]
struct ScanEntry {
    relative: Vec<u8>,
    path: Vec<u8>,
}

impl View for ScanEntry {
    type V = EntryModel;

    closed spec fn view(&self) -> EntryModel {
        EntryModel { relative: self.relative@, path: self.path@ }
    }
}

/// The views of a list of entries.
spec fn entry_views(entries: Seq<ScanEntry>) -> Seq<EntryModel> {
    Seq::new(entries.len(), |i: int| entries[i]@)
}

/// Puts an entry into a sorted list, behind every entry that it does not come
/// before.
fn insert_entry(sorted: &mut Vec<ScanEntry>, entry: ScanEntry)
    ensures
        entry_views(final(sorted)@) == entry_views(old(sorted)@).insert(
            slot(entry_keys(entry_views(old(sorted)@)), entry.relative@),
            entry@,
        ),
{
    let ghost before = entry_views(sorted@);
    let ghost keys = entry_keys(before);
    let ghost key = entry.relative@;
    let mut at: usize = sorted.len();
    assert(keys.take(at as int) == keys);
    while at > 0 && paths::is_before(
        entry.relative.as_slice(),
        sorted[at - 1].relative.as_slice(),
    )
        invariant
            at <= sorted@.len(),
            sorted@ == old(sorted)@,
            before == entry_views(sorted@),
            keys == entry_keys(before),
            key == entry.relative@,
            slot(keys, key) == slot(keys.take(at as int), key),
        ensures
            at <= sorted@.len(),
            slot(keys, key) == at,
            sorted@ == old(sorted)@,
        decreases at,
    {
        assert(keys.take(at as int).last() == sorted@[at - 1].relative@);
        assert(keys.take(at as int).drop_last() == keys.take(at - 1));
        at = at - 1;
    }
    let ghost value = entry@;
    sorted.insert(at, entry);
    assert(entry_views(sorted@) == before.insert(at as int, value));
}

// ---------------------------------------------------------------------------
// Names and records
// ---------------------------------------------------------------------------

/// `s` with every backslash replaced by a slash.
pub open spec fn slashed(s: Seq<char>) -> Seq<char> {
    Seq::new(
        s.len(),
        |i: int|
            if s[i] == '\\' {
                '/'
            } else {
                s[i]
            },
    )
}

/// The name that is listed of a file with the given relative path.
pub open spec fn shown_name(relative: Seq<u8>) -> Seq<char> {
    slashed(encoding::lossy_text(relative))
}

/// The files of a measurement of `root`, as they were found.
pub open spec fn found_entries(root: Seq<u8>, files: Seq<Seq<u8>>) -> Seq<EntryModel> {
    Seq::new(
        files.len(),
        |i: int| EntryModel { relative: paths::relative_to(root, files[i]), path: files[i] },
    )
}

/// The files of a measurement of `root`, in the order in which they are read.
pub open spec fn reading_order(root: Seq<u8>, files: Seq<Seq<u8>>) -> Seq<EntryModel> {
    sorted_entries(found_entries(root, files))
}

/// What is kept of a file that was read.
#[verifier::ext_equal]
pub struct RecordModel {
    /// The path relative to the measured root.
    pub relative: Seq<u8>,
    /// The SHA-256 digest of the contents.
    pub digest: Seq<u8>,
    /// The number of bytes.
    pub size: u64,
}

/// What is kept of a file with the given relative path and contents.
pub open spec fn record_of(relative: Seq<u8>, contents: Seq<u8>) -> RecordModel {
    RecordModel { relative, digest: encoding::sha256(contents), size: contents.len() as u64 }
}

/// What is listed of a file.
pub open spec fn listed_file(record: RecordModel) -> FileModel {
    FileModel {
        name: shown_name(record.relative),
        hash: encoding::hex_text(record.digest),
        size: record.size,
    }
}

/// What a file contributes to the total digest: the length of its relative
/// path, the relative path, and the digest of its contents.
pub open spec fn record_bytes(record: RecordModel) -> Seq<u8> {
    encoding::le_bytes(record.relative.len(), 8) + record.relative + record.digest
}

/// Whether a relative path has a length of 64 bits and a digest 32 bytes.
pub open spec fn is_record(record: RecordModel) -> bool {
    record.relative.len() <= u64::MAX && record.digest.len() == 32
}

/// Whether all of `records` are.
pub open spec fn all_records(records: Seq<RecordModel>) -> bool {
    forall|i: int| 0 <= i < records.len() ==> is_record(#[trigger] records[i])
}

/// What the total digest is taken over.
pub open spec fn total_bytes(records: Seq<RecordModel>) -> Seq<u8>
    decreases records.len(),
{
    if records.len() == 0 {
        Seq::empty()
    } else {
        total_bytes(records.drop_last()) + record_bytes(records.last())
    }
}

/// The measurement of the directory `root` with the given files.
pub open spec fn folder_of(root: Seq<u8>, records: Seq<RecordModel>) -> FolderModel {
    FolderModel {
        directory: encoding::lossy_text(root),
        hash_algorithm: DEFAULT_HASH_ALGORITHM@,
        measurement: Seq::new(records.len(), |i: int| listed_file(records[i])),
        total_hash: encoding::hex_text(encoding::sha256(total_bytes(records))),
    }
}

/// A file that was read.
#[derive(Debug)]
struct Record {
    relative: Vec<u8>,
    digest: Vec<u8>,
    size: u64,
}

impl View for Record {
    type V = RecordModel;

    closed spec fn view(&self) -> RecordModel {
        RecordModel { relative: self.relative@, digest: self.digest@, size: self.size }
    }
}

/// The views of a list of files that were read.
spec fn record_views(records: Seq<Record>) -> Seq<RecordModel> {
    Seq::new(records.len(), |i: int| records[i]@)
}

/// Replaces every backslash by a slash.
fn replace_backslashes(s: &str) -> (r: String)
    ensures
        r@ == slashed(s@),
{
    let mut out = String::new();
    for c in it: s.chars()
        invariant
            it.seq() == s@,
            out@ == slashed(s@).take(it.index()),
    {
        if c == '\\' {
            out.push('/');
        } else {
            out.push(c);
        }
    }
    assert(slashed(s@).take(s@.len() as int) == slashed(s@));
    out
}

// ---------------------------------------------------------------------------
// The scan
// ---------------------------------------------------------------------------

/// What a scan is doing.
#[derive(Debug, Clone, Copy, PartialEq, Eq, Structural)]
pub enum Stage {
    /// Checking that the root is a directory.
    Root,
    /// Resolving the root.
    Resolve,
    /// Listing a directory.
    List,
    /// Looking at a directory entry.
    Inspect,
    /// Resolving a symlink.
    Follow,
    /// Looking at what a symlink resolves to.
    Target,
    /// Reading the files.
    Read,
    /// Finished.
    Done,
    /// Given up.
    Failed,
}

/// The state of a scan.
#[verifier::ext_equal]
pub struct ScanModel {
    pub stage: Stage,
    /// The directory that the scan was asked to measure.
    pub given: Seq<u8>,
    /// The measured directory; canonical once it is resolved.
    pub root: Seq<u8>,
    /// The directory or directory entry that is being looked at.
    pub current: Seq<u8>,
    /// What a symlink resolves to.
    pub target: Seq<u8>,
    /// The directory entries still to look at, the next one last.
    pub pending: Seq<Seq<u8>>,
    /// The files to measure, in the order in which they were found.
    pub files: Seq<Seq<u8>>,
    /// The files to measure, in the order in which they are read.
    pub entries: Seq<EntryModel>,
    /// What has been read.
    pub measured: Seq<RecordModel>,
    /// Why the scan was given up.
    pub error: Option<TpmFault>,
}

/// A scan of the directory `given` that has not started.
pub open spec fn scan_start(given: Seq<u8>) -> ScanModel {
    ScanModel {
        stage: Stage::Root,
        given,
        root: given,
        current: Seq::empty(),
        target: Seq::empty(),
        pending: Seq::empty(),
        files: Seq::empty(),
        entries: Seq::empty(),
        measured: Seq::empty(),
        error: None,
    }
}

impl ScanModel {
    /// The operation that the scan waits for.
    pub open spec fn action(self) -> ActionModel {
        match self.stage {
            Stage::Root => ActionModel::Status(self.root),
            Stage::Resolve => ActionModel::Canonicalize(self.root),
            Stage::List => ActionModel::List(self.current),
            Stage::Inspect => ActionModel::Inspect(self.current),
            Stage::Follow => ActionModel::Canonicalize(self.current),
            Stage::Target => ActionModel::Status(self.target),
            Stage::Read => ActionModel::Read(self.entries[self.measured.len() as int].path),
            Stage::Done => ActionModel::Finished,
            Stage::Failed => ActionModel::Finished,
        }
    }

    /// Whether `answer` is the outcome of the operation that the scan waits
    /// for.
    pub open spec fn awaits(self, answer: AnswerModel) -> bool {
        match self.stage {
            Stage::Root => answer is Status,
            Stage::Resolve => answer is Path,
            Stage::List => answer is Names || answer is NotListed || answer is EntryNotListed,
            Stage::Inspect => answer is Status,
            Stage::Follow => answer is Path,
            Stage::Target => answer is Status,
            Stage::Read => answer is Contents,
            Stage::Done => false,
            Stage::Failed => false,
        }
    }

    /// The scan given up, with `before`, the path and `after` as the reason.
    pub open spec fn failed(self, before: Seq<char>, path: Seq<u8>, after: Seq<char>) -> ScanModel {
        ScanModel {
            stage: Stage::Failed,
            error: Some(TpmFault::Internal(before + encoding::lossy_text(path) + after)),
            ..self
        }
    }

    /// The scan at the next directory entry or, behind the last one, at the
    /// first file to read.
    pub open spec fn advanced(self) -> ScanModel {
        if self.pending.len() > 0 {
            ScanModel {
                stage: Stage::Inspect,
                current: self.pending.last(),
                pending: self.pending.drop_last(),
                ..self
            }
        } else {
            ScanModel {
                stage: if self.files.len() == 0 {
                    Stage::Done
                } else {
                    Stage::Read
                },
                entries: reading_order(self.root, self.files),
                ..self
            }
        }
    }

    /// The scan with the entry that is being looked at among the files.
    pub open spec fn taken(self) -> ScanModel {
        ScanModel { files: self.files.push(self.current), ..self }
    }

    /// The scan with the `names` in the current directory as the next entries,
    /// in the order of their raw bytes.
    pub open spec fn listed(self, names: Seq<Seq<u8>>) -> ScanModel {
        let sorted = sorted_names(names);
        let dir = self.current;
        ScanModel {
            pending: self.pending + Seq::new(
                sorted.len(),
                |i: int| paths::joined(dir, sorted[sorted.len() - 1 - i]),
            ),
            ..self
        }
    }

    /// The scan after an answer that it awaits.
    pub open spec fn next(self, answer: AnswerModel) -> ScanModel {
        match (self.stage, answer) {
            (Stage::Root, AnswerModel::Status(Ok(kind))) => if kind == FileKind::Directory {
                ScanModel { stage: Stage::Resolve, ..self }
            } else {
                self.failed("measured path "@, self.root, " is not a directory"@)
            },
            (Stage::Root, AnswerModel::Status(Err(reason))) => self.failed(
                "measured directory "@,
                self.root,
                " cannot be read: "@ + reason,
            ),
            (Stage::Resolve, AnswerModel::Path(Ok(path))) => ScanModel {
                stage: Stage::List,
                root: path,
                current: path,
                ..self
            },
            (Stage::Resolve, AnswerModel::Path(Err(reason))) => self.failed(
                "measured directory "@,
                self.root,
                " cannot be resolved: "@ + reason,
            ),
            (Stage::List, AnswerModel::Names(names)) => self.listed(names).advanced(),
            (Stage::List, AnswerModel::NotListed(reason)) => self.failed(
                "directory "@,
                self.current,
                " cannot be read: "@ + reason,
            ),
            (Stage::List, AnswerModel::EntryNotListed(reason)) => self.failed(
                "directory entry below "@,
                self.current,
                " cannot be read: "@ + reason,
            ),
            (Stage::Inspect, AnswerModel::Status(Ok(kind))) => match kind {
                FileKind::Directory => ScanModel { stage: Stage::List, ..self },
                FileKind::File => self.taken().advanced(),
                FileKind::Symlink => ScanModel { stage: Stage::Follow, ..self },
                FileKind::Other => self.advanced(),
            },
            (Stage::Inspect, AnswerModel::Status(Err(reason))) => self.failed(
                "metadata of "@,
                self.current,
                " cannot be read: "@ + reason,
            ),
            (Stage::Follow, AnswerModel::Path(Ok(target))) => if paths::inside(self.root, target) {
                ScanModel { stage: Stage::Target, target, ..self }
            } else {
                self.advanced()
            },
            (Stage::Follow, AnswerModel::Path(Err(_))) => self.advanced(),
            (Stage::Target, AnswerModel::Status(Ok(kind))) => if kind == FileKind::File {
                self.taken().advanced()
            } else {
                self.advanced()
            },
            (Stage::Target, AnswerModel::Status(Err(_))) => self.advanced(),
            (Stage::Read, AnswerModel::Contents(Ok(contents))) => {
                let relative = self.entries[self.measured.len() as int].relative;
                let measured = self.measured.push(record_of(relative, contents));
                ScanModel {
                    stage: if measured.len() == self.entries.len() {
                        Stage::Done
                    } else {
                        Stage::Read
                    },
                    measured,
                    ..self
                }
            },
            (Stage::Read, AnswerModel::Contents(Err(reason))) => self.failed(
                "measured file "@,
                self.entries[self.measured.len() as int].path,
                " cannot be read: "@ + reason,
            ),
            _ => self,
        }
    }

    /// The path that the scan names when it is given up now.
    pub open spec fn blamed(self) -> Seq<u8> {
        match self.stage {
            Stage::Root | Stage::Resolve => self.root,
            Stage::Read => self.entries[self.measured.len() as int].path,
            _ => self.current,
        }
    }

    /// Whether the scan has come from its start to where it is by answers that
    /// it awaited.
    pub open spec fn reached(self) -> bool {
        exists|history: Seq<AnswerModel>|
            scan_possible(scan_start(self.given), history) && self == #[trigger] scan_after(
                scan_start(self.given),
                history,
            )
    }

    /// What a finished scan comes to: the measurement, or why there is none.
    pub open spec fn outcome(self) -> Result<FolderModel, TpmFault> {
        match self.error {
            Some(e) => Err(e),
            None => Ok(folder_of(self.root, self.measured)),
        }
    }
}

/// A scan after the answers of a history, first one first.
pub open spec fn scan_after(start: ScanModel, history: Seq<AnswerModel>) -> ScanModel
    decreases history.len(),
{
    if history.len() == 0 {
        start
    } else {
        scan_after(start, history.drop_last()).next(history.last())
    }
}

/// Whether the scan awaited every answer of a history when it came.
pub open spec fn scan_possible(start: ScanModel, history: Seq<AnswerModel>) -> bool
    decreases history.len(),
{
    history.len() > 0 ==> scan_possible(start, history.drop_last()) && scan_after(
        start,
        history.drop_last(),
    ).awaits(history.last())
}

/// A scan that has not started is where it is by no answer at all.
proof fn lemma_start_is_reached(given: Seq<u8>)
    ensures
        scan_start(given).reached(),
{
    let none = Seq::<AnswerModel>::empty();
    assert(scan_start(given) == scan_after(scan_start(given), none));
}

/// A scan goes on to where one more answer takes it.
proof fn lemma_next_is_reached(scan: ScanModel, answer: AnswerModel)
    requires
        scan.reached(),
        scan.awaits(answer),
    ensures
        scan.next(answer).reached(),
        scan.next(answer).given == scan.given,
{
    let start = scan_start(scan.given);
    let history = choose|history: Seq<AnswerModel>|
        scan_possible(start, history) && scan == #[trigger] scan_after(start, history);
    let longer = history.push(answer);
    assert(longer.drop_last() == history);
    assert(scan_possible(start, longer));
    assert(scan.next(answer) == scan_after(start, longer));
}

/// A folder measurement in progress.
#[derive(Debug)]
pub struct FolderScan {
    stage: Stage,
    given: Vec<u8>,
    root: Vec<u8>,
    current: Vec<u8>,
    target: Vec<u8>,
    pending: Vec<Vec<u8>>,
    files: Vec<Vec<u8>>,
    entries: Vec<ScanEntry>,
    measured: Vec<Record>,
    error: Option<TpmError>,
}

impl View for FolderScan {
    type V = ScanModel;

    closed spec fn view(&self) -> ScanModel {
        ScanModel {
            stage: self.stage,
            given: self.given@,
            root: self.root@,
            current: self.current@,
            target: self.target@,
            pending: byte_views(self.pending@),
            files: byte_views(self.files@),
            entries: entry_views(self.entries@),
            measured: record_views(self.measured@),
            error: match self.error {
                Some(e) => Some(e@),
                None => None,
            },
        }
    }
}

/// Sorting keeps the number of entries.
pub proof fn lemma_sorted_entries_len(entries: Seq<EntryModel>)
    ensures
        sorted_entries(entries).len() == entries.len(),
    decreases entries.len(),
{
    if entries.len() > 0 {
        let sorted = sorted_entries(entries.drop_last());
        lemma_sorted_entries_len(entries.drop_last());
        lemma_slot_bounds(entry_keys(sorted), entries.last().relative);
    }
}

impl FolderScan {
    /// The invariant of a scan.
    pub closed spec fn well_formed(&self) -> bool {
        self.consistent() && self@.reached()
    }

    /// Whether the fields of a scan fit together.
    spec fn consistent(&self) -> bool {
        &&& all_records(self@.measured)
        &&& self.stage == Stage::Read ==> self.measured@.len() < self.entries@.len()
        &&& (self.stage == Stage::Failed <==> self.error is Some)
        &&& self.stage == Stage::Done || self.stage == Stage::Read || self.stage == Stage::Failed
            || self.measured@.len() == 0
    }

    /// Starts to measure the directory `root`.
    pub fn new(root: &[u8]) -> (r: Self)
        ensures
            r.well_formed(),
            r@ == scan_start(root@),
            r@.reached(),
    {
        let r = FolderScan {
            stage: Stage::Root,
            given: paths::copy_bytes(root),
            root: paths::copy_bytes(root),
            current: Vec::new(),
            target: Vec::new(),
            pending: Vec::new(),
            files: Vec::new(),
            entries: Vec::new(),
            measured: Vec::new(),
            error: None,
        };
        assert(r@ =~= scan_start(root@));
        proof {
            lemma_start_is_reached(root@);
        }
        r
    }

    /// The operation that the scan waits for.
    pub fn action(&self) -> (r: ScanAction)
        requires
            self.well_formed(),
        ensures
            r@ == self@.action(),
    {
        match self.stage {
            Stage::Root => ScanAction::Status(paths::copy_bytes(self.root.as_slice())),
            Stage::Resolve => ScanAction::Canonicalize(paths::copy_bytes(self.root.as_slice())),
            Stage::List => ScanAction::List(paths::copy_bytes(self.current.as_slice())),
            Stage::Inspect => ScanAction::Inspect(paths::copy_bytes(self.current.as_slice())),
            Stage::Follow => ScanAction::Canonicalize(paths::copy_bytes(self.current.as_slice())),
            Stage::Target => ScanAction::Status(paths::copy_bytes(self.target.as_slice())),
            Stage::Read => {
                let entry = &self.entries[self.measured.len()];
                ScanAction::Read(paths::copy_bytes(entry.path.as_slice()))
            },
            Stage::Done => ScanAction::Finished,
            Stage::Failed => ScanAction::Finished,
        }
    }

    /// Gives the scan up, with `before`, the path and `after` as the reason.
    fn fail(&mut self, before: &str, path: Vec<u8>, after: &str, reason: &str)
        requires
            old(self).consistent(),
            old(self)@.stage != Stage::Done,
        ensures
            final(self).consistent(),
            final(self)@ == old(self)@.failed(before@, path@, after@ + reason@),
            encoding::keeps_text(path@),
    {
        let mut message = before.to_string();
        message.append(encoding::lossy_string(path.as_slice()).as_str());
        message.append(after);
        message.append(reason);
        assert(message@ == before@ + encoding::lossy_text(path@) + (after@ + reason@));
        self.stage = Stage::Failed;
        self.error = Some(TpmError::Internal(message));
    }

    /// Orders the files that were found by the raw bytes of their relative paths.
    fn order_files(&mut self)
        requires
            old(self).consistent(),
        ensures
            final(self)@ == (ScanModel {
                entries: reading_order(old(self)@.root, old(self)@.files),
                ..old(self)@
            }),
            final(self).error == old(self).error,
    {
        let ghost given = found_entries(self@.root, self@.files);
        let mut sorted: Vec<ScanEntry> = Vec::new();
        let mut i: usize = 0;
        assert(given.take(0) == Seq::<EntryModel>::empty());
        assert(entry_views(sorted@) == Seq::<EntryModel>::empty());
        while i < self.files.len()
            invariant
                i <= self.files@.len() == given.len(),
                *self == *old(self),
                given == found_entries(self@.root, self@.files),
                entry_views(sorted@) == sorted_entries(given.take(i as int)),
            decreases self.files@.len() - i,
        {
            let path = paths::copy_bytes(self.files[i].as_slice());
            let relative = paths::relative(self.root.as_slice(), path.as_slice());
            let entry = ScanEntry { relative, path };
            assert(entry@ == given[i as int]);
            assert(given.take(i + 1).drop_last() == given.take(i as int));
            assert(given.take(i + 1).last() == given[i as int]);
            insert_entry(&mut sorted, entry);
            i = i + 1;
        }
        assert(given.take(i as int) == given);
        self.entries = sorted;
        assert(self@ =~= (ScanModel {
            entries: reading_order(old(self)@.root, old(self)@.files),
            ..old(self)@
        }));
    }

    /// Goes on with the next directory entry or, behind the last one, with the
    /// files.
    fn advance(&mut self)
        requires
            old(self).consistent(),
            old(self).measured@.len() == 0,
            old(self).error is None,
        ensures
            final(self).consistent(),
            final(self)@ == old(self)@.advanced(),
    {
        match self.pending.pop() {
            Some(path) => {
                self.current = path;
                self.stage = Stage::Inspect;
                assert(self@.pending =~= old(self)@.pending.drop_last());
            },
            None => {
                self.order_files();
                proof {
                    lemma_sorted_entries_len(found_entries(old(self)@.root, old(self)@.files));
                    assert(self.entries@.len() == self@.entries.len());
                    assert(self.files@.len() == self@.files.len());
                    assert(self.measured@.len() == self@.measured.len());
                }
                self.stage = if self.files.len() == 0 {
                    Stage::Done
                } else {
                    Stage::Read
                };
            },
        }
    }

    /// Takes the entry that is being looked at among the files.
    fn take(&mut self)
        requires
            old(self).consistent(),
            old(self).measured@.len() == 0,
            old(self).error is None,
        ensures
            final(self).consistent(),
            final(self).measured@.len() == 0,
            final(self).error is None,
            final(self)@ == old(self)@.taken(),
    {
        let path = paths::copy_bytes(self.current.as_slice());
        self.files.push(path);
        assert(self@ =~= old(self)@.taken());
    }

    /// Makes the names in the current directory the next entries.
    fn list(&mut self, names: Vec<Vec<u8>>)
        requires
            old(self).consistent(),
            old(self).measured@.len() == 0,
            old(self).error is None,
        ensures
            final(self).consistent(),
            final(self).measured@.len() == 0,
            final(self).error is None,
            final(self)@ == old(self)@.listed(byte_views(names@)),
    {
        let sorted = sort_names(names);
        let n = sorted.len();
        let ghost added = Seq::new(
            n as nat,
            |i: int| paths::joined(self.current@, sorted@[n - 1 - i]@),
        );
        let ghost before = byte_views(self.pending@);
        let mut i: usize = n;
        assert(before + added.take(0) == before);
        while i > 0
            invariant
                i <= n == sorted@.len(),
                added.len() == n,
                forall|j: int|
                    0 <= j < n ==> #[trigger] added[j] == paths::joined(
                        self.current@,
                        sorted@[n - 1 - j]@,
                    ),
                byte_views(self.pending@) == before + added.take(n - i),
                *self == (FolderScan { pending: self.pending, ..*old(self) }),
            decreases i,
        {
            i = i - 1;
            let path = paths::join(self.current.as_slice(), sorted[i].as_slice());
            assert(path@ == added[n - 1 - i]);
            let ghost kept = self.pending@;
            self.pending.push(path);
            assert(added.take(n - i) == added.take(n - i - 1).push(path@));
            assert(byte_views(self.pending@) == byte_views(kept).push(path@));
        }
        assert(added.take(n as int) == added);
        assert(byte_views(sorted@).len() == n);
        assert(self@ =~= old(self)@.listed(byte_views(names@)));
    }

    /// Takes the contents of the file that is being read.
    fn measure(&mut self, contents: Vec<u8>)
        requires
            old(self).consistent(),
            old(self)@.stage == Stage::Read,
            contents@.len() <= encoding::SHA256_LIMIT,
        ensures
            final(self).consistent(),
            final(self)@ == old(self)@.next(AnswerModel::Contents(Ok(contents@))),
    {
        let relative = paths::copy_bytes(self.entries[self.measured.len()].relative.as_slice());
        let digest = encoding::sha256_digest(contents.as_slice());
        let record = Record { relative, digest, size: contents.len() as u64 };
        assert(record@ == record_of(relative@, contents@));
        assert(relative.len() <= u64::MAX);
        self.measured.push(record);
        assert(self@.measured == old(self)@.measured.push(record@));
        self.stage = if self.measured.len() == self.entries.len() {
            Stage::Done
        } else {
            Stage::Read
        };
        assert(self@ =~= old(self)@.next(AnswerModel::Contents(Ok(contents@))));
    }

    /// Takes the outcome of the operation that the scan waits for.
    ///
    /// The contents of a file must be within what SHA-256 can take.
    pub fn answer(&mut self, answer: ScanAnswer)
        requires
            old(self).well_formed(),
            old(self)@.awaits(answer@),
            answer matches ScanAnswer::Contents(Ok(contents)) ==> contents@.len()
                <= encoding::SHA256_LIMIT,
        ensures
            final(self).well_formed(),
            final(self)@ == old(self)@.next(answer@),
            final(self)@.given == old(self)@.given,
            final(self)@.reached(),
            final(self)@.stage == Stage::Failed ==> encoding::keeps_text(old(self)@.blamed()),
    {
        proof {
            lemma_next_is_reached(self@, answer@);
        }
        match (self.stage, answer) {
            (Stage::Root, ScanAnswer::Status(Ok(kind))) => {
                if kind == FileKind::Directory {
                    self.stage = Stage::Resolve;
                } else {
                    let root = paths::copy_bytes(self.root.as_slice());
                    self.fail("measured path ", root, " is not a directory", "");
                    assert(" is not a directory"@ + ""@ == " is not a directory"@) by {
                        reveal_strlit("");
                    }
                }
            },
            (Stage::Root, ScanAnswer::Status(Err(reason))) => {
                let root = paths::copy_bytes(self.root.as_slice());
                self.fail("measured directory ", root, " cannot be read: ", reason.as_str());
            },
            (Stage::Resolve, ScanAnswer::Path(Ok(path))) => {
                self.current = paths::copy_bytes(path.as_slice());
                self.root = path;
                self.stage = Stage::List;
            },
            (Stage::Resolve, ScanAnswer::Path(Err(reason))) => {
                let root = paths::copy_bytes(self.root.as_slice());
                self.fail("measured directory ", root, " cannot be resolved: ", reason.as_str());
            },
            (Stage::List, ScanAnswer::Names(Ok(names))) => {
                self.list(names);
                self.advance();
            },
            (Stage::List, ScanAnswer::Names(Err(ListFault::Directory(reason)))) => {
                let path = paths::copy_bytes(self.current.as_slice());
                self.fail("directory ", path, " cannot be read: ", reason.as_str());
            },
            (Stage::List, ScanAnswer::Names(Err(ListFault::Entry(reason)))) => {
                let path = paths::copy_bytes(self.current.as_slice());
                self.fail("directory entry below ", path, " cannot be read: ", reason.as_str());
            },
            (Stage::Inspect, ScanAnswer::Status(Ok(kind))) => match kind {
                FileKind::Directory => {
                    self.stage = Stage::List;
                },
                FileKind::File => {
                    self.take();
                    self.advance();
                },
                FileKind::Symlink => {
                    self.stage = Stage::Follow;
                },
                FileKind::Other => {
                    self.advance();
                },
            },
            (Stage::Inspect, ScanAnswer::Status(Err(reason))) => {
                let path = paths::copy_bytes(self.current.as_slice());
                self.fail("metadata of ", path, " cannot be read: ", reason.as_str());
            },
            (Stage::Follow, ScanAnswer::Path(Ok(target))) => {
                // Only follow a link that stays inside the measured root and
                // lands on a regular file; never let a link escape the root.
                if paths::is_inside(self.root.as_slice(), target.as_slice()) {
                    self.target = target;
                    self.stage = Stage::Target;
                } else {
                    self.advance();
                }
            },
            (Stage::Follow, ScanAnswer::Path(Err(_))) => {
                self.advance();
            },
            (Stage::Target, ScanAnswer::Status(Ok(kind))) => {
                if kind == FileKind::File {
                    self.take();
                }
                self.advance();
            },
            (Stage::Target, ScanAnswer::Status(Err(_))) => {
                self.advance();
            },
            (Stage::Read, ScanAnswer::Contents(Ok(contents))) => {
                self.measure(contents);
            },
            (Stage::Read, ScanAnswer::Contents(Err(reason))) => {
                let path = paths::copy_bytes(self.entries[self.measured.len()].path.as_slice());
                self.fail("measured file ", path, " cannot be read: ", reason.as_str());
            },
            _ => {},
        }
    }

    /// What the total digest is taken over.
    fn total_bytes(&self) -> (r: Vec<u8>)
        ensures
            r@ == total_bytes(self@.measured),
    {
        let ghost all = self@.measured;
        let mut out: Vec<u8> = Vec::new();
        let mut i: usize = 0;
        assert(all.take(0) == Seq::<RecordModel>::empty());
        while i < self.measured.len()
            invariant
                i <= self.measured@.len(),
                all == record_views(self.measured@),
                out@ == total_bytes(all.take(i as int)),
            decreases self.measured@.len() - i,
        {
            let record = &self.measured[i];
            let ghost before = out@;
            let length = encoding::u64_to_le(record.relative.len() as u64);
            paths::append_bytes(&mut out, length.as_slice());
            paths::append_bytes(&mut out, record.relative.as_slice());
            paths::append_bytes(&mut out, record.digest.as_slice());
            proof {
                assert(all.take(i + 1).drop_last() == all.take(i as int));
                assert(all.take(i + 1).last() == record@);
                assert(out@ == before + record_bytes(record@));
            }
            i = i + 1;
        }
        assert(all.take(i as int) == all);
        out
    }

    /// What is listed of the files that were read.
    fn listing(&self) -> (r: Vec<MeasuredFile>)
        requires
            self.well_formed(),
        ensures
            payload::file_views(r@) == Seq::new(
                self@.measured.len(),
                |i: int| listed_file(self@.measured[i]),
            ),
            forall|i: int|
                0 <= i < self@.measured.len() ==> encoding::keeps_text(
                    (#[trigger] self@.measured[i]).relative,
                ),
    {
        let mut out: Vec<MeasuredFile> = Vec::new();
        let mut i: usize = 0;
        while i < self.measured.len()
            invariant
                i <= self.measured@.len(),
                out@.len() == i,
                all_records(record_views(self.measured@)),
                forall|j: int|
                    0 <= j < i ==> (#[trigger] out@[j])@ == listed_file(self.measured@[j]@),
                forall|j: int|
                    0 <= j < i ==> encoding::keeps_text((#[trigger] self.measured@[j])@.relative),
            decreases self.measured@.len() - i,
        {
            let record = &self.measured[i];
            assert(is_record(record_views(self.measured@)[i as int]));
            let shown = encoding::lossy_string(record.relative.as_slice());
            out.push(
                MeasuredFile {
                    name: replace_backslashes(shown.as_str()),
                    hash: encoding::hex_encode(record.digest.as_slice()),
                    size: record.size,
                },
            );
            i = i + 1;
        }
        assert(payload::file_views(out@) =~= Seq::new(
            self@.measured.len(),
            |i: int| listed_file(self@.measured[i]),
        ));
        assert forall|i: int| 0 <= i < self@.measured.len() implies encoding::keeps_text(
            (#[trigger] self@.measured[i]).relative,
        ) by {
            assert(self@.measured[i] == self.measured@[i]@);
        }
        out
    }

    /// Whether the paths and digests that were read are within what SHA-256
    /// can take.
    pub fn fits(&self) -> (r: bool)
        requires
            self.well_formed(),
        ensures
            r == (total_bytes(self@.measured).len() <= encoding::SHA256_LIMIT),
    {
        self.total_bytes().len() as u64 <= encoding::SHA256_LIMIT
    }
}

/// What holds of the measurement that a scan comes to, beside what it is: digests
/// have 32 bytes, and a path that is UTF-8 is shown as the text that it is, but
/// for the backslashes of a name.
pub open spec fn measured_well(scan: ScanModel) -> bool {
    let folder = folder_of(scan.root, scan.measured);
    &&& all_records(scan.measured)
    &&& folder.total_hash.len() == 64
    &&& valid_utf8(scan.root) ==> folder.directory == decode_utf8(scan.root)
    &&& forall|i: int|
        0 <= i < scan.measured.len() && valid_utf8(scan.measured[i].relative)
            ==> (#[trigger] folder.measurement[i]).name == slashed(
            decode_utf8(scan.measured[i].relative),
        )
}

/// The measurement that a finished scan comes to.
///
/// # Errors
///
/// * [`TpmError::Internal`] - the root does not exist, is not a directory, or a
///   path below it could not be read.
pub fn measure_folder(scan: FolderScan) -> (r: Result<FolderMeasurement, TpmError>)
    requires
        scan.well_formed(),
        scan@.action() is Finished,
        total_bytes(scan@.measured).len() <= encoding::SHA256_LIMIT,
    ensures
        match r {
            Ok(folder) => {
                &&& scan@.stage == Stage::Done
                &&& scan@.outcome() == Ok::<FolderModel, TpmFault>(folder@)
                &&& folder@ == folder_of(scan@.root, scan@.measured)
                &&& measured_well(scan@)
            },
            Err(e) => scan@.stage == Stage::Failed && scan@.outcome() == Err::<
                FolderModel,
                TpmFault,
            >(e@),
        },
{
    let measurement = scan.listing();
    let bytes = scan.total_bytes();
    match scan.error {
        Some(e) => Err(e),
        None => {
            let total = encoding::sha256_digest(bytes.as_slice());
            let folder = FolderMeasurement {
                directory: encoding::lossy_string(scan.root.as_slice()),
                hash_algorithm: DEFAULT_HASH_ALGORITHM.to_string(),
                measurement,
                total_hash: encoding::hex_encode(total.as_slice()),
            };
            assert(folder@ =~= folder_of(scan@.root, scan@.measured));
            assert forall|i: int|
                0 <= i < scan@.measured.len() && valid_utf8(
                    scan@.measured[i].relative,
                ) implies (#[trigger] folder@.measurement[i]).name == slashed(
                decode_utf8(scan@.measured[i].relative),
            ) by {
                assert(encoding::keeps_text(scan@.measured[i].relative));
            }
            Ok(folder)
        },
    }
}

} // verus!
