//! What a folder scan measures, stated over a model of the file system.
//!
//! [`World`] says what every path names. The laws here tie a whole scan to it:
//! a scan whose questions are answered from a world ends with the measurement
//! of the folder in that world. What such a measurement binds is
//! [`crate::tpm::binding`].

use crate::encoding;
use crate::paths;
use crate::text;
use crate::tpm::error::TpmFault;
use crate::tpm::measure;
use crate::tpm::measure::{
    ActionModel, AnswerModel, EntryModel, FileKind, RecordModel, ScanModel, Stage,
};
use crate::tpm::payload::FolderModel;
use vstd::prelude::*;

verus! {

// ---------------------------------------------------------------------------
// Worlds
// ---------------------------------------------------------------------------

/// What a path names.
pub enum Node {
    /// A directory with these names in it, in the order in which the system
    /// lists them.
    Directory(Seq<Seq<u8>>),
    /// A regular file with these contents.
    File(Seq<u8>),
    /// Something that resolves to another, canonical path, or to nothing.
    Link(Option<Seq<u8>>),
    /// A FIFO, a socket or a device.
    Other,
}

/// A file system in which everything can be read. Paths that are resolved to
/// are canonical: they name no links, see [`World::canonical`].
pub struct World {
    /// What every path names.
    pub at: spec_fn(Seq<u8>) -> Node,
}

impl Node {
    /// The kind of the node.
    pub open spec fn kind(self) -> FileKind {
        match self {
            Node::Directory(_) => FileKind::Directory,
            Node::File(_) => FileKind::File,
            Node::Link(_) => FileKind::Symlink,
            Node::Other => FileKind::Other,
        }
    }
}

impl World {
    /// The canonical path that `path` resolves to.
    pub open spec fn resolved(self, path: Seq<u8>) -> Option<Seq<u8>> {
        match (self.at)(path) {
            Node::Link(target) => target,
            _ => Some(path),
        }
    }

    /// Whether what links resolve to are no links themselves.
    pub open spec fn canonical(self) -> bool {
        forall|path: Seq<u8>|
            #![trigger (self.at)(path)]
            (self.at)(path) matches Node::Link(Some(target)) ==> !((self.at)(target) is Link)
    }

    /// What the system answers to an action of a scan.
    pub open spec fn answer(self, action: ActionModel) -> AnswerModel {
        match action {
            ActionModel::Status(path) => match self.resolved(path) {
                Some(target) => AnswerModel::Status(Ok((self.at)(target).kind())),
                None => AnswerModel::Status(Err(Seq::empty())),
            },
            ActionModel::Inspect(path) => AnswerModel::Status(Ok((self.at)(path).kind())),
            ActionModel::Canonicalize(path) => match self.resolved(path) {
                Some(target) => AnswerModel::Path(Ok(target)),
                None => AnswerModel::Path(Err(Seq::empty())),
            },
            ActionModel::List(path) => AnswerModel::Names(self.names(path)),
            ActionModel::Read(path) => AnswerModel::Contents(Ok(self.contents(path))),
            ActionModel::Finished => AnswerModel::Status(Err(Seq::empty())),
        }
    }

    /// The names in the directory `path`, as the system lists them.
    pub open spec fn names(self, path: Seq<u8>) -> Seq<Seq<u8>> {
        match (self.at)(path) {
            Node::Directory(names) => names,
            _ => Seq::empty(),
        }
    }

    /// The contents of the file that `path` resolves to.
    pub open spec fn contents(self, path: Seq<u8>) -> Seq<u8> {
        match self.resolved(path) {
            Some(target) => match (self.at)(target) {
                Node::File(contents) => contents,
                _ => Seq::empty(),
            },
            None => Seq::empty(),
        }
    }

    /// Whether a measurement of `root` covers what `path` names: a regular
    /// file, or a link that resolves to a regular file inside `root`.
    pub open spec fn measurable(self, root: Seq<u8>, path: Seq<u8>) -> bool {
        match (self.at)(path) {
            Node::File(_) => true,
            Node::Link(Some(target)) => paths::inside(root, target) && (self.at)(target) is File,
            _ => false,
        }
    }

    /// Whether the directories below `path` are nested less than `depth` deep.
    pub open spec fn shallow(self, path: Seq<u8>, depth: nat) -> bool
        decreases depth,
    {
        (self.at)(path) is Directory ==> depth > 0 && forall|i: int|
            0 <= i < self.names(path).len() ==> self.shallow(
                paths::joined(path, #[trigger] self.names(path)[i]),
                (depth - 1) as nat,
            )
    }

    /// The files at and below `path` that a measurement of `root` covers, in
    /// the order of the walk.
    pub open spec fn files_at(self, root: Seq<u8>, path: Seq<u8>, depth: nat) -> Seq<Seq<u8>>
        decreases depth, 0nat,
    {
        if (self.at)(path) is Directory {
            if depth == 0 {
                Seq::empty()
            } else {
                self.files_in(
                    root,
                    path,
                    measure::sorted_names(self.names(path)),
                    (depth - 1) as nat,
                )
            }
        } else if self.measurable(root, path) {
            seq![path]
        } else {
            Seq::empty()
        }
    }

    /// The files at and below the `names` in the directory `dir`.
    pub open spec fn files_in(
        self,
        root: Seq<u8>,
        dir: Seq<u8>,
        names: Seq<Seq<u8>>,
        depth: nat,
    ) -> Seq<Seq<u8>>
        decreases depth, names.len() + 1,
    {
        if names.len() == 0 {
            Seq::empty()
        } else {
            self.files_at(root, paths::joined(dir, names[0]), depth) + self.files_in(
                root,
                dir,
                names.drop_first(),
                depth,
            )
        }
    }

    /// What is kept of `entries` once they are read.
    pub open spec fn read(self, entries: Seq<EntryModel>) -> Seq<RecordModel> {
        Seq::new(
            entries.len(),
            |i: int| measure::record_of(entries[i].relative, self.contents(entries[i].path)),
        )
    }

    /// The relative paths and the contents of the files that a measurement of
    /// `root` covers, sorted by the raw bytes of the relative paths.
    pub open spec fn folder(self, root: Seq<u8>, depth: nat) -> Seq<(Seq<u8>, Seq<u8>)> {
        let entries = measure::reading_order(root, self.files_at(root, root, depth));
        Seq::new(
            entries.len(),
            |i: int| (entries[i].relative, self.contents(entries[i].path)),
        )
    }

    /// The measurement of the directory `root`: the files below it, sorted by
    /// the raw bytes of their relative paths, and the digest over them.
    pub open spec fn measurement(self, root: Seq<u8>, depth: nat) -> FolderModel {
        measure::folder_of(root, records_of(self.folder(root, depth)))
    }

    /// A scan after `steps` of its questions were answered from this world.
    pub open spec fn run(self, scan: ScanModel, steps: nat) -> ScanModel
        decreases steps,
    {
        if steps == 0 {
            scan
        } else {
            self.run(scan.next(self.answer(scan.action())), (steps - 1) as nat)
        }
    }
}

/// What is kept of files with the given relative paths and contents.
pub open spec fn records_of(files: Seq<(Seq<u8>, Seq<u8>)>) -> Seq<RecordModel> {
    Seq::new(files.len(), |i: int| measure::record_of(files[i].0, files[i].1))
}

// ---------------------------------------------------------------------------
// Scans
// ---------------------------------------------------------------------------

/// Running on from where a run has ended is running on.
proof fn lemma_run_adds(world: World, scan: ScanModel, a: nat, b: nat)
    ensures
        world.run(world.run(scan, a), b) == world.run(scan, a + b),
    decreases a,
{
    if a > 0 {
        lemma_run_adds(world, scan.next(world.answer(scan.action())), (a - 1) as nat, b);
    }
}

/// The names of a directory, sorted, are names of the directory.
pub(crate) proof fn lemma_sorted_names_contains(names: Seq<Seq<u8>>, name: Seq<u8>)
    ensures
        measure::sorted_names(names).contains(name) <==> names.contains(name),
    decreases names.len(),
{
    let sorted = measure::sorted_names(names);
    if names.len() > 0 {
        let rest = measure::sorted_names(names.drop_last());
        let at = measure::slot(rest, names.last());
        measure::lemma_slot_bounds(rest, names.last());
        lemma_sorted_names_contains(names.drop_last(), name);
        assert(sorted == rest.insert(at, names.last()));
        if names.contains(name) {
            if name == names.last() {
                assert(sorted[at] == name);
            } else {
                let i = choose|i: int| 0 <= i < names.len() && names[i] == name;
                assert(names.drop_last()[i] == name);
                let j = choose|j: int| 0 <= j < rest.len() && rest[j] == name;
                if j < at {
                    assert(sorted[j] == name);
                } else {
                    assert(sorted[j + 1] == name);
                }
            }
        }
        if sorted.contains(name) {
            let j = choose|j: int| 0 <= j < sorted.len() && sorted[j] == name;
            if j == at {
                assert(names[names.len() - 1] == name);
            } else {
                if j < at {
                    assert(rest[j] == name);
                } else {
                    assert(rest[j - 1] == name);
                }
                let i = choose|i: int|
                    0 <= i < names.drop_last().len() && names.drop_last()[i] == name;
                assert(names[i] == name);
            }
        }
    }
}

/// The entries that a list of names in `dir` becomes, the first one last.
spec fn upcoming(dir: Seq<u8>, names: Seq<Seq<u8>>) -> Seq<Seq<u8>> {
    Seq::new(names.len(), |i: int| paths::joined(dir, names[names.len() - 1 - i]))
}

/// A scan that has looked at an entry, and at everything below it.
spec fn past(
    scan: ScanModel,
    pending: Seq<Seq<u8>>,
    found: Seq<Seq<u8>>,
    scratch: (Seq<u8>, Seq<u8>),
) -> ScanModel {
    ScanModel {
        pending,
        files: scan.files + found,
        current: scratch.0,
        target: scratch.1,
        ..scan
    }.advanced()
}

/// A scan that looks at an entry comes to the next one with the files at and
/// below the entry found. Returns the number of steps and what is left in the
/// scan's two work fields.
proof fn lemma_entry(world: World, scan: ScanModel, depth: nat) -> (r: (
    nat,
    (Seq<u8>, Seq<u8>),
))
    requires
        world.canonical(),
        scan.stage == Stage::Inspect,
        world.shallow(scan.current, depth),
    ensures
        world.run(scan, r.0) == past(
            scan,
            scan.pending,
            world.files_at(scan.root, scan.current, depth),
            r.1,
        ),
    decreases depth, 0nat,
{
    let path = scan.current;
    let found = world.files_at(scan.root, path, depth);
    let second = scan.next(world.answer(scan.action()));
    reveal_with_fuel(World::run, 4);
    match (world.at)(path) {
        Node::File(_) => {
            assert(found == seq![path]);
            assert(scan.files.push(path) == scan.files + found);
            assert(scan.taken() == (ScanModel { files: scan.files + found, ..scan }));
            assert(world.run(scan, 1) == second);
            (1, (scan.current, scan.target))
        },
        Node::Other => {
            assert(scan.files + found == scan.files);
            assert(world.run(scan, 1) == second);
            (1, (scan.current, scan.target))
        },
        Node::Link(resolved) => {
            let third = second.next(world.answer(second.action()));
            assert(second == (ScanModel { stage: Stage::Follow, ..scan }));
            if resolved is Some && paths::inside(scan.root, resolved->0) {
                let target = resolved->0;
                assert(third == (ScanModel { stage: Stage::Target, target, ..second }));
                let fourth = third.next(world.answer(third.action()));
                assert(world.run(scan, 3) == fourth);
                assert(!((world.at)(target) is Link));
                if (world.at)(target) is File {
                    assert(found == seq![path]);
                    assert(scan.files.push(path) == scan.files + found);
                } else {
                    assert(scan.files + found == scan.files);
                }
                (3, (scan.current, target))
            } else {
                assert(scan.files + found == scan.files);
                assert(world.run(scan, 2) == third);
                (2, (scan.current, scan.target))
            }
        },
        Node::Directory(names) => {
            let sorted = measure::sorted_names(names);
            let listing = second;
            assert(listing == (ScanModel { stage: Stage::List, ..scan }));
            let third = listing.next(world.answer(listing.action()));
            assert(third == listing.listed(names).advanced());
            assert(world.run(scan, 2) == third);
            assert(listing.listed(names).pending == scan.pending + upcoming(path, sorted));
            assert forall|i: int| 0 <= i < sorted.len() implies world.shallow(
                paths::joined(path, #[trigger] sorted[i]),
                (depth - 1) as nat,
            ) by {
                lemma_sorted_names_contains(names, sorted[i]);
                let j = choose|j: int| 0 <= j < names.len() && names[j] == sorted[i];
                assert(world.names(path)[j] == sorted[i]);
            }
            let (steps, scratch) = lemma_entries(
                world,
                listing.listed(names),
                scan.pending,
                path,
                sorted,
                (depth - 1) as nat,
            );
            lemma_run_adds(world, scan, 2, steps);
            let end = past(listing.listed(names), scan.pending, found, scratch);
            assert(end == past(scan, scan.pending, found, scratch));
            (2 + steps, scratch)
        },
    }
}

/// A scan that is about to look at a list of entries comes behind them with
/// the files at and below them found.
proof fn lemma_entries(
    world: World,
    scan: ScanModel,
    base: Seq<Seq<u8>>,
    dir: Seq<u8>,
    names: Seq<Seq<u8>>,
    depth: nat,
) -> (r: (nat, (Seq<u8>, Seq<u8>)))
    requires
        world.canonical(),
        scan.pending == base + upcoming(dir, names),
        forall|i: int|
            0 <= i < names.len() ==> world.shallow(paths::joined(dir, #[trigger] names[i]), depth),
    ensures
        world.run(scan.advanced(), r.0) == past(
            scan,
            base,
            world.files_in(scan.root, dir, names, depth),
            r.1,
        ),
    decreases depth, names.len() + 1,
{
    let found = world.files_in(scan.root, dir, names, depth);
    if names.len() == 0 {
        assert(scan.pending == base);
        assert(scan.files + found == scan.files);
        (0, (scan.current, scan.target))
    } else {
        let rest = names.drop_first();
        let first = scan.advanced();
        assert(first.current == paths::joined(dir, names[0]));
        assert(first.pending == base + upcoming(dir, rest));
        let here = world.files_at(scan.root, first.current, depth);
        let (steps, scratch) = lemma_entry(world, first, depth);
        let mid = ScanModel {
            files: first.files + here,
            current: scratch.0,
            target: scratch.1,
            ..first
        };
        assert forall|i: int| 0 <= i < rest.len() implies world.shallow(
            paths::joined(dir, #[trigger] rest[i]),
            depth,
        ) by {
            assert(rest[i] == names[i + 1]);
        }
        let (more, last) = lemma_entries(world, mid, base, dir, rest, depth);
        lemma_run_adds(world, first, steps, more);
        let there = world.files_in(scan.root, dir, rest, depth);
        assert((scan.files + here) + there == scan.files + (here + there));
        assert(past(mid, base, there, last) == past(scan, base, found, last));
        (steps + more, last)
    }
}

/// A scan that reads its files ends with all of them read.
proof fn lemma_reading(world: World, scan: ScanModel) -> (steps: nat)
    requires
        scan.stage == Stage::Read,
        scan.measured.len() < scan.entries.len(),
        scan.measured == world.read(scan.entries).take(scan.measured.len() as int),
    ensures
        world.run(scan, steps) == (ScanModel {
            stage: Stage::Done,
            measured: world.read(scan.entries),
            ..scan
        }),
    decreases scan.entries.len() - scan.measured.len(),
{
    let all = world.read(scan.entries);
    let k = scan.measured.len() as int;
    let next = scan.next(world.answer(scan.action()));
    assert(next.measured == all.take(k + 1));
    reveal_with_fuel(World::run, 2);
    if k + 1 == scan.entries.len() {
        assert(all.take(k + 1) == all);
        assert(world.run(scan, 1) == next);
        1
    } else {
        let steps = lemma_reading(world, next);
        assert(world.run(scan, steps + 1) == world.run(next, steps));
        steps + 1
    }
}

/// A scan of `given` ends with the measurement of the folder that `given`
/// names: once its questions are answered from a world in which `given`
/// resolves to the directory `root`, and in which directories are nested
/// finitely deep, the scan is finished, and its measurement is the one that the
/// world determines.
pub proof fn law_scan_measures_the_folder(
    world: World,
    given: Seq<u8>,
    root: Seq<u8>,
    depth: nat,
) -> (steps: nat)
    requires
        world.canonical(),
        world.resolved(given) == Some(root),
        (world.at)(root) is Directory,
        world.shallow(root, depth),
    ensures
        world.run(measure::scan_start(given), steps).stage == Stage::Done,
        measure::folder_of(
            world.run(measure::scan_start(given), steps).root,
            world.run(measure::scan_start(given), steps).measured,
        ) == world.measurement(root, depth),
{
    let start = measure::scan_start(given);
    let names = world.names(root);
    let sorted = measure::sorted_names(names);
    let files = world.files_at(root, root, depth);
    let listing = ScanModel { stage: Stage::List, root, current: root, ..start };
    reveal_with_fuel(World::run, 4);
    let second = start.next(world.answer(start.action()));
    assert(second == (ScanModel { stage: Stage::Resolve, ..start }));
    let third = second.next(world.answer(second.action()));
    assert(third == listing);
    let fourth = listing.next(world.answer(listing.action()));
    assert(fourth == listing.listed(names).advanced());
    assert(world.run(start, 3) == fourth);
    assert(listing.listed(names).pending == Seq::<Seq<u8>>::empty() + upcoming(root, sorted));
    assert forall|i: int| 0 <= i < sorted.len() implies world.shallow(
        paths::joined(root, #[trigger] sorted[i]),
        (depth - 1) as nat,
    ) by {
        lemma_sorted_names_contains(names, sorted[i]);
        let j = choose|j: int| 0 <= j < names.len() && names[j] == sorted[i];
        assert(world.names(root)[j] == sorted[i]);
    }
    let (steps, scratch) = lemma_entries(
        world,
        listing.listed(names),
        Seq::empty(),
        root,
        sorted,
        (depth - 1) as nat,
    );
    lemma_run_adds(world, start, 3, steps);
    let walked = world.run(start, 3 + steps);
    assert(walked.files == files) by {
        assert(Seq::<Seq<u8>>::empty() + files == files);
    }
    let entries = measure::reading_order(root, files);
    assert(walked.entries == entries);
    measure::lemma_sorted_entries_len(measure::found_entries(root, files));
    assert(world.read(entries) == records_of(world.folder(root, depth)));
    if files.len() == 0 {
        assert(world.read(entries) == Seq::<RecordModel>::empty());
        assert(walked.measured == Seq::<RecordModel>::empty());
        3 + steps
    } else {
        assert(walked.measured == world.read(entries).take(0));
        let more = lemma_reading(world, walked);
        lemma_run_adds(world, start, 3 + steps, more);
        3 + steps + more
    }
}

/// A finished scan stays as it is.
proof fn lemma_finished_stays(world: World, scan: ScanModel, steps: nat)
    requires
        scan.action() is Finished,
    ensures
        world.run(scan, steps) == scan,
    decreases steps,
{
    if steps > 0 {
        lemma_finished_stays(world, scan, (steps - 1) as nat);
    }
}

/// A scan that is not given up has no error.
proof fn lemma_errors_of_a_run(world: World, scan: ScanModel, steps: nat)
    requires
        scan.stage == Stage::Failed <==> scan.error is Some,
    ensures
        world.run(scan, steps).stage == Stage::Failed <==> world.run(scan, steps).error is Some,
    decreases steps,
{
    if steps > 0 {
        lemma_errors_of_a_run(
            world,
            scan.next(world.answer(scan.action())),
            (steps - 1) as nat,
        );
    }
}

/// Whenever a scan whose questions are answered from a world is finished, it
/// has come to the measurement that the world determines.
pub proof fn law_finished_scans_measure_the_folder(
    world: World,
    given: Seq<u8>,
    root: Seq<u8>,
    depth: nat,
    steps: nat,
)
    requires
        world.canonical(),
        world.resolved(given) == Some(root),
        (world.at)(root) is Directory,
        world.shallow(root, depth),
        world.run(measure::scan_start(given), steps).action() is Finished,
    ensures
        world.run(measure::scan_start(given), steps).outcome() == Ok::<FolderModel, TpmFault>(
            world.measurement(root, depth),
        ),
{
    let start = measure::scan_start(given);
    let enough = law_scan_measures_the_folder(world, given, root, depth);
    if steps <= enough {
        lemma_run_adds(world, start, steps, (enough - steps) as nat);
        lemma_finished_stays(world, world.run(start, steps), (enough - steps) as nat);
    } else {
        lemma_run_adds(world, start, enough, (steps - enough) as nat);
        lemma_finished_stays(world, world.run(start, enough), (steps - enough) as nat);
    }
    lemma_errors_of_a_run(world, start, enough);
}

/// Whatever a scan is answered, it fails for internal reasons only: never by a
/// mistake of the client, and never for want of a backend.
pub proof fn law_scan_failures_are_internal(root: Seq<u8>, history: Seq<AnswerModel>)
    requires
        measure::scan_possible(measure::scan_start(root), history),
    ensures
        measure::scan_after(measure::scan_start(root), history).stage == Stage::Failed <==> measure::scan_after(
            measure::scan_start(root),
            history,
        ).error is Some,
        measure::scan_after(measure::scan_start(root), history).error matches Some(e) ==> e is Internal,
    decreases history.len(),
{
    if history.len() > 0 {
        law_scan_failures_are_internal(root, history.drop_last());
    }
}

// ---------------------------------------------------------------------------
// Order
// ---------------------------------------------------------------------------

/// Whether `keys` are in the order of their raw bytes.
pub open spec fn in_byte_order(keys: Seq<Seq<u8>>) -> bool {
    forall|i: int, j: int|
        0 <= i < j < keys.len() ==> !paths::bytes_before(#[trigger] keys[j], #[trigger] keys[i])
}

/// "Does not come after" is transitive.
proof fn lemma_not_after(a: Seq<u8>, b: Seq<u8>, c: Seq<u8>)
    requires
        !paths::bytes_before(b, a),
        !paths::bytes_before(c, b),
    ensures
        !paths::bytes_before(c, a),
{
    paths::law_byte_order_is_total(a, b);
    paths::law_byte_order_is_total(b, c);
    if paths::bytes_before(c, a) {
        if a == b {
        } else if b == c {
        } else {
            paths::law_byte_order_is_transitive(c, a, b);
        }
    }
}

/// A key put into its slot leaves the keys in order.
proof fn lemma_slot_keeps_order(keys: Seq<Seq<u8>>, key: Seq<u8>)
    requires
        in_byte_order(keys),
    ensures
        0 <= measure::slot(keys, key) <= keys.len(),
        in_byte_order(keys.insert(measure::slot(keys, key), key)),
{
    let at = measure::slot(keys, key);
    lemma_slot_splits(keys, key);
    let all = keys.insert(at, key);
    assert forall|i: int, j: int| 0 <= i < j < all.len() implies !paths::bytes_before(
        #[trigger] all[j],
        #[trigger] all[i],
    ) by {
        let a = if i < at {
            keys[i]
        } else if i == at {
            key
        } else {
            keys[i - 1]
        };
        let b = if j < at {
            keys[j]
        } else if j == at {
            key
        } else {
            keys[j - 1]
        };
        assert(all[i] == a && all[j] == b);
        if i == at {
            paths::law_byte_order_is_total(key, b);
        }
    }
}

/// What stands before the slot of a key does not come after the key, and the
/// key comes before what stands behind it.
proof fn lemma_slot_splits(keys: Seq<Seq<u8>>, key: Seq<u8>)
    requires
        in_byte_order(keys),
    ensures
        0 <= measure::slot(keys, key) <= keys.len(),
        forall|i: int|
            0 <= i < measure::slot(keys, key) ==> !paths::bytes_before(key, #[trigger] keys[i]),
        forall|i: int|
            measure::slot(keys, key) <= i < keys.len() ==> paths::bytes_before(
                key,
                #[trigger] keys[i],
            ),
    decreases keys.len(),
{
    if keys.len() > 0 {
        if paths::bytes_before(key, keys.last()) {
            let rest = keys.drop_last();
            assert forall|i: int, j: int| 0 <= i < j < rest.len() implies !paths::bytes_before(
                #[trigger] rest[j],
                #[trigger] rest[i],
            ) by {
                assert(rest[j] == keys[j] && rest[i] == keys[i]);
            }
            lemma_slot_splits(rest, key);
            assert forall|i: int| 0 <= i < measure::slot(keys, key) implies !paths::bytes_before(
                key,
                #[trigger] keys[i],
            ) by {
                assert(rest[i] == keys[i]);
            }
            assert forall|i: int|
                measure::slot(keys, key) <= i < keys.len() implies paths::bytes_before(
                key,
                #[trigger] keys[i],
            ) by {
                if i < rest.len() {
                    assert(rest[i] == keys[i]);
                }
            }
        } else {
            assert forall|i: int| 0 <= i < keys.len() implies !paths::bytes_before(
                key,
                #[trigger] keys[i],
            ) by {
                if i < keys.len() - 1 {
                    lemma_not_after(keys[i], keys.last(), key);
                }
            }
        }
    }
}

/// The entries of a directory are looked at in the order of their raw bytes,
/// each as often as it is listed.
pub proof fn law_names_are_sorted(names: Seq<Seq<u8>>)
    ensures
        in_byte_order(measure::sorted_names(names)),
        measure::sorted_names(names).to_multiset() == names.to_multiset(),
    decreases names.len(),
{
    broadcast use vstd::seq_lib::group_to_multiset_ensures;

    if names.len() > 0 {
        let rest = names.drop_last();
        law_names_are_sorted(rest);
        lemma_slot_keeps_order(measure::sorted_names(rest), names.last());
        vstd::seq_lib::to_multiset_insert(
            measure::sorted_names(rest),
            measure::slot(measure::sorted_names(rest), names.last()),
            names.last(),
        );
        assert(rest.push(names.last()) == names);
    } else {
        assert(names == Seq::<Seq<u8>>::empty());
    }
}

/// The measured files are sorted by the raw bytes of their relative paths, and
/// are exactly the files that were found, each as often as it was found.
pub proof fn law_files_are_sorted(entries: Seq<EntryModel>)
    ensures
        in_byte_order(measure::entry_keys(measure::sorted_entries(entries))),
        measure::sorted_entries(entries).to_multiset() == entries.to_multiset(),
    decreases entries.len(),
{
    broadcast use vstd::seq_lib::group_to_multiset_ensures;

    if entries.len() > 0 {
        let rest = entries.drop_last();
        let entry = entries.last();
        let sorted = measure::sorted_entries(rest);
        let keys = measure::entry_keys(sorted);
        let key = entry.relative;
        law_files_are_sorted(rest);
        lemma_slot_keeps_order(keys, key);
        let at = measure::slot(keys, key);
        assert(measure::entry_keys(sorted.insert(at, entry)) == keys.insert(at, key));
        vstd::seq_lib::to_multiset_insert(sorted, at, entry);
        assert(rest.push(entry) == entries);
    } else {
        assert(entries == Seq::<EntryModel>::empty());
    }
}

/// The order in which the system lists a directory makes no difference.
pub proof fn law_listing_order_is_irrelevant(a: Seq<Seq<u8>>, b: Seq<Seq<u8>>)
    requires
        a.to_multiset() == b.to_multiset(),
    ensures
        measure::sorted_names(a) == measure::sorted_names(b),
{
    law_names_are_sorted(a);
    law_names_are_sorted(b);
    let leq = |x: Seq<u8>, y: Seq<u8>| !paths::bytes_before(y, x);
    assert forall|x: Seq<u8>| #[trigger] leq(x, x) by {
        paths::law_byte_order_is_total(x, x);
    }
    assert forall|x: Seq<u8>, y: Seq<u8>|
        #[trigger] leq(x, y) && #[trigger] leq(y, x) implies x == y by {
        paths::law_byte_order_is_total(x, y);
    }
    assert forall|x: Seq<u8>, y: Seq<u8>, z: Seq<u8>|
        #[trigger] leq(x, y) && #[trigger] leq(y, z) implies leq(x, z) by {
        lemma_not_after(x, y, z);
    }
    assert forall|x: Seq<u8>, y: Seq<u8>| #[trigger] leq(x, y) || #[trigger] leq(y, x) by {
        paths::law_byte_order_is_total(x, y);
    }
    vstd::seq_lib::lemma_sorted_unique(
        measure::sorted_names(a),
        measure::sorted_names(b),
        leq,
    );
}

/// Whether two worlds differ at most in the order in which they list
/// directories.
pub open spec fn same_but_for_listing(a: World, b: World) -> bool {
    forall|path: Seq<u8>|
        #![trigger (a.at)(path)]
        #![trigger (b.at)(path)]
        match ((a.at)(path), (b.at)(path)) {
            (Node::Directory(x), Node::Directory(y)) => x.to_multiset() == y.to_multiset(),
            (x, y) => x == y,
        }
}

/// Worlds that differ in the order of listings have the same files.
proof fn lemma_same_files(a: World, b: World, root: Seq<u8>, path: Seq<u8>, depth: nat)
    requires
        same_but_for_listing(a, b),
    ensures
        a.files_at(root, path, depth) == b.files_at(root, path, depth),
    decreases depth, 0nat,
{
    if (a.at)(path) is Directory {
        if depth > 0 {
            law_listing_order_is_irrelevant(a.names(path), b.names(path));
            lemma_same_files_in(
                a,
                b,
                root,
                path,
                measure::sorted_names(a.names(path)),
                (depth - 1) as nat,
            );
        }
    } else {
        assert((a.at)(path) == (b.at)(path));
        if let Node::Link(Some(target)) = (a.at)(path) {
            assert((a.at)(target) is File <==> (b.at)(target) is File);
        }
    }
}

/// The same, for the names in a directory.
proof fn lemma_same_files_in(
    a: World,
    b: World,
    root: Seq<u8>,
    dir: Seq<u8>,
    names: Seq<Seq<u8>>,
    depth: nat,
)
    requires
        same_but_for_listing(a, b),
    ensures
        a.files_in(root, dir, names, depth) == b.files_in(root, dir, names, depth),
    decreases depth, names.len() + 1,
{
    if names.len() > 0 {
        lemma_same_files(a, b, root, paths::joined(dir, names[0]), depth);
        lemma_same_files_in(a, b, root, dir, names.drop_first(), depth);
    }
}

/// A folder has the same measurement whatever the order in which the system
/// lists it. See [`crate::tpm::binding::law_measurement_is_order_independent`]
/// for folders at different places.
pub proof fn law_measurement_ignores_listing_order(a: World, b: World, root: Seq<u8>, depth: nat)
    requires
        same_but_for_listing(a, b),
    ensures
        a.measurement(root, depth) == b.measurement(root, depth),
{
    lemma_same_files(a, b, root, root, depth);
    let entries = measure::reading_order(root, a.files_at(root, root, depth));
    assert forall|i: int| 0 <= i < entries.len() implies a.contents(entries[i].path) == b.contents(
        entries[i].path,
    ) by {
        let path = entries[i].path;
        assert((a.at)(path) is Link <==> (b.at)(path) is Link);
        if let Some(target) = a.resolved(path) {
            assert((a.at)(target) is File <==> (b.at)(target) is File);
        }
    }
    assert(a.folder(root, depth) == b.folder(root, depth));
}

// ---------------------------------------------------------------------------
// Coverage
// ---------------------------------------------------------------------------

/// Whether `path` is found by going down from `from` through listed names, at
/// most `depth` deep.
pub open spec fn reachable(world: World, from: Seq<u8>, path: Seq<u8>, depth: nat) -> bool
    decreases depth,
{
    if (world.at)(from) is Directory {
        depth > 0 && exists|i: int|
            0 <= i < world.names(from).len() && reachable(
                world,
                paths::joined(from, #[trigger] world.names(from)[i]),
                path,
                (depth - 1) as nat,
            )
    } else {
        path == from
    }
}

/// A file is measured exactly when it can be reached from the root through
/// listed names and is a regular file, or a link to a regular file inside the
/// root. Directories, FIFOs, sockets and devices, dangling links and links that
/// leave the root are skipped; nothing else is.
pub proof fn law_measured_files(world: World, root: Seq<u8>, path: Seq<u8>, depth: nat)
    ensures
        world.files_at(root, root, depth).contains(path) <==> reachable(world, root, path, depth)
            && world.measurable(root, path),
{
    lemma_covered(world, root, root, path, depth);
}

/// The same, from any path on.
pub(crate) proof fn lemma_covered(world: World, root: Seq<u8>, from: Seq<u8>, path: Seq<u8>, depth: nat)
    ensures
        world.files_at(root, from, depth).contains(path) <==> reachable(world, from, path, depth)
            && world.measurable(root, path),
    decreases depth, 0nat,
{
    if (world.at)(from) is Directory {
        if depth > 0 {
            let names = world.names(from);
            let sorted = measure::sorted_names(names);
            let below = (depth - 1) as nat;
            lemma_covered_in(world, root, from, sorted, path, below);
            if reachable(world, from, path, depth) && world.measurable(root, path) {
                let i = choose|i: int|
                    0 <= i < names.len() && reachable(
                        world,
                        paths::joined(from, #[trigger] names[i]),
                        path,
                        below,
                    );
                lemma_sorted_names_contains(names, names[i]);
                let j = choose|j: int| 0 <= j < sorted.len() && sorted[j] == names[i];
                assert(reachable(world, paths::joined(from, sorted[j]), path, below));
            }
            if world.files_at(root, from, depth).contains(path) {
                let j = choose|j: int|
                    0 <= j < sorted.len() && reachable(
                        world,
                        paths::joined(from, #[trigger] sorted[j]),
                        path,
                        below,
                    );
                lemma_sorted_names_contains(names, sorted[j]);
                let i = choose|i: int| 0 <= i < names.len() && names[i] == sorted[j];
                assert(reachable(world, paths::joined(from, world.names(from)[i]), path, below));
            }
        }
    } else if world.measurable(root, from) {
        assert(seq![from][0] == from);
    }
}

/// The same, for the names in a directory.
pub(crate) proof fn lemma_covered_in(
    world: World,
    root: Seq<u8>,
    dir: Seq<u8>,
    names: Seq<Seq<u8>>,
    path: Seq<u8>,
    depth: nat,
)
    ensures
        world.files_in(root, dir, names, depth).contains(path) <==> world.measurable(root, path)
            && exists|i: int|
            0 <= i < names.len() && reachable(
                world,
                paths::joined(dir, #[trigger] names[i]),
                path,
                depth,
            ),
    decreases depth, names.len() + 1,
{
    if names.len() > 0 {
        let rest = names.drop_first();
        let here = world.files_at(root, paths::joined(dir, names[0]), depth);
        let there = world.files_in(root, dir, rest, depth);
        lemma_covered(world, root, paths::joined(dir, names[0]), path, depth);
        lemma_covered_in(world, root, dir, rest, path, depth);
        let all = here + there;
        if all.contains(path) {
            let k = choose|k: int| 0 <= k < all.len() && all[k] == path;
            if k < here.len() {
                assert(here[k] == path);
                assert(reachable(world, paths::joined(dir, names[0]), path, depth));
            } else {
                assert(there[k - here.len()] == path);
                let i = choose|i: int|
                    0 <= i < rest.len() && reachable(
                        world,
                        paths::joined(dir, #[trigger] rest[i]),
                        path,
                        depth,
                    );
                assert(rest[i] == names[i + 1]);
            }
        }
        if world.measurable(root, path) && exists|i: int|
            0 <= i < names.len() && reachable(
                world,
                paths::joined(dir, #[trigger] names[i]),
                path,
                depth,
            ) {
            let i = choose|i: int|
                0 <= i < names.len() && reachable(
                    world,
                    paths::joined(dir, #[trigger] names[i]),
                    path,
                    depth,
                );
            if i == 0 {
                let k = choose|k: int| 0 <= k < here.len() && here[k] == path;
                assert(all[k] == path);
            } else {
                assert(rest[i - 1] == names[i]);
                let k = choose|k: int| 0 <= k < there.len() && there[k] == path;
                assert(all[here.len() + k] == path);
            }
        }
    }
}

// ---------------------------------------------------------------------------
// Names
// ---------------------------------------------------------------------------

/// Whether `name` is a single path component that does not climb.
pub open spec fn is_plain(name: Seq<u8>) -> bool {
    &&& name.len() > 0
    &&& !name.contains(paths::SEPARATOR)
    &&& name != seq![46u8, 46u8]
}

/// Whether directories list plain names only, as systems do.
pub open spec fn lists_plain_names(world: World) -> bool {
    forall|path: Seq<u8>, i: int|
        0 <= i < world.names(path).len() ==> is_plain(#[trigger] world.names(path)[i])
}

/// Whether a component `..` stands in `path` at `at`.
pub open spec fn climbs_at(path: Seq<u8>, at: int) -> bool {
    &&& 0 <= at && at + 2 <= path.len()
    &&& path[at] == 46 && path[at + 1] == 46
    &&& at == 0 || path[at - 1] == paths::SEPARATOR
    &&& at + 2 == path.len() || path[at + 2] == paths::SEPARATOR
}

/// Whether `path` is a relative path without a component `..`.
pub open spec fn stays_below(path: Seq<u8>) -> bool {
    &&& path.len() > 0
    &&& path[0] != paths::SEPARATOR
    &&& path.last() != paths::SEPARATOR
    &&& forall|at: int| !climbs_at(path, at)
}

/// A plain name stays below its directory.
proof fn lemma_plain_stays_below(name: Seq<u8>)
    requires
        is_plain(name),
    ensures
        stays_below(name),
{
    assert(name.contains(name[0]));
    assert(name.contains(name.last()));
    assert forall|at: int| !climbs_at(name, at) by {
        if climbs_at(name, at) {
            assert(at == 0) by {
                if at > 0 {
                    assert(name.contains(name[at - 1]));
                }
            }
            assert(name.len() == 2) by {
                if name.len() > 2 {
                    assert(name.contains(name[2]));
                }
            }
            assert(name == seq![46u8, 46u8]);
        }
    }
}

/// A plain name in a directory that stays below the root stays below it too.
proof fn lemma_deeper_stays_below(dir: Seq<u8>, name: Seq<u8>)
    requires
        stays_below(dir),
        is_plain(name),
    ensures
        stays_below(dir.push(paths::SEPARATOR) + name),
{
    lemma_plain_stays_below(name);
    let path = dir.push(paths::SEPARATOR) + name;
    let n = dir.len() as int;
    assert forall|at: int| !climbs_at(path, at) by {
        if climbs_at(path, at) {
            if at + 2 <= n {
                assert(path[at] == dir[at] && path[at + 1] == dir[at + 1]);
                assert(at > 0 ==> path[at - 1] == dir[at - 1]);
                assert(at + 2 < n ==> path[at + 2] == dir[at + 2]);
                assert(climbs_at(dir, at));
            } else if at + 1 == n || at == n {
                assert(path[n] == paths::SEPARATOR);
            } else {
                let k = at - n - 1;
                assert(path[at] == name[k] && path[at + 1] == name[k + 1]);
                assert(k > 0 ==> path[at - 1] == name[k - 1]);
                assert(k + 2 < name.len() ==> path[at + 2] == name[k + 2]);
                assert(climbs_at(name, k));
            }
        }
    }
}

/// Every measured file lies below the root, and its path relative to the root
/// contains no `..`: it is made of names that the walk was given. Joined to the
/// root, it is the path again.
pub proof fn law_relative_paths_do_not_climb(
    world: World,
    root: Seq<u8>,
    path: Seq<u8>,
    depth: nat,
)
    requires
        root.len() > 0,
        (world.at)(root) is Directory,
        lists_plain_names(world),
        world.files_at(root, root, depth).contains(path),
    ensures
        paths::inside(root, path),
        stays_below(paths::relative_to(root, path)),
        path == paths::joined(root, paths::relative_to(root, path)),
{
    law_measured_files(world, root, path, depth);
    let names = world.names(root);
    let i = choose|i: int|
        0 <= i < names.len() && reachable(
            world,
            paths::joined(root, #[trigger] names[i]),
            path,
            (depth - 1) as nat,
        );
    lemma_plain_stays_below(names[i]);
    lemma_reached_below(world, root, names[i], path, (depth - 1) as nat);
}

/// What is reached from a path below the root lies below the root.
proof fn lemma_reached_below(
    world: World,
    root: Seq<u8>,
    from: Seq<u8>,
    path: Seq<u8>,
    depth: nat,
)
    requires
        root.len() > 0,
        lists_plain_names(world),
        stays_below(from),
        reachable(world, paths::joined(root, from), path, depth),
    ensures
        paths::inside(root, path),
        stays_below(paths::relative_to(root, path)),
        path == paths::joined(root, paths::relative_to(root, path)),
    decreases depth,
{
    let here = paths::joined(root, from);
    if (world.at)(here) is Directory {
        let names = world.names(here);
        let i = choose|i: int|
            0 <= i < names.len() && reachable(
                world,
                paths::joined(here, #[trigger] names[i]),
                path,
                (depth - 1) as nat,
            );
        let name = names[i];
        assert(is_plain(name));
        assert(name.contains(name[0]));
        let deeper = from.push(paths::SEPARATOR) + name;
        lemma_deeper_stays_below(from, name);
        assert(here.last() == from.last());
        assert(paths::joined(here, name) == paths::joined(root, deeper));
        lemma_reached_below(world, root, deeper, path, (depth - 1) as nat);
    } else {
        paths::law_relative_undoes_join(root, from);
    }
}

// ---------------------------------------------------------------------------
// The walk
// ---------------------------------------------------------------------------

/// What a measurement of `root` covers at the path `child`: a regular file,
/// whatever its name; a link to a regular file at or below the root; or, of a
/// directory, what is covered of it. Nothing else.
pub open spec fn yields(
    world: World,
    root: Seq<u8>,
    child: Seq<u8>,
    depth: nat,
    path: Seq<u8>,
) -> bool {
    match (world.at)(child) {
        Node::File(_) => path == child,
        Node::Link(Some(target)) => path == child && paths::inside(root, target) && (world.at)(
            target,
        ) is File,
        Node::Directory(_) => world.files_at(root, child, depth).contains(path),
        _ => false,
    }
}

/// A measurement covers of a directory what its entries yield, and every entry
/// that the directory lists is looked at.
pub proof fn law_everything_listed_is_covered(
    world: World,
    root: Seq<u8>,
    dir: Seq<u8>,
    depth: nat,
    path: Seq<u8>,
)
    requires
        (world.at)(dir) is Directory,
    ensures
        (world.at)(dir) == Node::Directory(world.names(dir)),
        world.files_at(root, dir, depth + 1).contains(path) <==> exists|i: int|
            0 <= i < world.names(dir).len() && yields(
                world,
                root,
                paths::joined(dir, #[trigger] world.names(dir)[i]),
                depth,
                path,
            ),
{
    lemma_covered(world, root, dir, path, depth + 1);
    if world.files_at(root, dir, depth + 1).contains(path) {
        let i = choose|i: int|
            0 <= i < world.names(dir).len() && reachable(
                world,
                paths::joined(dir, #[trigger] world.names(dir)[i]),
                path,
                depth,
            );
        let child = paths::joined(dir, world.names(dir)[i]);
        lemma_covered(world, root, child, path, depth);
        assert(yields(world, root, child, depth, path));
    }
    if exists|i: int|
        0 <= i < world.names(dir).len() && yields(
            world,
            root,
            paths::joined(dir, #[trigger] world.names(dir)[i]),
            depth,
            path,
        ) {
        let i = choose|i: int|
            0 <= i < world.names(dir).len() && yields(
                world,
                root,
                paths::joined(dir, #[trigger] world.names(dir)[i]),
                depth,
                path,
            );
        let child = paths::joined(dir, world.names(dir)[i]);
        lemma_covered(world, root, child, path, depth);
        assert(reachable(world, child, path, depth));
    }
}

/// The contents of a file are its own, and those of a link are what it resolves
/// to.
pub proof fn law_contents_are_those_of_the_file(world: World, path: Seq<u8>, contents: Seq<u8>)
    ensures
        (world.at)(path) == Node::File(contents) ==> world.contents(path) == contents,
        (world.at)(path) matches Node::Link(Some(target)) ==> (world.at)(target) == Node::File(
            contents,
        ) ==> world.contents(path) == contents,
{
}

/// How a system answers the questions of a scan: it says what a path names, with
/// links followed where that is asked, resolves links, lists what a directory
/// has, and gives the contents of a file.
pub proof fn law_systems_answer_truthfully(world: World, path: Seq<u8>)
    ensures
        ({
            let node = (world.at)(path);
            let kind = match node {
                Node::Directory(_) => FileKind::Directory,
                Node::File(_) => FileKind::File,
                Node::Link(_) => FileKind::Symlink,
                Node::Other => FileKind::Other,
            };
            &&& world.answer(ActionModel::Inspect(path)) == AnswerModel::Status(Ok(kind))
            &&& !(node is Link) ==> world.answer(ActionModel::Status(path)) == AnswerModel::Status(
                Ok(kind),
            )
            &&& !(node is Link) ==> world.answer(ActionModel::Canonicalize(path))
                == AnswerModel::Path(Ok(path))
            &&& node matches Node::Link(Some(target)) ==> world.answer(
                ActionModel::Canonicalize(path),
            ) == AnswerModel::Path(Ok(target)) && world.answer(ActionModel::Status(path))
                == AnswerModel::Status(Ok((world.at)(target).kind()))
            &&& node matches Node::Link(None) ==> (world.answer(
                ActionModel::Canonicalize(path),
            ) matches AnswerModel::Path(Err(_)))
            &&& node matches Node::Directory(names) ==> world.answer(ActionModel::List(path))
                == AnswerModel::Names(names)
            &&& node matches Node::File(contents) ==> world.answer(ActionModel::Read(path))
                == AnswerModel::Contents(Ok(contents))
            &&& node matches Node::Link(Some(target)) ==> ((world.at)(target) matches Node::File(
                contents,
            ) ==> world.answer(ActionModel::Read(path)) == AnswerModel::Contents(Ok(contents)))
        }),
{
}

/// What cannot be read is an error, never passed over: the root, a directory, an
/// entry of a directory or a file. The error gives the path and the reason. A
/// root that is no directory is an error too.
pub proof fn law_what_cannot_be_read_is_an_error(scan: ScanModel, answer: AnswerModel)
    requires
        scan.awaits(answer),
        scan.stage != Stage::Follow,
        scan.stage != Stage::Target,
    ensures
        ({
            let reason = match answer {
                AnswerModel::Status(Err(reason)) => Some(reason),
                AnswerModel::Path(Err(reason)) => Some(reason),
                AnswerModel::NotListed(reason) => Some(reason),
                AnswerModel::EntryNotListed(reason) => Some(reason),
                AnswerModel::Contents(Err(reason)) => Some(reason),
                _ => None,
            };
            let path = match scan.action() {
                ActionModel::Status(path) => path,
                ActionModel::Inspect(path) => path,
                ActionModel::Canonicalize(path) => path,
                ActionModel::List(path) => path,
                ActionModel::Read(path) => path,
                ActionModel::Finished => scan.root,
            };
            let next = scan.next(answer);
            &&& reason matches Some(reason) ==> {
                &&& next.stage == Stage::Failed
                &&& next.outcome() matches Err(TpmFault::Internal(why))
                &&& text::has_text(why, encoding::lossy_text(path))
                &&& text::has_text(why, reason)
            }
            &&& scan.stage == Stage::Root && (answer matches AnswerModel::Status(Ok(kind)) && kind
                != FileKind::Directory) ==> {
                &&& next.stage == Stage::Failed
                &&& next.outcome() matches Err(TpmFault::Internal(why))
                &&& text::has_text(why, encoding::lossy_text(path))
            }
            &&& reason is None && scan.error is None && scan.stage != Stage::Root ==> next.error
                is None
        }),
{
    let path = match scan.action() {
        ActionModel::Status(path) => path,
        ActionModel::Inspect(path) => path,
        ActionModel::Canonicalize(path) => path,
        ActionModel::List(path) => path,
        ActionModel::Read(path) => path,
        ActionModel::Finished => scan.root,
    };
    let shown = encoding::lossy_text(path);
    let none = Seq::<char>::empty();
    let next = scan.next(answer);
    if let Some(TpmFault::Internal(why)) = next.error {
        text::law_occurrence_is_being_part(why, shown);
        let (before, middle, reason) = match (scan.stage, answer) {
            (Stage::Root, AnswerModel::Status(Err(reason))) => (
                "measured directory "@,
                " cannot be read: "@,
                reason,
            ),
            (Stage::Resolve, AnswerModel::Path(Err(reason))) => (
                "measured directory "@,
                " cannot be resolved: "@,
                reason,
            ),
            (Stage::List, AnswerModel::NotListed(reason)) => (
                "directory "@,
                " cannot be read: "@,
                reason,
            ),
            (Stage::List, AnswerModel::EntryNotListed(reason)) => (
                "directory entry below "@,
                " cannot be read: "@,
                reason,
            ),
            (Stage::Inspect, AnswerModel::Status(Err(reason))) => (
                "metadata of "@,
                " cannot be read: "@,
                reason,
            ),
            (Stage::Read, AnswerModel::Contents(Err(reason))) => (
                "measured file "@,
                " cannot be read: "@,
                reason,
            ),
            _ => ("measured path "@, " is not a directory"@, none),
        };
        text::law_occurrence_is_being_part(why, reason);
        let whole = before + shown + (middle + reason);
        assert((before + shown + middle) + reason + none =~= whole);
        assert(before + shown + middle =~= before + shown + (middle + none));
    }
}

/// A link is looked at where it leads: it is measured when it resolves to a
/// regular file at or below the root. One that leads nowhere, or elsewhere, is
/// passed over and is no error.
pub proof fn law_links_are_followed_inside_the_root(scan: ScanModel, target: Seq<u8>)
    requires
        scan.stage == Stage::Follow,
    ensures
        ({
            let resolved = scan.next(AnswerModel::Path(Ok(target)));
            if paths::inside(scan.root, target) {
                &&& resolved.action() == ActionModel::Status(target)
                &&& resolved.next(AnswerModel::Status(Ok(FileKind::File))).files
                    == scan.files.push(scan.current)
                &&& resolved.next(AnswerModel::Status(Ok(FileKind::Directory))).files == scan.files
                &&& resolved.next(AnswerModel::Status(Ok(FileKind::Other))).files == scan.files
                &&& resolved.next(AnswerModel::Status(Ok(FileKind::Symlink))).files == scan.files
                &&& forall|reason: Seq<char>| {
                    let passed = #[trigger] resolved.next(AnswerModel::Status(Err(reason)));
                    passed.files == scan.files && passed.error == scan.error
                }
            } else {
                resolved.files == scan.files && resolved.error == scan.error
            }
        }),
        forall|reason: Seq<char>| {
            let passed = #[trigger] scan.next(AnswerModel::Path(Err(reason)));
            passed.files == scan.files && passed.error == scan.error
        },
{
}

/// What a scan says of what it cannot read, in full.
pub proof fn law_complaints_of_a_scan(scan: ScanModel, reason: Seq<char>)
    ensures
        ({
            let root = encoding::lossy_text(scan.root);
            let here = encoding::lossy_text(scan.current);
            let status = scan.next(AnswerModel::Status(Err(reason))).error;
            let path = scan.next(AnswerModel::Path(Err(reason))).error;
            let names = scan.next(AnswerModel::NotListed(reason)).error;
            let entry = scan.next(AnswerModel::EntryNotListed(reason)).error;
            let contents = scan.next(AnswerModel::Contents(Err(reason))).error;
            &&& scan.stage == Stage::Root ==> scan.next(
                AnswerModel::Status(Ok(FileKind::File)),
            ).error == Some(
                TpmFault::Internal("measured path "@ + root + " is not a directory"@),
            )
            &&& scan.stage == Stage::Root ==> status == Some(
                TpmFault::Internal(
                    "measured directory "@ + root + (" cannot be read: "@ + reason),
                ),
            )
            &&& scan.stage == Stage::Resolve ==> path == Some(
                TpmFault::Internal(
                    "measured directory "@ + root + (" cannot be resolved: "@ + reason),
                ),
            )
            &&& scan.stage == Stage::List ==> names == Some(
                TpmFault::Internal("directory "@ + here + (" cannot be read: "@ + reason)),
            )
            &&& scan.stage == Stage::List ==> entry == Some(
                TpmFault::Internal(
                    "directory entry below "@ + here + (" cannot be read: "@ + reason),
                ),
            )
            &&& scan.stage == Stage::Inspect ==> status == Some(
                TpmFault::Internal("metadata of "@ + here + (" cannot be read: "@ + reason)),
            )
            &&& scan.stage == Stage::Read ==> contents == Some(
                TpmFault::Internal(
                    "measured file "@ + encoding::lossy_text(
                        scan.entries[scan.measured.len() as int].path,
                    ) + (" cannot be read: "@ + reason),
                ),
            )
        }),
{
}

} // verus!
