//! Folder measurement, against a file system in memory.

use std::collections::BTreeMap;

use sha2::{Digest, Sha256};

use tdx_attestation_server::tpm::{
    measure_folder, FileKind, FolderMeasurement, FolderScan, ListFault, ScanAction, ScanAnswer,
    TpmError,
};

#[derive(Clone)]
enum Node {
    Directory,
    File(Vec<u8>),
    Link(String),
    Dangling,
    Fifo,
}

/// What goes wrong at a path.
#[derive(Clone, Copy, PartialEq)]
enum Fault {
    Status,
    Canonicalize,
    List,
    Entry,
    Inspect,
    Read,
}

/// A file system in memory. Directories list their entries in reverse when
/// `reversed` is set.
#[derive(Clone, Default)]
struct Memory {
    root: Vec<u8>,
    nodes: BTreeMap<Vec<u8>, Node>,
    faults: Vec<(Vec<u8>, Fault)>,
    reversed: bool,
}

impl Memory {
    fn new() -> Self {
        Memory::at("/data")
    }

    fn at(root: &str) -> Self {
        let mut fs = Memory::default();
        fs.root = root.as_bytes().to_vec();
        fs.nodes.insert(fs.root.clone(), Node::Directory);
        fs
    }

    fn put(&mut self, relative: &[u8], node: Node) {
        let mut path = self.root.clone();
        let parts: Vec<&[u8]> = relative.split(|b| *b == b'/').collect();
        for part in &parts[..parts.len() - 1] {
            path.push(b'/');
            path.extend_from_slice(part);
            self.nodes.insert(path.clone(), Node::Directory);
        }
        path.push(b'/');
        path.extend_from_slice(parts[parts.len() - 1]);
        self.nodes.insert(path, node);
    }

    fn write(&mut self, relative: &str, contents: &[u8]) {
        self.put(relative.as_bytes(), Node::File(contents.to_vec()));
    }

    fn break_at(&mut self, path: &str, fault: Fault) {
        self.faults.push((path.as_bytes().to_vec(), fault));
    }

    fn broken(&self, path: &[u8], fault: Fault) -> bool {
        self.faults.iter().any(|(at, what)| at == path && *what == fault)
    }

    fn resolve(&self, path: &[u8]) -> Option<Vec<u8>> {
        match self.nodes.get(path) {
            Some(Node::Link(target)) => Some(target.as_bytes().to_vec()),
            Some(Node::Dangling) | None => None,
            Some(_) => Some(path.to_vec()),
        }
    }

    fn kind(&self, path: &[u8]) -> Option<FileKind> {
        self.nodes.get(path).map(|node| match node {
            Node::Directory => FileKind::Directory,
            Node::File(_) => FileKind::File,
            Node::Link(_) | Node::Dangling => FileKind::Symlink,
            Node::Fifo => FileKind::Other,
        })
    }

    fn names(&self, dir: &[u8]) -> Vec<Vec<u8>> {
        let mut prefix = dir.to_vec();
        prefix.push(b'/');
        let mut names: Vec<Vec<u8>> = self
            .nodes
            .keys()
            .filter(|path| path.starts_with(&prefix))
            .map(|path| path[prefix.len()..].to_vec())
            .filter(|name| !name.contains(&b'/'))
            .collect();
        if self.reversed {
            names.reverse();
        }
        names
    }

    fn answer(&self, action: ScanAction) -> Option<ScanAnswer> {
        let missing = || "No such file or directory".to_string();
        let broken = |path: &[u8], fault| self.broken(path, fault);
        Some(match action {
            ScanAction::Finished => return None,
            ScanAction::Status(path) => ScanAnswer::Status(if broken(&path, Fault::Status) {
                Err("broken".to_string())
            } else {
                self.resolve(&path).and_then(|target| self.kind(&target)).ok_or_else(missing)
            }),
            ScanAction::Inspect(path) => ScanAnswer::Status(if broken(&path, Fault::Inspect) {
                Err("broken".to_string())
            } else {
                self.kind(&path).ok_or_else(missing)
            }),
            ScanAction::Canonicalize(path) => {
                ScanAnswer::Path(if broken(&path, Fault::Canonicalize) {
                    Err("broken".to_string())
                } else {
                    self.resolve(&path).ok_or_else(missing)
                })
            }
            ScanAction::List(path) => ScanAnswer::Names(if broken(&path, Fault::List) {
                Err(ListFault::Directory("broken".to_string()))
            } else if broken(&path, Fault::Entry) {
                Err(ListFault::Entry("broken".to_string()))
            } else {
                Ok(self.names(&path))
            }),
            ScanAction::Read(path) => ScanAnswer::Contents(if broken(&path, Fault::Read) {
                Err("broken".to_string())
            } else {
                match self.resolve(&path).and_then(|target| self.nodes.get(&target).cloned()) {
                    Some(Node::File(contents)) => Ok(contents),
                    _ => Err(missing()),
                }
            }),
        })
    }

    fn measure_at(&self, root: &str) -> Result<FolderMeasurement, TpmError> {
        self.measure_bytes(root.as_bytes())
    }

    fn measure_bytes(&self, root: &[u8]) -> Result<FolderMeasurement, TpmError> {
        let mut scan = FolderScan::new(root);
        while let Some(answer) = self.answer(scan.action()) {
            scan.answer(answer);
        }
        assert!(scan.fits());
        measure_folder(scan)
    }

    fn measure(&self) -> Result<FolderMeasurement, TpmError> {
        self.measure_bytes(&self.root)
    }
}

fn names_of(measurement: &FolderMeasurement) -> Vec<String> {
    measurement.measurement.iter().map(|file| file.name.clone()).collect()
}

fn failure(fs: &Memory) -> String {
    match fs.measure().unwrap_err() {
        TpmError::Internal(message) => message,
        other => panic!("unexpected {other:?}"),
    }
}

/// Two consecutive measurements of an unchanged tree are identical.
#[test]
fn measurement_is_deterministic() {
    let mut dir = Memory::new();
    dir.write("a.txt", b"alpha");
    dir.write("sub/b.txt", b"bravo");

    let first = dir.measure().expect("first measurement");
    let second = dir.measure().expect("second measurement");

    assert_eq!(first.total_hash, second.total_hash);
    assert_eq!(first.measurement, second.measurement);
    assert_eq!(first.measurement.len(), 2);
    assert_eq!(first.measurement[0].name, "a.txt");
    assert_eq!(first.measurement[1].name, "sub/b.txt");
    assert_eq!(first.total_hash.len(), 64);
}

/// Changing one byte of one file changes the total digest.
#[test]
fn measurement_changes_when_a_file_changes() {
    let mut dir = Memory::new();
    dir.write("a.txt", b"alpha");
    dir.write("sub/b.txt", b"bravo");

    let before = dir.measure().expect("measurement before");
    dir.write("a.txt", b"alpha!");
    let after = dir.measure().expect("measurement after");

    assert_ne!(before.total_hash, after.total_hash);
}

/// Identical content, different creation order, identical digest.
#[test]
fn measurement_is_order_independent() {
    let mut first_dir = Memory::at("/tmp/order-a");
    first_dir.write("a.txt", b"alpha");
    first_dir.write("sub/b.txt", b"bravo");
    first_dir.write("zz/c.txt", b"charlie");

    let mut second_dir = Memory::at("/tmp/order-b");
    second_dir.reversed = true;
    second_dir.write("zz/c.txt", b"charlie");
    second_dir.write("sub/b.txt", b"bravo");
    second_dir.write("a.txt", b"alpha");

    let first = first_dir.measure().expect("first tree");
    let second = second_dir.measure().expect("second tree");

    assert_eq!(first.total_hash, second.total_hash);
    assert_eq!(first.measurement, second.measurement);
}

/// The relative path is part of the measurement: renaming a file changes it.
#[test]
fn measurement_binds_the_relative_path() {
    let mut dir = Memory::new();
    dir.write("a.txt", b"alpha");
    let before = dir.measure().expect("measurement before");

    let mut renamed = Memory::new();
    renamed.write("b.txt", b"alpha");
    let after = renamed.measure().expect("measurement after");

    assert_eq!(before.measurement[0].hash, after.measurement[0].hash);
    assert_ne!(before.total_hash, after.total_hash);
}

/// A missing directory is an error, never a panic.
#[test]
fn measurement_of_a_missing_directory_is_an_error() {
    let result = Memory::new().measure_at("/tdx-tpm-does-not-exist-4d5a1c");

    assert!(result.is_err(), "a missing directory must not measure");
    assert!(matches!(result.unwrap_err(), TpmError::Internal(_)));
}

/// A file is not a directory.
#[test]
fn measurement_of_a_file_is_an_error() {
    let mut dir = Memory::new();
    dir.write("a.txt", b"alpha");

    let result = dir.measure_at("/data/a.txt");
    assert!(matches!(result.unwrap_err(), TpmError::Internal(_)));
}

/// Empty files are measured too: deleting one changes the digest.
#[test]
fn empty_files_are_measured() {
    let mut dir = Memory::new();
    dir.write("empty.txt", b"");

    let measurement = dir.measure().expect("measurement");
    assert_eq!(measurement.measurement.len(), 1);
    assert_eq!(measurement.measurement[0].size, 0);
    assert_eq!(
        measurement.measurement[0].hash,
        hex::encode(Sha256::digest(b""))
    );
}

/// The total digest is taken over lengths, names and file digests.
#[test]
fn total_hash_follows_its_formula() {
    let mut dir = Memory::new();
    dir.write("b", b"bravo");
    dir.write("a/long name", b"alpha");

    let mut total = Sha256::new();
    for (name, contents) in [("a/long name", &b"alpha"[..]), ("b", &b"bravo"[..])] {
        total.update((name.len() as u64).to_le_bytes());
        total.update(name.as_bytes());
        total.update(Sha256::digest(contents));
    }
    let measurement = dir.measure().unwrap();
    assert_eq!(measurement.total_hash, hex::encode(total.finalize()));
    assert_eq!(measurement.directory, "/data");
    assert_eq!(measurement.hash_algorithm, "sha256");
    assert_eq!(measurement.measurement[0].size, 5);
}

/// An empty folder has a digest too.
#[test]
fn an_empty_folder_is_measured() {
    let measurement = Memory::new().measure().unwrap();
    assert!(measurement.measurement.is_empty());
    assert_eq!(measurement.total_hash, hex::encode(Sha256::digest(b"")));
}

/// Files are sorted by the raw bytes of their relative paths, not by the order
/// of the walk.
#[test]
fn files_are_sorted_by_raw_bytes() {
    let mut dir = Memory::new();
    dir.write("a/x", b"1");
    dir.write("a.txt", b"2");
    dir.write("Z", b"3");
    dir.write("\u{e9}", b"4");
    let measurement = dir.measure().unwrap();
    assert_eq!(names_of(&measurement), vec!["Z", "a.txt", "a/x", "\u{e9}"]);
}

/// Only links to regular files inside the root are followed.
#[test]
fn links_never_leave_the_root() {
    let mut dir = Memory::new();
    dir.write("real", b"contents");
    dir.put(b"inside", Node::Link("/data/real".to_string()));
    dir.put(b"outside", Node::Link("/etc/passwd".to_string()));
    dir.put(b"sibling", Node::Link("/data2/real".to_string()));
    dir.put(b"dangling", Node::Dangling);
    dir.put(b"to_dir", Node::Link("/data".to_string()));
    dir.put(b"gone", Node::Link("/data/none".to_string()));
    dir.put(b"pipe", Node::Fifo);
    dir.nodes.insert(b"/etc/passwd".to_vec(), Node::File(b"secret".to_vec()));
    dir.nodes.insert(b"/data2/real".to_vec(), Node::File(b"secret".to_vec()));

    let measurement = dir.measure().unwrap();
    assert_eq!(names_of(&measurement), vec!["inside", "real"]);
    assert_eq!(measurement.measurement[0].hash, measurement.measurement[1].hash);
}

/// A root that is a link is resolved first.
#[test]
fn the_root_is_resolved() {
    let mut dir = Memory::new();
    dir.write("a", b"1");
    dir.nodes.insert(b"/alias".to_vec(), Node::Link("/data".to_string()));
    let measurement = dir.measure_at("/alias").unwrap();
    assert_eq!(measurement.directory, "/data");
    assert_eq!(measurement, dir.measure().unwrap());
}

/// Backslashes become slashes, and bytes that are not UTF-8 are replaced.
#[test]
fn names_are_shown_as_text() {
    let mut dir = Memory::new();
    dir.put(b"a\\b", Node::File(vec![]));
    dir.put(b"bad\xff", Node::File(vec![]));
    let measurement = dir.measure().unwrap();
    assert_eq!(names_of(&measurement), vec!["a/b", "bad\u{fffd}"]);
}

/// The raw bytes of relative paths decide about order and digest, not the names
/// that are shown of them.
#[test]
fn raw_bytes_are_sorted_and_hashed() {
    let mut dir = Memory::new();
    dir.put(b"a\\c", Node::File(b"2".to_vec()));
    dir.put(b"aX", Node::File(b"1".to_vec()));
    dir.put(b"x\xff", Node::File(b"4".to_vec()));
    dir.put(b"x\xfe", Node::File(b"3".to_vec()));
    dir.reversed = true;
    let measurement = dir.measure().unwrap();
    assert_eq!(names_of(&measurement), vec!["aX", "a/c", "x\u{fffd}", "x\u{fffd}"]);

    let mut total = Sha256::new();
    for (path, contents) in [
        (&b"aX"[..], b"1"),
        (&b"a\\c"[..], b"2"),
        (&b"x\xfe"[..], b"3"),
        (&b"x\xff"[..], b"4"),
    ] {
        total.update((path.len() as u64).to_le_bytes());
        total.update(path);
        total.update(Sha256::digest(contents));
    }
    assert_eq!(measurement.total_hash, hex::encode(total.finalize()));
}

/// Any rename changes the digest, also one that is not seen in the shown name.
#[test]
fn every_rename_changes_the_digest() {
    let only = |path: &[u8]| {
        let mut dir = Memory::new();
        dir.put(path, Node::File(b"alpha".to_vec()));
        dir.measure().unwrap()
    };
    for (from, to) in [(&b"a\\b"[..], &b"a/b"[..]), (b"x\xff", b"x\xfe"), (b"a", b"A")] {
        let (before, after) = (only(from), only(to));
        assert_eq!(before.measurement[0].hash, after.measurement[0].hash);
        assert_ne!(before.total_hash, after.total_hash);
    }
}

/// Names and digests cannot be shifted into each other.
#[test]
fn records_are_unambiguous() {
    let hash = |files: &[(&str, &[u8])]| {
        let mut dir = Memory::new();
        for (name, contents) in files {
            dir.write(name, contents);
        }
        dir.measure().unwrap().total_hash
    };
    assert_ne!(hash(&[("ab", b"c")]), hash(&[("a", b"bc")]));
    assert_ne!(hash(&[("a", b""), ("b", b"")]), hash(&[("a", b"")]));
    assert_ne!(hash(&[("a", b"x"), ("b", b"y")]), hash(&[("a", b"y"), ("b", b"x")]));
    assert_eq!(hash(&[("a", b"x"), ("b", b"y")]), hash(&[("b", b"y"), ("a", b"x")]));
}

/// Relative paths are made of the names that the walk was given.
#[test]
fn relative_paths_never_climb() {
    let mut dir = Memory::new();
    dir.write("..a/b..", b"1");
    dir.write("sub/.../x", b"2");
    let measurement = dir.measure().unwrap();
    assert_eq!(names_of(&measurement), vec!["..a/b..", "sub/.../x"]);
    for name in names_of(&measurement) {
        assert!(name.split('/').all(|part| part != ".."));
    }
}

#[test]
fn every_failure_names_its_path() {
    let mut base = Memory::new();
    base.write("sub/f", b"1");
    let broken = |path: &str, fault: Fault| {
        let mut fs = base.clone();
        fs.break_at(path, fault);
        failure(&fs)
    };
    assert_eq!(
        broken("/data", Fault::Status),
        "measured directory /data cannot be read: broken"
    );
    assert_eq!(
        broken("/data", Fault::Canonicalize),
        "measured directory /data cannot be resolved: broken"
    );
    assert_eq!(
        broken("/data/sub", Fault::List),
        "directory /data/sub cannot be read: broken"
    );
    assert_eq!(
        broken("/data/sub", Fault::Entry),
        "directory entry below /data/sub cannot be read: broken"
    );
    assert_eq!(
        broken("/data/sub/f", Fault::Inspect),
        "metadata of /data/sub/f cannot be read: broken"
    );
    assert_eq!(
        broken("/data/sub/f", Fault::Read),
        "measured file /data/sub/f cannot be read: broken"
    );

    let mut file = Memory::new();
    file.nodes.insert(b"/data".to_vec(), Node::File(vec![]));
    assert_eq!(failure(&file), "measured path /data is not a directory");
}
