//! What a folder measurement binds: which files it tells apart, and which it
//! does not.

use crate::encoding;
use crate::paths;
use crate::tpm::measure;
use crate::tpm::measure::{EntryModel, RecordModel};
use crate::tpm::walk;
use crate::tpm::walk::World;
use vstd::prelude::*;

verus! {

// ---------------------------------------------------------------------------
// Digests
// ---------------------------------------------------------------------------

/// Two different messages with the same SHA-256 digest.
pub open spec fn collides(a: Seq<u8>, b: Seq<u8>) -> bool {
    a != b && encoding::sha256(a) == encoding::sha256(b)
}

/// A record, taken apart.
proof fn lemma_record(record: RecordModel)
    requires
        measure::is_record(record),
    ensures
        measure::record_bytes(record).len() == 40 + record.relative.len(),
        measure::record_bytes(record).take(8) == encoding::le_bytes(record.relative.len(), 8),
        measure::record_bytes(record).subrange(8, 8 + record.relative.len() as int)
            == record.relative,
        measure::record_bytes(record).skip(8 + record.relative.len() as int) == record.digest,
{
    encoding::law_le_round_trip(record.relative.len());
}

/// Records can be taken apart from the front.
proof fn lemma_records_front(records: Seq<RecordModel>)
    requires
        records.len() > 0,
    ensures
        measure::total_bytes(records) == measure::record_bytes(records[0]) + measure::total_bytes(
            records.drop_first(),
        ),
    decreases records.len(),
{
    if records.len() == 1 {
        assert(records.drop_last() == Seq::<RecordModel>::empty());
        assert(records.drop_first() == Seq::<RecordModel>::empty());
        assert(measure::total_bytes(records.drop_last()) == Seq::<u8>::empty());
        assert(measure::total_bytes(records.drop_first()) == Seq::<u8>::empty());
        assert(Seq::<u8>::empty() + measure::record_bytes(records[0]) == measure::record_bytes(
            records[0],
        ) + Seq::<u8>::empty());
    } else {
        lemma_records_front(records.drop_last());
        assert(records.drop_last().drop_first() == records.drop_first().drop_last());
        let middle = measure::total_bytes(records.drop_first().drop_last());
        let (first, last) = (records[0], records.last());
        assert(records.drop_first().last() == last);
        assert(records.drop_last()[0] == first);
        assert((measure::record_bytes(first) + middle) + measure::record_bytes(last)
            == measure::record_bytes(first) + (middle + measure::record_bytes(last)));
    }
}

/// Records of 64 bytes in all are one record, and it does not begin with a zero.
pub(crate) proof fn lemma_two_digests_are_no_records(records: Seq<RecordModel>)
    requires
        measure::all_records(records),
        measure::total_bytes(records).len() == 64,
    ensures
        measure::total_bytes(records)[0] == 24,
{
    assert(records.len() > 0);
    let last = records.last();
    let rest = records.drop_last();
    assert(measure::is_record(records[records.len() - 1]));
    lemma_record(last);
    if rest.len() > 0 {
        assert(measure::is_record(records[rest.len() - 1]));
        lemma_record(rest.last());
        assert(measure::total_bytes(rest).len() >= 40);
    }
    assert(measure::total_bytes(rest) == Seq::<u8>::empty());
    assert(Seq::<u8>::empty() + measure::record_bytes(last) == measure::record_bytes(last));
    assert(measure::total_bytes(records) == measure::record_bytes(last));
    reveal_with_fuel(encoding::le_bytes, 2);
}

/// What the total digest is taken over determines the relative paths and the
/// digests of the files, in order.
pub proof fn law_records_are_unambiguous(a: Seq<RecordModel>, b: Seq<RecordModel>)
    requires
        measure::all_records(a),
        measure::all_records(b),
        measure::total_bytes(a) == measure::total_bytes(b),
    ensures
        a.len() == b.len(),
        forall|i: int|
            0 <= i < a.len() ==> (#[trigger] a[i]).relative == b[i].relative && a[i].digest
                == b[i].digest,
    decreases a.len(),
{
    if a.len() > 0 {
        lemma_records_front(a);
        lemma_record(a[0]);
    }
    if b.len() > 0 {
        lemma_records_front(b);
        lemma_record(b[0]);
    }
    if a.len() > 0 && b.len() > 0 {
        let whole = measure::total_bytes(a);
        let (x, y) = (measure::record_bytes(a[0]), measure::record_bytes(b[0]));
        let (n, m) = (a[0].relative, b[0].relative);
        assert(whole.take(8) == x.take(8));
        assert(whole.take(8) == y.take(8));
        encoding::law_le_round_trip(n.len());
        encoding::law_le_round_trip(m.len());
        assert(n.len() == m.len());
        let size = x.len() as int;
        assert(whole.take(size) == x);
        assert(whole.take(size) == y);
        assert(n == m);
        assert(whole.skip(size) == measure::total_bytes(a.drop_first()));
        assert(whole.skip(size) == measure::total_bytes(b.drop_first()));
        assert forall|i: int| 0 <= i < a.drop_first().len() implies measure::is_record(
            #[trigger] a.drop_first()[i],
        ) by {
            assert(a.drop_first()[i] == a[i + 1]);
        }
        assert forall|i: int| 0 <= i < b.drop_first().len() implies measure::is_record(
            #[trigger] b.drop_first()[i],
        ) by {
            assert(b.drop_first()[i] == b[i + 1]);
        }
        law_records_are_unambiguous(a.drop_first(), b.drop_first());
        assert forall|i: int| 0 <= i < a.len() implies (#[trigger] a[i]).relative == b[i].relative
            && a[i].digest == b[i].digest by {
            if i > 0 {
                assert(a.drop_first()[i - 1] == a[i]);
                assert(b.drop_first()[i - 1] == b[i]);
            }
        }
    }
}

/// The total digest binds the relative path and the contents of every file: two
/// lists of files with the same total digest are the same, unless the two
/// messages that the totals are taken over collide under SHA-256, or the
/// contents of two files at the same place do.
pub proof fn law_total_hash_binds_paths_and_contents(
    a: Seq<(Seq<u8>, Seq<u8>)>,
    b: Seq<(Seq<u8>, Seq<u8>)>,
    root_a: Seq<u8>,
    root_b: Seq<u8>,
)
    requires
        measure::all_records(walk::records_of(a)),
        measure::all_records(walk::records_of(b)),
        measure::folder_of(root_a, walk::records_of(a)).total_hash == measure::folder_of(
            root_b,
            walk::records_of(b),
        ).total_hash,
    ensures
        a == b || collides(
            measure::total_bytes(walk::records_of(a)),
            measure::total_bytes(walk::records_of(b)),
        ) || exists|i: int|
            0 <= i < a.len() && i < b.len() && #[trigger] collides(a[i].1, b[i].1),
{
    let (x, y) = (
        measure::total_bytes(walk::records_of(a)),
        measure::total_bytes(walk::records_of(b)),
    );
    encoding::law_hex_round_trip(encoding::sha256(x));
    encoding::law_hex_round_trip(encoding::sha256(y));
    if x == y {
        law_records_are_unambiguous(walk::records_of(a), walk::records_of(b));
        assert(a.len() == b.len());
        if a != b {
            assert(exists|i: int| 0 <= i < a.len() && a[i] != b[i]) by {
                if forall|i: int| 0 <= i < a.len() ==> a[i] == b[i] {
                    assert(a == b);
                }
            }
            let i = choose|i: int| 0 <= i < a.len() && a[i] != b[i];
            assert(walk::records_of(a)[i].relative == walk::records_of(b)[i].relative);
            assert(walk::records_of(a)[i].digest == walk::records_of(b)[i].digest);
            assert(collides(a[i].1, b[i].1));
        }
    }
}

/// Whether a measurement of `root` covers a file with the given relative path
/// and contents.
pub open spec fn has_file(
    world: World,
    root: Seq<u8>,
    depth: nat,
    relative: Seq<u8>,
    contents: Seq<u8>,
) -> bool {
    exists|path: Seq<u8>| #[trigger]
        world.files_at(root, root, depth).contains(path) && paths::relative_to(root, path)
            == relative && world.contents(path) == contents
}

/// A folder consists of the files that its measurement covers.
pub proof fn law_folder_consists_of_its_files(
    world: World,
    root: Seq<u8>,
    depth: nat,
    relative: Seq<u8>,
    contents: Seq<u8>,
)
    ensures
        world.folder(root, depth).contains((relative, contents)) <==> has_file(
            world,
            root,
            depth,
            relative,
            contents,
        ),
{
    let files = world.files_at(root, root, depth);
    let found = measure::found_entries(root, files);
    let sorted = measure::sorted_entries(found);
    let folder = world.folder(root, depth);
    walk::law_files_are_sorted(found);
    if folder.contains((relative, contents)) {
        let i = choose|i: int| 0 <= i < folder.len() && folder[i] == (relative, contents);
        let entry = sorted[i];
        assert(sorted.contains(entry));
        lemma_same_elements(sorted, found, entry);
        let j = choose|j: int| 0 <= j < found.len() && found[j] == entry;
        assert(files.contains(files[j]));
    }
    if has_file(world, root, depth, relative, contents) {
        let path = choose|path: Seq<u8>| #[trigger]
            files.contains(path) && paths::relative_to(root, path) == relative && world.contents(
                path,
            ) == contents;
        let j = choose|j: int| 0 <= j < files.len() && files[j] == path;
        let entry = found[j];
        assert(found.contains(entry));
        lemma_same_elements(found, sorted, entry);
        let i = choose|i: int| 0 <= i < sorted.len() && sorted[i] == entry;
        assert(folder[i] == (relative, contents));
    }
}

/// Lists that are permutations of each other have the same elements.
proof fn lemma_same_elements(a: Seq<EntryModel>, b: Seq<EntryModel>, entry: EntryModel)
    requires
        a.to_multiset() == b.to_multiset(),
        a.contains(entry),
    ensures
        b.contains(entry),
{
    broadcast use vstd::seq_lib::group_to_multiset_ensures;

    assert(a.to_multiset().count(entry) > 0);
}

/// The folder digest binds the files of a folder: two folders with the same
/// total digest have the same files, with the same contents, under the same
/// relative paths, unless one of the named pairs collides under SHA-256. So
/// changing a byte of a measured file, renaming, adding or removing one changes
/// the digest.
pub proof fn law_folder_digest_binds_the_files(
    a: World,
    root_a: Seq<u8>,
    depth_a: nat,
    b: World,
    root_b: Seq<u8>,
    depth_b: nat,
    relative: Seq<u8>,
    contents: Seq<u8>,
)
    requires
        measure::all_records(walk::records_of(a.folder(root_a, depth_a))),
        measure::all_records(walk::records_of(b.folder(root_b, depth_b))),
        a.measurement(root_a, depth_a).total_hash == b.measurement(root_b, depth_b).total_hash,
    ensures
        ({
            let x = a.folder(root_a, depth_a);
            let y = b.folder(root_b, depth_b);
            ||| has_file(a, root_a, depth_a, relative, contents) == has_file(
                b,
                root_b,
                depth_b,
                relative,
                contents,
            )
            ||| collides(
                measure::total_bytes(walk::records_of(x)),
                measure::total_bytes(walk::records_of(y)),
            )
            ||| exists|i: int|
                0 <= i < x.len() && i < y.len() && #[trigger] collides(x[i].1, y[i].1)
        }),
{
    let x = a.folder(root_a, depth_a);
    let y = b.folder(root_b, depth_b);
    law_total_hash_binds_paths_and_contents(x, y, root_a, root_b);
    law_folder_consists_of_its_files(a, root_a, depth_a, relative, contents);
    law_folder_consists_of_its_files(b, root_b, depth_b, relative, contents);
}

/// The digest of a file is that of its contents alone: renaming a file, or
/// moving it to another folder, keeps it.
pub proof fn law_renaming_keeps_the_file_hash(
    from: Seq<u8>,
    to: Seq<u8>,
    contents: Seq<u8>,
)
    ensures
        measure::listed_file(measure::record_of(from, contents)).hash == measure::listed_file(
            measure::record_of(to, contents),
        ).hash,
{
}

// ---------------------------------------------------------------------------
// Distinct files
// ---------------------------------------------------------------------------

/// Whether no directory lists a name twice, as systems do not.
pub open spec fn lists_each_name_once(world: World) -> bool {
    forall|path: Seq<u8>| (#[trigger] world.names(path)).no_duplicates()
}

/// Whether `path` is `at` or lies below it.
spec fn at_or_below(at: Seq<u8>, path: Seq<u8>) -> bool {
    ||| path == at
    ||| {
        &&& at.len() < path.len()
        &&& path.take(at.len() as int) == at
        &&& path[at.len() as int] == paths::SEPARATOR
    }
}

/// What is reached from a path that does not end in a separator is at or below
/// the path.
proof fn lemma_reached_at_or_below(world: World, from: Seq<u8>, path: Seq<u8>, depth: nat)
    requires
        walk::lists_plain_names(world),
        from.len() > 0,
        from.last() != paths::SEPARATOR,
        walk::reachable(world, from, path, depth),
    ensures
        at_or_below(from, path),
    decreases depth,
{
    if (world.at)(from) is Directory {
        let names = world.names(from);
        let i = choose|i: int|
            0 <= i < names.len() && walk::reachable(
                world,
                paths::joined(from, #[trigger] names[i]),
                path,
                (depth - 1) as nat,
            );
        let name = names[i];
        assert(walk::is_plain(name));
        assert(name.contains(name[0]));
        assert(name.contains(name.last()));
        let next = paths::joined(from, name);
        assert(next == from.push(paths::SEPARATOR) + name);
        assert(next.last() == name.last());
        lemma_reached_at_or_below(world, next, path, (depth - 1) as nat);
        assert(path.take(next.len() as int) == next);
        assert(path.take(from.len() as int) == next.take(from.len() as int));
        assert(next.take(from.len() as int) == from);
        assert(path[from.len() as int] == path.take(next.len() as int)[from.len() as int]);
    }
}

/// Two plain names in one directory below both of which a path lies are the
/// same name.
proof fn lemma_one_branch(dir: Seq<u8>, a: Seq<u8>, b: Seq<u8>, path: Seq<u8>)
    requires
        walk::is_plain(a),
        walk::is_plain(b),
        at_or_below(paths::joined(dir, a), path),
        at_or_below(paths::joined(dir, b), path),
        a.len() <= b.len(),
    ensures
        a == b,
{
    assert(a.contains(a[0]));
    assert(b.contains(b[0]));
    let base = if dir.len() == 0 || dir.last() == paths::SEPARATOR {
        dir
    } else {
        dir.push(paths::SEPARATOR)
    };
    let (x, y) = (paths::joined(dir, a), paths::joined(dir, b));
    assert(x == base + a && y == base + b);
    let n = base.len() as int;
    assert(path.take(x.len() as int) == x);
    assert(path.take(y.len() as int) == y);
    assert forall|i: int| 0 <= i < a.len() implies a[i] == b[i] by {
        assert(path.take(x.len() as int)[n + i] == a[i]);
        assert(path.take(y.len() as int)[n + i] == b[i]);
    }
    if a.len() < b.len() {
        let k = a.len() as int;
        assert(path.take(y.len() as int)[n + k] == b[k]);
        assert(path[x.len() as int] == paths::SEPARATOR);
        assert(b.contains(b[k]));
    }
    assert(a == b);
}

/// Names of which none is listed twice are looked at once each.
proof fn lemma_sorted_names_distinct(names: Seq<Seq<u8>>)
    requires
        names.no_duplicates(),
    ensures
        measure::sorted_names(names).no_duplicates(),
{
    walk::law_names_are_sorted(names);
    names.lemma_multiset_has_no_duplicates();
    measure::sorted_names(names).lemma_multiset_has_no_duplicates_conv();
}

/// No file is found twice.
proof fn lemma_files_distinct(world: World, root: Seq<u8>, path: Seq<u8>, depth: nat)
    requires
        walk::lists_plain_names(world),
        lists_each_name_once(world),
    ensures
        world.files_at(root, path, depth).no_duplicates(),
    decreases depth, 0nat,
{
    if (world.at)(path) is Directory && depth > 0 {
        let names = world.names(path);
        let sorted = measure::sorted_names(names);
        lemma_sorted_names_distinct(names);
        assert forall|i: int| 0 <= i < sorted.len() implies walk::is_plain(#[trigger] sorted[i]) by {
            walk::lemma_sorted_names_contains(names, sorted[i]);
            let j = choose|j: int| 0 <= j < names.len() && names[j] == sorted[i];
            assert(walk::is_plain(world.names(path)[j]));
        }
        lemma_files_in_distinct(world, root, path, sorted, (depth - 1) as nat);
    }
}

/// The same, for the names in a directory.
proof fn lemma_files_in_distinct(
    world: World,
    root: Seq<u8>,
    dir: Seq<u8>,
    names: Seq<Seq<u8>>,
    depth: nat,
)
    requires
        walk::lists_plain_names(world),
        lists_each_name_once(world),
        names.no_duplicates(),
        forall|i: int| 0 <= i < names.len() ==> walk::is_plain(#[trigger] names[i]),
    ensures
        world.files_in(root, dir, names, depth).no_duplicates(),
    decreases depth, names.len() + 1,
{
    if names.len() > 0 {
        let rest = names.drop_first();
        let first = paths::joined(dir, names[0]);
        let here = world.files_at(root, first, depth);
        let there = world.files_in(root, dir, rest, depth);
        assert forall|i: int| 0 <= i < rest.len() implies walk::is_plain(#[trigger] rest[i]) by {
            assert(rest[i] == names[i + 1]);
        }
        assert(rest.no_duplicates()) by {
            assert forall|i: int, j: int|
                0 <= i < rest.len() && 0 <= j < rest.len() && i != j implies rest[i] != rest[j] by {
                assert(rest[i] == names[i + 1] && rest[j] == names[j + 1]);
            }
        }
        lemma_files_distinct(world, root, first, depth);
        lemma_files_in_distinct(world, root, dir, rest, depth);
        let all = here + there;
        assert forall|i: int, j: int|
            0 <= i < all.len() && 0 <= j < all.len() && i != j implies all[i] != all[j] by {
            if all[i] == all[j] {
                let (low, high) = if i < j {
                    (i, j)
                } else {
                    (j, i)
                };
                if high < here.len() {
                    assert(here[low] == here[high]);
                } else if low >= here.len() {
                    assert(there[low - here.len()] == there[high - here.len()]);
                } else {
                    let path = here[low];
                    assert(here.contains(path));
                    assert(there[high - here.len()] == path);
                    assert(there.contains(path));
                    walk::lemma_covered_in(world, root, dir, rest, path, depth);
                    let k = choose|k: int|
                        0 <= k < rest.len() && walk::reachable(
                            world,
                            paths::joined(dir, #[trigger] rest[k]),
                            path,
                            depth,
                        );
                    walk::lemma_covered(world, root, first, path, depth);
                    lemma_plain_end(dir, names[0]);
                    lemma_plain_end(dir, rest[k]);
                    lemma_reached_at_or_below(world, first, path, depth);
                    lemma_reached_at_or_below(world, paths::joined(dir, rest[k]), path, depth);
                    if names[0].len() <= rest[k].len() {
                        lemma_one_branch(dir, names[0], rest[k], path);
                    } else {
                        lemma_one_branch(dir, rest[k], names[0], path);
                    }
                    assert(rest[k] == names[k + 1]);
                }
            }
        }
    }
}

/// A plain name in a directory ends in no separator.
proof fn lemma_plain_end(dir: Seq<u8>, name: Seq<u8>)
    requires
        walk::is_plain(name),
    ensures
        paths::joined(dir, name).len() > 0,
        paths::joined(dir, name).last() != paths::SEPARATOR,
{
    assert(name.contains(name[0]));
    assert(name.contains(name.last()));
    assert(paths::joined(dir, name).last() == name.last());
}

/// Whether `files` are sorted by the raw bytes of their relative paths, with no
/// relative path twice.
pub open spec fn strictly_ordered(files: Seq<(Seq<u8>, Seq<u8>)>) -> bool {
    forall|i: int, j: int|
        0 <= i < j < files.len() ==> paths::bytes_before(
            (#[trigger] files[i]).0,
            (#[trigger] files[j]).0,
        )
}

/// The relative paths of the measured files strictly increase in the order of
/// their raw bytes, where no directory lists a name twice.
pub proof fn law_relative_paths_strictly_increase(world: World, root: Seq<u8>, depth: nat)
    requires
        root.len() > 0,
        (world.at)(root) is Directory,
        walk::lists_plain_names(world),
        lists_each_name_once(world),
    ensures
        strictly_ordered(world.folder(root, depth)),
{
    let files = world.files_at(root, root, depth);
    let found = measure::found_entries(root, files);
    let sorted = measure::sorted_entries(found);
    let folder = world.folder(root, depth);
    lemma_files_distinct(world, root, root, depth);
    assert forall|i: int, j: int|
        0 <= i < found.len() && 0 <= j < found.len() && i != j implies found[i] != found[j] by {
        assert(found[i].path == files[i] && found[j].path == files[j]);
    }
    walk::law_files_are_sorted(found);
    found.lemma_multiset_has_no_duplicates();
    sorted.lemma_multiset_has_no_duplicates_conv();
    let keys = measure::entry_keys(sorted);
    assert forall|i: int, j: int| 0 <= i < j < folder.len() implies paths::bytes_before(
        (#[trigger] folder[i]).0,
        (#[trigger] folder[j]).0,
    ) by {
        assert(keys[i] == folder[i].0 && keys[j] == folder[j].0);
        paths::law_byte_order_is_total(keys[i], keys[j]);
        if keys[i] == keys[j] {
            lemma_entry_path(world, root, depth, sorted[i]);
            lemma_entry_path(world, root, depth, sorted[j]);
            assert(sorted[i] == sorted[j]);
        }
    }
}

/// The path of an entry is its relative path in the root.
proof fn lemma_entry_path(world: World, root: Seq<u8>, depth: nat, entry: EntryModel)
    requires
        root.len() > 0,
        (world.at)(root) is Directory,
        walk::lists_plain_names(world),
        measure::reading_order(root, world.files_at(root, root, depth)).contains(entry),
    ensures
        entry.path == paths::joined(root, entry.relative),
{
    let files = world.files_at(root, root, depth);
    let found = measure::found_entries(root, files);
    walk::law_files_are_sorted(found);
    lemma_same_elements(measure::sorted_entries(found), found, entry);
    let j = choose|j: int| 0 <= j < found.len() && found[j] == entry;
    assert(files.contains(files[j]));
    walk::law_relative_paths_do_not_climb(world, root, files[j], depth);
}

// ---------------------------------------------------------------------------
// Equal folders
// ---------------------------------------------------------------------------

/// Strictly ordered lists with the same elements are the same list.
proof fn lemma_strictly_ordered_unique(
    a: Seq<(Seq<u8>, Seq<u8>)>,
    b: Seq<(Seq<u8>, Seq<u8>)>,
)
    requires
        strictly_ordered(a),
        strictly_ordered(b),
        forall|file: (Seq<u8>, Seq<u8>)| #[trigger] a.contains(file) <==> b.contains(file),
    ensures
        a == b,
    decreases a.len(),
{
    if a.len() == 0 {
        if b.len() > 0 {
            assert(b.contains(b[0]));
            assert(a.contains(b[0]));
        }
        assert(a == b);
    } else {
        assert(a.contains(a[0]));
        let j = choose|j: int| 0 <= j < b.len() && b[j] == a[0];
        assert(b.contains(b[0]));
        assert(a.contains(b[0]));
        let k = choose|k: int| 0 <= k < a.len() && a[k] == b[0];
        assert(j == 0) by {
            if j > 0 {
                assert(paths::bytes_before(b[0].0, b[j].0));
                paths::law_byte_order_is_total(b[0].0, a[0].0);
                if k > 0 {
                    assert(paths::bytes_before(a[0].0, a[k].0));
                }
            }
        }
        let (x, y) = (a.drop_first(), b.drop_first());
        assert forall|i: int, m: int| 0 <= i < m < x.len() implies paths::bytes_before(
            (#[trigger] x[i]).0,
            (#[trigger] x[m]).0,
        ) by {
            assert(x[i] == a[i + 1] && x[m] == a[m + 1]);
        }
        assert forall|i: int, m: int| 0 <= i < m < y.len() implies paths::bytes_before(
            (#[trigger] y[i]).0,
            (#[trigger] y[m]).0,
        ) by {
            assert(y[i] == b[i + 1] && y[m] == b[m + 1]);
        }
        assert forall|file: (Seq<u8>, Seq<u8>)| #[trigger] x.contains(file) <==> y.contains(
            file,
        ) by {
            if x.contains(file) {
                lemma_rest(a, b, file);
            }
            if y.contains(file) {
                assert forall|f: (Seq<u8>, Seq<u8>)| #[trigger] b.contains(f) <==> a.contains(
                    f,
                ) by {
                    assert(a.contains(f) <==> b.contains(f));
                }
                lemma_rest(b, a, file);
            }
        }
        lemma_strictly_ordered_unique(x, y);
        assert(a == seq![a[0]] + x);
        assert(b == seq![b[0]] + y);
    }
}

/// What stands behind the first element of one list stands behind that of the
/// other.
proof fn lemma_rest(
    a: Seq<(Seq<u8>, Seq<u8>)>,
    b: Seq<(Seq<u8>, Seq<u8>)>,
    file: (Seq<u8>, Seq<u8>),
)
    requires
        a.len() > 0,
        b.len() > 0,
        a[0] == b[0],
        strictly_ordered(a),
        forall|f: (Seq<u8>, Seq<u8>)| #[trigger] a.contains(f) <==> b.contains(f),
        a.drop_first().contains(file),
    ensures
        b.drop_first().contains(file),
{
    let i = choose|i: int| 0 <= i < a.drop_first().len() && a.drop_first()[i] == file;
    assert(a[i + 1] == file);
    assert(paths::bytes_before(a[0].0, a[i + 1].0));
    paths::law_byte_order_is_total(a[0].0, file.0);
    assert(a.contains(file));
    let j = choose|j: int| 0 <= j < b.len() && b[j] == file;
    assert(j > 0);
    assert(b.drop_first()[j - 1] == file);
}

/// Whether two folders, wherever they are, hold the same files: the same
/// contents under the same relative paths.
pub open spec fn same_files(
    a: World,
    root_a: Seq<u8>,
    depth_a: nat,
    b: World,
    root_b: Seq<u8>,
    depth_b: nat,
) -> bool {
    forall|relative: Seq<u8>, contents: Seq<u8>| #[trigger]
        has_file(a, root_a, depth_a, relative, contents) <==> has_file(
            b,
            root_b,
            depth_b,
            relative,
            contents,
        )
}

/// Two folders that hold the same files have the same measurement, wherever
/// they are and whatever the order in which the files were created or are
/// listed. In particular, measuring an unchanged folder twice gives the same
/// measurement.
pub proof fn law_measurement_is_order_independent(
    a: World,
    root_a: Seq<u8>,
    depth_a: nat,
    b: World,
    root_b: Seq<u8>,
    depth_b: nat,
)
    requires
        root_a.len() > 0,
        root_b.len() > 0,
        (a.at)(root_a) is Directory,
        (b.at)(root_b) is Directory,
        walk::lists_plain_names(a),
        walk::lists_plain_names(b),
        lists_each_name_once(a),
        lists_each_name_once(b),
        same_files(a, root_a, depth_a, b, root_b, depth_b),
    ensures
        a.measurement(root_a, depth_a).total_hash == b.measurement(root_b, depth_b).total_hash,
        a.measurement(root_a, depth_a).measurement == b.measurement(root_b, depth_b).measurement,
{
    let x = a.folder(root_a, depth_a);
    let y = b.folder(root_b, depth_b);
    law_relative_paths_strictly_increase(a, root_a, depth_a);
    law_relative_paths_strictly_increase(b, root_b, depth_b);
    assert forall|file: (Seq<u8>, Seq<u8>)| #[trigger] x.contains(file) <==> y.contains(file) by {
        law_folder_consists_of_its_files(a, root_a, depth_a, file.0, file.1);
        law_folder_consists_of_its_files(b, root_b, depth_b, file.0, file.1);
        assert(has_file(a, root_a, depth_a, file.0, file.1) <==> has_file(
            b,
            root_b,
            depth_b,
            file.0,
            file.1,
        ));
    }
    lemma_strictly_ordered_unique(x, y);
}

// ---------------------------------------------------------------------------
// What is listed
// ---------------------------------------------------------------------------

/// What a file contributes to the total digest, by its relative path and its
/// contents: the length of the path in eight bytes, the path, and the SHA-256
/// digest of the contents.
pub open spec fn contribution(path: Seq<u8>, contents: Seq<u8>) -> Seq<u8> {
    encoding::le_bytes(path.len(), 8) + path + encoding::sha256(contents)
}

/// The measurement of a folder lists its files in order, each with the SHA-256
/// digest of its contents in hexadecimal and the length of its contents, and the
/// total digest is taken over what the files contribute, one after the other.
pub proof fn law_measurement_lists_the_files(world: World, root: Seq<u8>, depth: nat)
    ensures
        ({
            let files = world.folder(root, depth);
            let folder = world.measurement(root, depth);
            &&& folder.hash_algorithm == "sha256"@
            &&& folder.directory == encoding::lossy_text(root)
            &&& folder.measurement.len() == files.len()
            &&& forall|i: int|
                0 <= i < files.len() ==> {
                    let listed = #[trigger] folder.measurement[i];
                    let (path, contents) = files[i];
                    &&& listed.hash == encoding::hex_text(encoding::sha256(contents))
                    &&& contents.len() <= u64::MAX ==> listed.size == contents.len()
                    &&& listed.name.len() == encoding::lossy_text(path).len()
                    &&& forall|k: int|
                        0 <= k < listed.name.len() ==> #[trigger] listed.name[k] == (
                        if encoding::lossy_text(path)[k] == '\\' {
                            '/'
                        } else {
                            encoding::lossy_text(path)[k]
                        })
                }
            &&& folder.total_hash == encoding::hex_text(
                encoding::sha256(
                    Seq::new(
                        files.len(),
                        |i: int| contribution(files[i].0, files[i].1),
                    ).flatten(),
                ),
            )
        }),
{
    lemma_total_is_flattened(world.folder(root, depth));
}

/// What the total digest is taken over, file by file.
proof fn lemma_total_is_flattened(files: Seq<(Seq<u8>, Seq<u8>)>)
    ensures
        measure::total_bytes(walk::records_of(files)) == Seq::new(
            files.len(),
            |i: int| contribution(files[i].0, files[i].1),
        ).flatten(),
    decreases files.len(),
{
    let parts = Seq::new(files.len(), |i: int| contribution(files[i].0, files[i].1));
    let records = walk::records_of(files);
    if files.len() > 0 {
        let rest = files.drop_first();
        lemma_total_is_flattened(rest);
        lemma_records_front(records);
        assert(records.drop_first() == walk::records_of(rest));
        assert(parts.drop_first() == Seq::new(
            rest.len(),
            |i: int| contribution(rest[i].0, rest[i].1),
        ));
        assert(measure::record_bytes(records[0]) == parts[0]);
    } else {
        assert(parts.flatten() == Seq::<u8>::empty());
    }
}

} // verus!
