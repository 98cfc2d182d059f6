//! Unix paths as byte strings.
//!
//! A path is what the operating system hands out: bytes, with `/` between the
//! components. Only what the measurement and the configuration need is here.

use vstd::prelude::*;

verus! {

/// `/`, the separator of path components.
pub const SEPARATOR: u8 = 47;

/// The path of `name` inside the directory `dir`. An absolute `name` stands on
/// its own.
pub open spec fn joined(dir: Seq<u8>, name: Seq<u8>) -> Seq<u8> {
    if name.len() > 0 && name[0] == SEPARATOR {
        name
    } else if dir.len() == 0 || dir.last() == SEPARATOR {
        dir + name
    } else {
        dir.push(SEPARATOR) + name
    }
}

/// Whether the bytes of `path` begin with those of `prefix`.
pub open spec fn extends(path: Seq<u8>, prefix: Seq<u8>) -> bool {
    prefix.len() <= path.len() && path.take(prefix.len() as int) == prefix
}

/// Whether `path` is `root` or lies below it. Both are canonical: absolute,
/// and without empty, `.` or `..` components.
pub open spec fn inside(root: Seq<u8>, path: Seq<u8>) -> bool {
    &&& extends(path, root)
    &&& {
        ||| path.len() == root.len()
        ||| root.len() > 0 && root.last() == SEPARATOR
        ||| path[root.len() as int] == SEPARATOR
    }
}

/// `path` relative to `root`, or `path` itself when it does not lie below
/// `root`.
pub open spec fn relative_to(root: Seq<u8>, path: Seq<u8>) -> Seq<u8> {
    if !inside(root, path) {
        path
    } else if path.len() == root.len() || root.len() > 0 && root.last() == SEPARATOR {
        path.skip(root.len() as int)
    } else {
        path.skip(root.len() as int + 1)
    }
}

/// Appends `tail` to `bytes`.
pub fn append_bytes(bytes: &mut Vec<u8>, tail: &[u8])
    ensures
        final(bytes)@ == old(bytes)@ + tail@,
{
    let mut i: usize = 0;
    assert(bytes@ + tail@.take(0) == bytes@);
    while i < tail.len()
        invariant
            i <= tail@.len(),
            bytes@ == old(bytes)@ + tail@.take(i as int),
        decreases tail@.len() - i,
    {
        bytes.push(tail[i]);
        i = i + 1;
        assert(tail@.take(i as int) == tail@.take(i - 1).push(tail@[i - 1]));
    }
    assert(tail@.take(i as int) == tail@);
}

/// A copy of `bytes`.
pub fn copy_bytes(bytes: &[u8]) -> (r: Vec<u8>)
    ensures
        r@ == bytes@,
{
    let mut out: Vec<u8> = Vec::new();
    append_bytes(&mut out, bytes);
    out
}

/// The path of `name` inside the directory `dir`.
pub fn join(dir: &[u8], name: &[u8]) -> (r: Vec<u8>)
    ensures
        r@ == joined(dir@, name@),
{
    let mut out: Vec<u8> = Vec::new();
    if name.len() > 0 && name[0] == SEPARATOR {
        append_bytes(&mut out, name);
        return out;
    }
    append_bytes(&mut out, dir);
    if dir.len() > 0 && dir[dir.len() - 1] != SEPARATOR {
        out.push(SEPARATOR);
    }
    append_bytes(&mut out, name);
    out
}

/// Whether the canonical path `path` is the canonical path `root` or lies
/// below it.
pub fn is_inside(root: &[u8], path: &[u8]) -> (r: bool)
    ensures
        r == inside(root@, path@),
{
    if root.len() > path.len() {
        return false;
    }
    let mut i: usize = 0;
    while i < root.len()
        invariant
            i <= root@.len() <= path@.len(),
            forall|j: int| 0 <= j < i ==> root@[j] == path@[j],
        decreases root@.len() - i,
    {
        if root[i] != path[i] {
            assert(path@.take(root@.len() as int)[i as int] != root@[i as int]);
            return false;
        }
        i = i + 1;
    }
    assert(path@.take(root@.len() as int) == root@);
    path.len() == root.len() || (root.len() > 0 && root[root.len() - 1] == SEPARATOR)
        || path[root.len()] == SEPARATOR
}

/// `path` relative to `root`, or `path` itself when it does not lie below
/// `root`.
pub fn relative(root: &[u8], path: &[u8]) -> (r: Vec<u8>)
    ensures
        r@ == relative_to(root@, path@),
{
    if !is_inside(root, path) {
        return copy_bytes(path);
    }
    let skipped: usize = if path.len() == root.len() || (root.len() > 0 && root[root.len()
        - 1] == SEPARATOR) {
        root.len()
    } else {
        root.len() + 1
    };
    copy_bytes(vstd::slice::slice_subrange(path, skipped, path.len()))
}

/// Whether the first difference of `a` and `b` makes `a` the smaller one; a
/// proper prefix is smaller than what extends it.
pub open spec fn bytes_before(a: Seq<u8>, b: Seq<u8>) -> bool
    decreases a.len(),
{
    if b.len() == 0 {
        false
    } else if a.len() == 0 {
        true
    } else if a[0] != b[0] {
        a[0] < b[0]
    } else {
        bytes_before(a.drop_first(), b.drop_first())
    }
}

/// Whether `a` comes before `b` in the order of raw bytes.
pub fn is_before(a: &[u8], b: &[u8]) -> (r: bool)
    ensures
        r == bytes_before(a@, b@),
{
    let mut i: usize = 0;
    assert(a@.skip(0) == a@ && b@.skip(0) == b@);
    while i < a.len() && i < b.len()
        invariant
            i <= a@.len(),
            i <= b@.len(),
            bytes_before(a@, b@) == bytes_before(a@.skip(i as int), b@.skip(i as int)),
        decreases a@.len() - i,
    {
        if a[i] != b[i] {
            return a[i] < b[i];
        }
        assert(a@.skip(i as int).drop_first() == a@.skip(i + 1));
        assert(b@.skip(i as int).drop_first() == b@.skip(i + 1));
        i = i + 1;
    }
    i < b.len()
}

/// The order of raw bytes is total: of two different byte strings, exactly one
/// comes before the other.
pub proof fn law_byte_order_is_total(a: Seq<u8>, b: Seq<u8>)
    ensures
        !(bytes_before(a, b) && bytes_before(b, a)),
        !bytes_before(a, b) && !bytes_before(b, a) <==> a == b,
    decreases a.len(),
{
    if a.len() > 0 && b.len() > 0 {
        if a[0] == b[0] {
            law_byte_order_is_total(a.drop_first(), b.drop_first());
            if a.drop_first() == b.drop_first() {
                assert(a == seq![a[0]] + a.drop_first());
                assert(b == seq![b[0]] + b.drop_first());
            }
        }
    } else if a.len() == 0 && b.len() == 0 {
        assert(a == b);
    }
}

/// The order of raw bytes is transitive.
pub proof fn law_byte_order_is_transitive(a: Seq<u8>, b: Seq<u8>, c: Seq<u8>)
    requires
        bytes_before(a, b),
        bytes_before(b, c),
    ensures
        bytes_before(a, c),
    decreases a.len(),
{
    if a.len() > 0 && a[0] == b[0] && b[0] == c[0] {
        law_byte_order_is_transitive(a.drop_first(), b.drop_first(), c.drop_first());
    }
}

/// A name inside a directory is what is left when the directory is stripped
/// again.
pub proof fn law_relative_undoes_join(root: Seq<u8>, name: Seq<u8>)
    requires
        root.len() > 0,
        name.len() > 0,
        name[0] != SEPARATOR,
    ensures
        inside(root, joined(root, name)),
        relative_to(root, joined(root, name)) == name,
{
    let path = joined(root, name);
    assert(path.take(root.len() as int) == root);
    if root.last() == SEPARATOR {
        assert(path.skip(root.len() as int) == name);
    } else {
        assert(path[root.len() as int] == SEPARATOR);
        assert(path.skip(root.len() as int + 1) == name);
    }
}

/// A relative name in a directory is the directory, one separator, and the name;
/// a separator that the directory ends with is not doubled. An absolute name
/// stands on its own.
pub proof fn law_join_puts_one_separator(dir: Seq<u8>, name: Seq<u8>)
    ensures
        name.len() > 0 && name[0] as char == '/' ==> joined(dir, name) == name,
        !(name.len() > 0 && name[0] as char == '/') ==> {
            let path = joined(dir, name);
            let added = path.len() - dir.len() - name.len();
            &&& path.take(dir.len() as int) == dir
            &&& path.skip(dir.len() + added) == name
            &&& added == if dir.len() > 0 && dir[dir.len() - 1] as char != '/' {
                1int
            } else {
                0
            }
            &&& dir.len() > 0 ==> path[dir.len() + added - 1] as char == '/'
        },
{
    let path = joined(dir, name);
    if !(name.len() > 0 && name[0] as char == '/') {
        let added = path.len() - dir.len() - name.len();
        assert(path.take(dir.len() as int) == dir);
        assert(path.skip(dir.len() + added) == name);
    }
}

/// What lies inside a directory is the directory itself, and every path that
/// goes on behind a separator. A path that only begins with the same letters
/// lies outside.
pub proof fn law_inside_is_at_or_below(root: Seq<u8>, rest: Seq<u8>, path: Seq<u8>)
    requires
        root.len() > 0,
    ensures
        inside(root, root),
        inside(root, root + rest) <==> rest.len() == 0 || root[root.len() - 1] as char == '/'
            || rest[0] as char == '/',
        inside(root, path) ==> path.len() >= root.len() && path.take(root.len() as int) == root,
{
    let whole = root + rest;
    assert(root.take(root.len() as int) == root);
    assert(whole.take(root.len() as int) == root);
    assert(rest.len() > 0 ==> whole[root.len() as int] == rest[0]);
}

/// A path is relative to a directory by what goes on behind the directory and
/// one separator; a path outside the directory is kept.
pub proof fn law_relative_is_what_goes_on(root: Seq<u8>, rest: Seq<u8>, path: Seq<u8>)
    requires
        root.len() > 0,
    ensures
        root[root.len() - 1] as char != '/' ==> relative_to(root, root + seq![47u8] + rest)
            == rest,
        root[root.len() - 1] as char == '/' ==> relative_to(root, root + rest) == rest,
        !inside(root, path) ==> relative_to(root, path) == path,
{
    let n = root.len() as int;
    let below = root + seq![47u8] + rest;
    assert(below.take(n) == root && below[n] == 47);
    assert(below.skip(n + 1) == rest);
    assert((root + rest).take(n) == root);
    assert((root + rest).skip(n) == rest);
}

/// The first byte in which two byte strings differ decides their order; where
/// there is none, the shorter one comes first.
pub proof fn law_first_difference_decides(a: Seq<u8>, b: Seq<u8>, k: int)
    requires
        0 <= k <= a.len(),
        k <= b.len(),
        a.take(k) == b.take(k),
    ensures
        k < a.len() && k < b.len() && a[k] < b[k] ==> bytes_before(a, b) && !bytes_before(b, a),
        k == a.len() && k < b.len() ==> bytes_before(a, b) && !bytes_before(b, a),
    decreases k,
{
    if k > 0 {
        assert(a.take(k)[0] == a[0] && b.take(k)[0] == b[0]);
        let (x, y) = (a.drop_first(), b.drop_first());
        assert(x.take(k - 1) == a.take(k).drop_first());
        assert(y.take(k - 1) == b.take(k).drop_first());
        law_first_difference_decides(x, y, k - 1);
    }
}

} // verus!
