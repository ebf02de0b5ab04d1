//! Paths as text: components are separated by `/`, and a path that begins
//! with `/` is absolute.

use vstd::prelude::*;

verus! {

/// Whether `p` begins at the root.
pub open spec fn is_absolute(p: Seq<char>) -> bool {
    p.len() > 0 && p[0] == '/'
}

/// `p` without the separators it begins with.
pub open spec fn strip_root(p: Seq<char>) -> Seq<char>
    decreases p.len(),
{
    if p.len() > 0 && p[0] == '/' {
        strip_root(p.skip(1))
    } else {
        p
    }
}

/// The directory that holds `p`: what stands before the last separator, or
/// nothing where `p` has no separator.
pub open spec fn parent(p: Seq<char>) -> Seq<char>
    decreases p.len(),
{
    if p.len() == 0 {
        p
    } else if p.last() == '/' {
        p.drop_last()
    } else {
        parent(p.drop_last())
    }
}

/// The last component of `p`: what stands behind the last separator, or all
/// of `p` where it has no separator.
pub open spec fn base_name(p: Seq<char>) -> Seq<char>
    decreases p.len(),
{
    if p.len() == 0 || p.last() == '/' {
        Seq::empty()
    } else {
        base_name(p.drop_last()).push(p.last())
    }
}

/// `rel` below `base`, with exactly one separator between them unless one of
/// them is empty or `base` already ends with one.
pub open spec fn join(base: Seq<char>, rel: Seq<char>) -> Seq<char> {
    if rel.len() == 0 {
        base
    } else if base.len() == 0 {
        rel
    } else if base.last() == '/' {
        base + rel
    } else {
        base + seq!['/'] + rel
    }
}

/// Whether the first component of `p` is `.`, the current directory.
pub open spec fn begins_with_current(p: Seq<char>) -> bool {
    p.len() > 0 && p[0] == '.' && (p.len() == 1 || p[1] == '/')
}

/// `p` without the `.` components and the separators that it begins with.
pub open spec fn strip_current(p: Seq<char>) -> Seq<char>
    decreases p.len(),
{
    if p.len() > 0 && p[0] == '/' {
        strip_current(p.skip(1))
    } else if p.len() > 1 && p[0] == '.' && p[1] == '/' {
        strip_current(p.skip(2))
    } else if p.len() == 1 && p[0] == '.' {
        Seq::empty()
    } else {
        p
    }
}

/// `p` made absolute against the directory `current`: an absolute `p` stays
/// as it is; of any other `p` the `.` components that it begins with are
/// dropped, and the rest is put below `current`.
pub open spec fn absolute(current: Seq<char>, p: Seq<char>) -> Seq<char> {
    if is_absolute(p) {
        p
    } else if begins_with_current(p) {
        join(current, strip_current(p))
    } else {
        join(current, p)
    }
}

/// Stripping the root leaves a path that is not absolute.
pub proof fn lemma_strip_root_relative(p: Seq<char>)
    ensures
        !is_absolute(strip_root(p)),
        strip_root(p).len() <= p.len(),
        !is_absolute(p) ==> strip_root(p) == p,
    decreases p.len(),
{
    if p.len() > 0 && p[0] == '/' {
        lemma_strip_root_relative(p.skip(1));
    }
}

/// A path with a separator is its parent, one separator and its base name; a
/// path without one is its own base name and has an empty parent.
pub proof fn lemma_parent_base_name(p: Seq<char>)
    ensures
        p.contains('/') ==> p == parent(p) + seq!['/'] + base_name(p),
        !p.contains('/') ==> parent(p).len() == 0 && base_name(p) == p,
        !base_name(p).contains('/'),
    decreases p.len(),
{
    if p.len() == 0 {
        assert(base_name(p) =~= p);
    } else if p.last() == '/' {
        assert(p =~= p.drop_last() + seq!['/'] + Seq::<char>::empty());
        assert(p[p.len() - 1] == '/');
    } else {
        let q = p.drop_last();
        lemma_parent_base_name(q);
        if p.contains('/') {
            let i = choose|i: int| 0 <= i < p.len() && p[i] == '/';
            assert(q[i] == '/');
            assert(q.contains('/'));
            assert(p =~= q.push(p.last()));
            assert(p =~= parent(p) + seq!['/'] + base_name(p));
        } else {
            if q.contains('/') {
                let i = choose|i: int| 0 <= i < q.len() && q[i] == '/';
                assert(p[i] == '/');
            }
            assert(base_name(p) =~= p);
        }
        let b = base_name(p);
        if b.contains('/') {
            let i = choose|i: int| 0 <= i < b.len() && b[i] == '/';
            if i < b.len() - 1 {
                assert(base_name(q)[i] == '/');
            }
        }
    }
}

/// Whether `p` begins at the root.
pub fn has_root(p: &str) -> (b: bool)
    ensures
        b == is_absolute(p@),
{
    let n: usize = p.unicode_len();
    n > 0 && p.get_char(0) == '/'
}

/// Whether `p` begins with `prefix`.
pub fn starts_with(p: &str, prefix: &str) -> (b: bool)
    ensures
        b == prefix@.is_prefix_of(p@),
{
    let n: usize = p.unicode_len();
    let m: usize = prefix.unicode_len();
    if m > n {
        return false;
    }
    let mut i: usize = 0;
    while i < m
        invariant
            i <= m <= n,
            n == p@.len(),
            m == prefix@.len(),
            forall|k: int| 0 <= k < i ==> p@[k] == prefix@[k],
        decreases m - i,
    {
        if p.get_char(i) != prefix.get_char(i) {
            assert(p@.subrange(0, m as int)[i as int] != prefix@[i as int]);
            return false;
        }
        i += 1;
    }
    assert(p@.subrange(0, m as int) =~= prefix@);
    true
}

/// Removes the separators that `p` begins with.
pub fn without_root(p: &str) -> (rel: String)
    ensures
        rel@ == strip_root(p@),
{
    let n: usize = p.unicode_len();
    let mut i: usize = 0;
    assert(p@.skip(0) =~= p@);
    while i < n && p.get_char(i) == '/'
        invariant
            i <= n,
            n == p@.len(),
            strip_root(p@) == strip_root(p@.skip(i as int)),
        decreases n - i,
    {
        proof {
            let q = p@.skip(i as int);
            assert(q.len() > 0 && q[0] == '/');
            assert(q.skip(1) =~= p@.skip(i + 1));
        }
        i += 1;
    }
    proof {
        let q = p@.skip(i as int);
        assert(q.len() == 0 || q[0] != '/');
        assert(q =~= p@.subrange(i as int, n as int));
    }
    p.substring_char(i, n).to_owned()
}

/// The directory that holds `p`.
pub fn parent_of(p: &str) -> (dir: String)
    ensures
        dir@ == parent(p@),
{
    let n: usize = p.unicode_len();
    let mut i: usize = n;
    assert(p@.take(n as int) =~= p@);
    while i > 0 && p.get_char(i - 1) != '/'
        invariant
            i <= n,
            n == p@.len(),
            parent(p@) == parent(p@.take(i as int)),
        decreases i,
    {
        proof {
            let q = p@.take(i as int);
            assert(q.len() > 0 && q.last() != '/');
            assert(q.drop_last() =~= p@.take(i - 1));
        }
        i -= 1;
    }
    if i == 0 {
        assert(p@.take(0).len() == 0);
        assert(p@.take(0) =~= p@.subrange(0, 0));
        p.substring_char(0, 0).to_owned()
    } else {
        proof {
            let q = p@.take(i as int);
            assert(q.last() == '/');
            assert(q.drop_last() =~= p@.subrange(0, i - 1));
        }
        p.substring_char(0, i - 1).to_owned()
    }
}

/// The last component of `p`.
pub fn base_name_of(p: &str) -> (name: String)
    ensures
        name@ == base_name(p@),
{
    let n: usize = p.unicode_len();
    let mut i: usize = n;
    assert(p@.take(n as int) =~= p@);
    assert(base_name(p@) + p@.subrange(n as int, n as int) =~= base_name(p@));
    while i > 0 && p.get_char(i - 1) != '/'
        invariant
            i <= n,
            n == p@.len(),
            base_name(p@) == base_name(p@.take(i as int)) + p@.subrange(i as int, n as int),
        decreases i,
    {
        proof {
            let q = p@.take(i as int);
            assert(q.len() > 0 && q.last() != '/');
            assert(q.drop_last() =~= p@.take(i - 1));
            assert(base_name(q) == base_name(p@.take(i - 1)).push(q.last()));
            assert(base_name(p@.take(i - 1)).push(q.last()) + p@.subrange(i as int, n as int)
                =~= base_name(p@.take(i - 1)) + p@.subrange(i - 1, n as int));
        }
        i -= 1;
    }
    proof {
        let q = p@.take(i as int);
        assert(q.len() == 0 || q.last() == '/');
        assert(base_name(q) + p@.subrange(i as int, n as int) =~= p@.subrange(i as int, n as int));
        assert(p@.take(n as int) =~= p@);
    }
    p.substring_char(i, n).to_owned()
}

/// Puts `rel` below `base`.
pub fn join_paths(base: &str, rel: &str) -> (joined: String)
    ensures
        joined@ == join(base@, rel@),
{
    let n: usize = base.unicode_len();
    if rel.unicode_len() == 0 {
        return base.to_owned();
    }
    if n == 0 {
        return rel.to_owned();
    }
    let mut joined = base.to_owned();
    if base.get_char(n - 1) != '/' {
        proof {
            reveal_strlit("/");
        }
        joined.append("/");
        assert(joined@ =~= base@ + seq!['/']);
    }
    joined.append(rel);
    joined
}

/// Removes the `.` components and the separators that `p` begins with.
pub fn without_current(p: &str) -> (rest: String)
    ensures
        rest@ == strip_current(p@),
{
    let n: usize = p.unicode_len();
    let mut i: usize = 0;
    assert(p@.skip(0) =~= p@);
    while i < n
        invariant
            i <= n,
            n == p@.len(),
            strip_current(p@) == strip_current(p@.skip(i as int)),
        decreases n - i,
    {
        let ghost q = p@.skip(i as int);
        let c = p.get_char(i);
        assert(q[0] == c);
        if c == '/' {
            assert(q.skip(1) =~= p@.skip(i + 1));
            i += 1;
        } else if c == '.' && i + 1 < n && p.get_char(i + 1) == '/' {
            assert(q[1] == '/');
            assert(q.skip(2) =~= p@.skip(i + 2));
            i += 2;
        } else if c == '.' && i + 1 == n {
            assert(q.len() == 1);
            assert(p@.skip(n as int) =~= p@.subrange(n as int, n as int));
            assert(strip_current(p@.skip(n as int)) =~= Seq::<char>::empty());
            return p.substring_char(n, n).to_owned();
        } else {
            assert(strip_current(q) == q);
            assert(q =~= p@.subrange(i as int, n as int));
            return p.substring_char(i, n).to_owned();
        }
    }
    assert(p@.skip(n as int) =~= p@.subrange(n as int, n as int));
    p.substring_char(n, n).to_owned()
}

/// Makes `some_path` absolute against the directory `current_dir`.
pub fn to_absolute_path(current_dir: &str, some_path: &str) -> (path: String)
    ensures
        path@ == absolute(current_dir@, some_path@),
{
    if has_root(some_path) {
        return some_path.to_owned();
    }
    let n: usize = some_path.unicode_len();
    if n > 0 && some_path.get_char(0) == '.' && (n == 1 || some_path.get_char(1) == '/') {
        let rest = without_current(some_path);
        join_paths(current_dir, rest.as_str())
    } else {
        join_paths(current_dir, some_path)
    }
}

} // verus!
