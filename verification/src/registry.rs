//! The registry: which paths are tracked, and the fingerprint last observed
//! for each.

use crate::paths::{has_root, is_absolute};
use crate::PathItem;
use vstd::prelude::*;

verus! {

/// One registry entry as a value: the path and its fingerprint.
pub type Entry = (Seq<char>, Seq<u8>);

/// Whether `entries` holds `path`.
pub open spec fn tracks(entries: Seq<Entry>, path: Seq<char>) -> bool {
    exists|i: int| 0 <= i < entries.len() && (#[trigger] entries[i]).0 == path
}

/// The place of `path` in `entries`, where it is tracked.
pub open spec fn position(entries: Seq<Entry>, path: Seq<char>) -> int {
    choose|i: int| 0 <= i < entries.len() && (#[trigger] entries[i]).0 == path
}

/// No path occurs twice, and every path is absolute.
pub open spec fn well_formed(entries: Seq<Entry>) -> bool {
    &&& forall|i: int| 0 <= i < entries.len() ==> is_absolute((#[trigger] entries[i]).0)
    &&& forall|i: int, j: int|
        0 <= i < j < entries.len() ==> (#[trigger] entries[i]).0 != (#[trigger] entries[j]).0
}

/// `entries` after `path` was registered with `hash`: a path that is not
/// absolute is refused, a path already tracked keeps its place and takes the
/// new fingerprint, and a new path goes to the end.
pub open spec fn put(entries: Seq<Entry>, path: Seq<char>, hash: Seq<u8>) -> Seq<Entry> {
    if !is_absolute(path) {
        entries
    } else if tracks(entries, path) {
        entries.update(position(entries, path), (path, hash))
    } else {
        entries.push((path, hash))
    }
}

/// The fingerprint that `entries` holds for `path`.
pub open spec fn lookup(entries: Seq<Entry>, path: Seq<char>) -> Option<Seq<u8>> {
    if tracks(entries, path) {
        Some(entries[position(entries, path)].1)
    } else {
        None
    }
}

/// Registering a path keeps the registry well formed; afterwards an accepted
/// path is tracked with the fingerprint given, and every other path is
/// tracked as before.
pub proof fn lemma_put(entries: Seq<Entry>, path: Seq<char>, hash: Seq<u8>)
    requires
        well_formed(entries),
    ensures
        well_formed(put(entries, path, hash)),
        is_absolute(path) ==> lookup(put(entries, path, hash), path) == Some(hash),
        forall|other: Seq<char>|
            other != path ==> lookup(put(entries, path, hash), other) == lookup(entries, other),
{
    let after = put(entries, path, hash);
    if is_absolute(path) {
        if tracks(entries, path) {
            let p = position(entries, path);
            assert(after[p].0 == path);
            assert forall|i: int| 0 <= i < after.len() implies after[i].0 == entries[i].0 by {}
            assert(well_formed(after));
            lemma_lookup_at(after, p);
        } else {
            let p = entries.len() as int;
            assert(after[p].0 == path);
            assert forall|i: int, j: int| 0 <= i < j < after.len() implies after[i].0
                != after[j].0 by {
                if j == p {
                    assert(entries[i].0 != path);
                }
            }
            lemma_lookup_at(after, p);
        }
        assert forall|other: Seq<char>| other != path implies lookup(after, other) == lookup(
            entries,
            other,
        ) by {
            if tracks(entries, other) {
                let q = position(entries, other);
                assert(after[q] == entries[q]);
                lemma_lookup_at(after, q);
            } else if tracks(after, other) {
                let q = position(after, other);
                assert(q < entries.len());
                assert(entries[q].0 == other);
            }
        }
    }
}

/// In a well-formed registry the entry at place `i` is the one found for its
/// path.
pub proof fn lemma_lookup_at(entries: Seq<Entry>, i: int)
    requires
        well_formed(entries),
        0 <= i < entries.len(),
    ensures
        tracks(entries, entries[i].0),
        position(entries, entries[i].0) == i,
        lookup(entries, entries[i].0) == Some(entries[i].1),
{
    let path = entries[i].0;
    assert(entries[i].0 == path);
    let p = position(entries, path);
    if p < i {
        assert(entries[p].0 != entries[i].0);
    } else if i < p {
        assert(entries[i].0 != entries[p].0);
    }
}

/// The entries that a list of items stands for.
pub open spec fn entries_of(items: Seq<PathItem>) -> Seq<Entry> {
    Seq::new(items.len(), |i: int| items[i]@)
}

/// The tracked paths with their fingerprints, in the order in which they
/// were first registered.
pub struct Registry {
    items: Vec<PathItem>,
}

impl Registry {
    /// The entries in order.
    pub closed spec fn entries(&self) -> Seq<Entry> {
        entries_of(self.items@)
    }

    /// The registry's invariant.
    pub open spec fn wf(&self) -> bool {
        well_formed(self.entries())
    }

    /// A registry that tracks nothing.
    pub fn new() -> (registry: Self)
        ensures
            registry.wf(),
            registry.entries() == Seq::<Entry>::empty(),
    {
        let registry = Registry { items: Vec::new() };
        assert(registry.entries() =~= Seq::<Entry>::empty());
        registry
    }

    /// How many paths are tracked.
    pub fn len(&self) -> (n: usize)
        ensures
            n == self.entries().len(),
    {
        self.items.len()
    }

    /// The entry at place `i`.
    pub fn item_at(&self, i: usize) -> (item: &PathItem)
        requires
            i < self.entries().len(),
        ensures
            item@ == self.entries()[i as int],
    {
        &self.items[i]
    }

    /// The place of `path`, where it is tracked.
    pub fn index_of(&self, path: &str) -> (found: Option<usize>)
        ensures
            found is Some <==> tracks(self.entries(), path@),
            found matches Some(i) ==> i < self.entries().len() && self.entries()[i as int].0
                == path@,
    {
        let n: usize = self.items.len();
        let mut i: usize = 0;
        while i < n
            invariant
                i <= n,
                n == self.items@.len(),
                forall|k: int| 0 <= k < i ==> (#[trigger] self.entries()[k]).0 != path@,
            decreases n - i,
        {
            if same_text(self.items[i].path_str(), path) {
                assert(self.entries()[i as int].0 == path@);
                return Some(i);
            }
            i += 1;
        }
        None
    }

    /// The fingerprint held for `path`, where it is tracked.
    pub fn get(&self, path: &str) -> (hash: Option<&Vec<u8>>)
        requires
            self.wf(),
        ensures
            match hash {
                Some(h) => lookup(self.entries(), path@) == Some(h@),
                None => lookup(self.entries(), path@) is None,
            },
    {
        match self.index_of(path) {
            Some(i) => {
                proof {
                    lemma_lookup_at(self.entries(), i as int);
                }
                Some(self.items[i].hash_bytes())
            },
            None => None,
        }
    }

    /// Registers `path` with `hash`. Returns whether the path was accepted:
    /// one that is not absolute is refused and changes nothing.
    pub fn insert(&mut self, path: String, hash: Vec<u8>) -> (accepted: bool)
        requires
            old(self).wf(),
        ensures
            final(self).wf(),
            accepted == is_absolute(path@),
            final(self).entries() == put(old(self).entries(), path@, hash@),
    {
        proof {
            lemma_put(self.entries(), path@, hash@);
        }
        if !has_root(path.as_str()) {
            return false;
        }
        match self.index_of(path.as_str()) {
            Some(i) => {
                proof {
                    lemma_lookup_at(self.entries(), i as int);
                }
                self.items[i].set_hash(hash);
                assert(self.entries() =~= put(old(self).entries(), path@, hash@));
            },
            None => {
                self.items.push(PathItem::new(path, hash));
                assert(self.entries() =~= put(old(self).entries(), path@, hash@));
            },
        }
        true
    }

    /// Replaces the fingerprint of the entry at place `i`.
    pub fn set_hash_at(&mut self, i: usize, hash: Vec<u8>)
        requires
            old(self).wf(),
            i < old(self).entries().len(),
        ensures
            final(self).wf(),
            final(self).entries() == old(self).entries().update(
                i as int,
                (old(self).entries()[i as int].0, hash@),
            ),
    {
        self.items[i].set_hash(hash);
        let ghost after = old(self).entries().update(
            i as int,
            (old(self).entries()[i as int].0, hash@),
        );
        assert(self.entries() =~= after);
        assert forall|k: int| 0 <= k < after.len() implies after[k].0 == old(self).entries()[k].0 by {}
    }

    /// The entries in order, as items.
    pub fn items(&self) -> (items: Vec<PathItem>)
        ensures
            entries_of(items@) == self.entries(),
    {
        let mut items: Vec<PathItem> = Vec::new();
        let n: usize = self.items.len();
        let mut i: usize = 0;
        while i < n
            invariant
                i <= n,
                n == self.items@.len(),
                items@.len() == i,
                entries_of(items@) == self.entries().take(i as int),
            decreases n - i,
        {
            let item = PathItem::new(self.items[i].path(), self.items[i].hash());
            assert(item@ == self.entries()[i as int]);
            let ghost before = items@;
            items.push(item);
            assert forall|k: int| 0 <= k < i + 1 implies entries_of(items@)[k]
                == self.entries().take(i + 1)[k] by {
                if k < i {
                    assert(items@[k] == before[k]);
                    assert(entries_of(before)[k] == self.entries().take(i as int)[k]);
                }
            }
            assert(entries_of(items@) =~= self.entries().take(i + 1));
            i += 1;
        }
        assert(self.entries().take(n as int) =~= self.entries());
        items
    }
}

/// Whether two texts are the same.
pub fn same_text(a: &str, b: &str) -> (same: bool)
    ensures
        same == (a@ == b@),
{
    let n: usize = a.unicode_len();
    if b.unicode_len() != n {
        return false;
    }
    let mut i: usize = 0;
    while i < n
        invariant
            i <= n,
            n == a@.len(),
            n == b@.len(),
            forall|k: int| 0 <= k < i ==> a@[k] == b@[k],
        decreases n - i,
    {
        if a.get_char(i) != b.get_char(i) {
            return false;
        }
        i += 1;
    }
    assert(a@ =~= b@);
    true
}

} // verus!
