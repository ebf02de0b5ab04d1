//! Bridging the registry and the persistent store. The store holds records
//! as bytes; the caller reads them, parses them, and writes them back. What
//! enters the registry and what is written back is decided here.
//!
//! The registry is loaded once, when the daemon starts. A record that is
//! removed from the store while the daemon runs stays tracked until the
//! next load; saving leaves the store without it.

use crate::paths::is_absolute;
use crate::registry::{lemma_put, lookup, position, put, well_formed, Entry, Registry};
use crate::{copy_bytes, PathItem};
use vstd::prelude::*;

verus! {

/// One record of the store: what parsing its bytes gave, or nothing where
/// they do not parse.
#[derive(Debug)]
pub struct Record {
    pub parsed: Option<PathItem>,
}

/// What is to be done with one record of the store when the registry is
/// saved.
#[derive(Clone, Debug, PartialEq, Eq)]
pub enum Update {
    /// Write the record's bytes back as they are.
    Keep,
    /// Replace the record's fingerprint by this one, leave every other field
    /// as it is, and write the record back.
    SetHash(Vec<u8>),
}

/// An update as a value.
pub enum Change {
    Keep,
    SetHash(Seq<u8>),
}

impl View for Update {
    type V = Change;

    open spec fn view(&self) -> Change {
        match self {
            Update::Keep => Change::Keep,
            Update::SetHash(hash) => Change::SetHash(hash@),
        }
    }
}

/// The registry that a store with these records loads to. Records go in one
/// after another: a record that does not parse, or whose path is not
/// absolute, is passed over, and a later record for a path overrides an
/// earlier one.
pub open spec fn loaded(records: Seq<Record>) -> Seq<Entry>
    decreases records.len(),
{
    if records.len() == 0 {
        Seq::empty()
    } else {
        match records.last().parsed {
            Some(item) => put(loaded(records.drop_last()), item@.0, item@.1),
            None => loaded(records.drop_last()),
        }
    }
}

/// What saving `entries` does with one record: a record that parses and
/// whose path is tracked takes the tracked fingerprint; every other record
/// is kept as it is.
pub open spec fn saved(record: Record, entries: Seq<Entry>) -> Change {
    match record.parsed {
        Some(item) => match lookup(entries, item@.0) {
            Some(hash) => Change::SetHash(hash),
            None => Change::Keep,
        },
        None => Change::Keep,
    }
}

/// What is loaded is a well-formed registry.
pub proof fn lemma_loaded_well_formed(records: Seq<Record>)
    ensures
        well_formed(loaded(records)),
    decreases records.len(),
{
    if records.len() > 0 {
        lemma_loaded_well_formed(records.drop_last());
        match records.last().parsed {
            Some(item) => {
                lemma_put(loaded(records.drop_last()), item@.0, item@.1);
            },
            None => {},
        }
    }
}

/// Every record that parses with an absolute path is tracked after loading.
pub proof fn lemma_loaded_tracks(records: Seq<Record>, i: int)
    requires
        0 <= i < records.len(),
        records[i].parsed matches Some(item) && is_absolute(item@.0),
    ensures
        lookup(loaded(records), records[i].parsed->0@.0) is Some,
    decreases records.len(),
{
    let path = records[i].parsed->0@.0;
    let front = records.drop_last();
    lemma_loaded_well_formed(front);
    if i < records.len() - 1 {
        assert(front[i] == records[i]);
        lemma_loaded_tracks(front, i);
    }
    match records.last().parsed {
        Some(item) => {
            lemma_put(loaded(front), item@.0, item@.1);
        },
        None => {},
    }
}

/// Builds the registry from the records of the store.
pub fn load(records: &Vec<Record>) -> (registry: Registry)
    ensures
        registry.wf(),
        registry.entries() == loaded(records@),
{
    let mut registry = Registry::new();
    let n: usize = records.len();
    let mut i: usize = 0;
    assert(records@.take(0) =~= Seq::<Record>::empty());
    while i < n
        invariant
            i <= n,
            n == records@.len(),
            registry.wf(),
            registry.entries() == loaded(records@.take(i as int)),
        decreases n - i,
    {
        proof {
            let next = records@.take(i + 1);
            assert(next.drop_last() =~= records@.take(i as int));
            assert(next.last() == records@[i as int]);
        }
        match &records[i].parsed {
            Some(item) => {
                registry.insert(item.path(), item.hash());
            },
            None => {},
        }
        i += 1;
    }
    assert(records@.take(n as int) =~= records@);
    registry
}

/// Decides, record by record, what is written back to the store when
/// `registry` is saved.
pub fn save(records: &Vec<Record>, registry: &Registry) -> (updates: Vec<Update>)
    requires
        registry.wf(),
    ensures
        updates@.len() == records@.len(),
        forall|i: int|
            0 <= i < records@.len() ==> (#[trigger] updates@[i])@ == saved(
                records@[i],
                registry.entries(),
            ),
{
    let mut updates: Vec<Update> = Vec::new();
    let n: usize = records.len();
    let mut i: usize = 0;
    while i < n
        invariant
            i <= n,
            n == records@.len(),
            registry.wf(),
            updates@.len() == i,
            forall|k: int|
                0 <= k < i ==> (#[trigger] updates@[k])@ == saved(records@[k], registry.entries()),
        decreases n - i,
    {
        let update = match &records[i].parsed {
            Some(item) => match registry.get(item.path_str()) {
                Some(hash) => Update::SetHash(copy_bytes(hash)),
                None => Update::Keep,
            },
            None => Update::Keep,
        };
        updates.push(update);
        i += 1;
    }
    updates
}

/// Saving never touches a record that does not parse, nor one whose path is
/// not tracked; and a record that it does touch takes the fingerprint that
/// the registry holds for its path, nothing else.
pub proof fn lemma_save_touches_fingerprint_only(record: Record, entries: Seq<Entry>)
    requires
        well_formed(entries),
    ensures
        record.parsed is None ==> saved(record, entries) == Change::Keep,
        record.parsed matches Some(item) ==> (match saved(record, entries) {
            Change::Keep => lookup(entries, item@.0) is None,
            Change::SetHash(hash) => lookup(entries, item@.0) == Some(hash),
        }),
{
}

/// Loading a store and saving at once what was loaded: a record that does
/// not parse is kept byte for byte, and so is one whose path is not
/// absolute; every other record takes the fingerprint that was loaded for
/// its path, which is the one of the last record for that path.
pub proof fn lemma_save_after_load(records: Seq<Record>, i: int)
    requires
        0 <= i < records.len(),
    ensures
        match records[i].parsed {
            None => saved(records[i], loaded(records)) == Change::Keep,
            Some(item) => if is_absolute(item@.0) {
                &&& lookup(loaded(records), item@.0) matches Some(hash)
                &&& saved(records[i], loaded(records)) == Change::SetHash(hash)
            } else {
                saved(records[i], loaded(records)) == Change::Keep
            },
        },
{
    lemma_loaded_well_formed(records);
    match records[i].parsed {
        None => {},
        Some(item) => {
            if is_absolute(item@.0) {
                lemma_loaded_tracks(records, i);
            } else {
                let entries = loaded(records);
                if lookup(entries, item@.0) is Some {
                    let p = position(entries, item@.0);
                    assert(is_absolute(entries[p].0));
                }
            }
        },
    }
}

} // verus!
