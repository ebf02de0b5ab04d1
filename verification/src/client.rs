//! Registration: what adding, removing and listing tracked paths does to the
//! records of the store.

use crate::paths::{absolute, to_absolute_path};
use crate::registry::same_text;
use crate::store::Record;
use crate::{debug_text, PathItem};
use vstd::prelude::*;

verus! {

/// Whether unregistering `path` deletes `record`: it parses, and its path is
/// `path`.
pub open spec fn removed(record: Record, path: Seq<char>) -> bool {
    record.parsed matches Some(item) && item@.0 == path
}

/// The lines that list `records`: one for each record that parses, in order.
pub open spec fn listed(records: Seq<Record>) -> Seq<Seq<char>>
    decreases records.len(),
{
    if records.len() == 0 {
        Seq::empty()
    } else {
        match records.last().parsed {
            Some(item) => listed(records.drop_last()).push(
                "backuppath: "@ + debug_text(item@.0),
            ),
            None => listed(records.drop_last()),
        }
    }
}

/// The record that registers `some_path`: the path made absolute against
/// `current_dir`, with the empty fingerprint of a path never observed.
pub fn registration(current_dir: &str, some_path: &str) -> (item: PathItem)
    ensures
        item@ == (absolute(current_dir@, some_path@), Seq::<u8>::empty()),
{
    PathItem::new(to_absolute_path(current_dir, some_path), Vec::new())
}

/// Decides, record by record, which records unregistering `some_path`
/// deletes: those of the path made absolute against `current_dir`. A record
/// that does not parse stays.
pub fn removal(records: &Vec<Record>, current_dir: &str, some_path: &str) -> (deleted: Vec<bool>)
    ensures
        deleted@.len() == records@.len(),
        forall|i: int|
            0 <= i < records@.len() ==> #[trigger] deleted@[i] == removed(
                records@[i],
                absolute(current_dir@, some_path@),
            ),
{
    let path = to_absolute_path(current_dir, some_path);
    let mut deleted: Vec<bool> = Vec::new();
    let n: usize = records.len();
    let mut i: usize = 0;
    while i < n
        invariant
            i <= n,
            n == records@.len(),
            path@ == absolute(current_dir@, some_path@),
            deleted@.len() == i,
            forall|k: int| 0 <= k < i ==> #[trigger] deleted@[k] == removed(records@[k], path@),
        decreases n - i,
    {
        let hit = match &records[i].parsed {
            Some(item) => same_text(item.path_str(), path.as_str()),
            None => false,
        };
        deleted.push(hit);
        i += 1;
    }
    deleted
}

/// The lines that list the tracked paths.
pub fn listing(records: &Vec<Record>) -> (lines: Vec<String>)
    ensures
        lines@.len() == listed(records@).len(),
        forall|i: int| 0 <= i < lines@.len() ==> (#[trigger] lines@[i])@ == listed(records@)[i],
{
    let mut lines: Vec<String> = Vec::new();
    let n: usize = records.len();
    let mut i: usize = 0;
    assert(records@.take(0) =~= Seq::<Record>::empty());
    while i < n
        invariant
            i <= n,
            n == records@.len(),
            lines@.len() == listed(records@.take(i as int)).len(),
            forall|k: int|
                0 <= k < lines@.len() ==> (#[trigger] lines@[k])@ == listed(
                    records@.take(i as int),
                )[k],
        decreases n - i,
    {
        proof {
            let next = records@.take(i + 1);
            assert(next.drop_last() =~= records@.take(i as int));
            assert(next.last() == records@[i as int]);
        }
        match &records[i].parsed {
            Some(item) => {
                lines.push(item.to_string());
            },
            None => {},
        }
        i += 1;
    }
    assert(records@.take(n as int) =~= records@);
    lines
}

} // verus!
