//! Archiving: turning the files found below a source path into one archive.

use crate::paths::{
    base_name, base_name_of, is_absolute, lemma_parent_base_name, lemma_strip_root_relative,
    starts_with, strip_root, without_root,
};
use crate::registry::same_text;
use crate::result::Error;
use vstd::prelude::*;

mod zipper;

pub use self::zipper::ZIP;
pub use self::zipper::{
    accepted, name_fits, takes_all, zip_container, zip_entries, zip_finishes, zip_open, zip_starts,
    zip_writes, ZipBuffer, MAX_NAME_BYTES,
};

verus! {

/// One entry that a walk over the source yielded: its path, whether it is a
/// regular file, and for a regular file what it holds.
#[derive(Debug)]
pub struct SourceEntry {
    /// The entry's path, as the walk yielded it.
    pub path: String,
    pub is_file: bool,
    pub data: Vec<u8>,
}

/// One entry of an archive as a value: its name and what it holds.
pub type Stored = (Seq<char>, Seq<u8>);

/// Whether `path` lies below the directory `src`: it begins with `src`, and
/// a separator stands where the two meet.
pub open spec fn lies_below(src: Seq<char>, path: Seq<char>) -> bool {
    &&& src.is_prefix_of(path)
    &&& src.len() < path.len()
    &&& (src.len() > 0 && src.last() == '/') || path[src.len() as int] == '/'
}

/// The name under which the file at `path` is stored when `src` is archived.
/// The source itself, archived as a single file, goes by its own base name; a
/// file below the source goes by its path relative to the source, with `/`
/// between the components. A path that is neither has no name.
pub open spec fn entry_name(src: Seq<char>, path: Seq<char>) -> Option<Seq<char>> {
    if path == src {
        Some(base_name(src))
    } else if lies_below(src, path) {
        Some(strip_root(path.skip(src.len() as int)))
    } else {
        None
    }
}

/// The names in an archive are relative: none begins at the root, and the
/// name of a source archived as a single file has no separator in it.
pub proof fn lemma_entry_name_relative(src: Seq<char>, path: Seq<char>)
    ensures
        entry_name(src, path) matches Some(name) ==> !is_absolute(name),
        path == src ==> (entry_name(src, path) matches Some(name) && !name.contains('/')),
{
    lemma_parent_base_name(src);
    lemma_strip_root_relative(path.skip(src.len() as int));
    if path == src {
        let name = base_name(src);
        if is_absolute(name) {
            assert(name[0] == '/');
        }
    }
}

/// What an archive of `src` holds when the walk yielded `found`: one entry
/// for each regular file, in the order of the walk. Directories and other
/// entries are not stored. There is no archive where a regular file lies
/// outside the source.
pub open spec fn archive_plan(src: Seq<char>, found: Seq<SourceEntry>) -> Option<Seq<Stored>>
    decreases found.len(),
{
    if found.len() == 0 {
        Some(Seq::empty())
    } else {
        let last = found.last();
        match archive_plan(src, found.drop_last()) {
            None => None,
            Some(stored) => if !last.is_file {
                Some(stored)
            } else {
                match entry_name(src, last.path@) {
                    None => None,
                    Some(name) => Some(stored.push((name, last.data@))),
                }
            },
        }
    }
}

/// Computes the name under which the file at `path` is stored when `src` is
/// archived.
pub fn entry_name_of(src: &str, path: &str) -> (name: Option<String>)
    ensures
        match name {
            Some(n) => entry_name(src@, path@) == Some(n@),
            None => entry_name(src@, path@) is None,
        },
{
    if same_text(path, src) {
        return Some(base_name_of(src));
    }
    let n: usize = src.unicode_len();
    let m: usize = path.unicode_len();
    if !starts_with(path, src) || n >= m {
        return None;
    }
    if (n > 0 && src.get_char(n - 1) == '/') || path.get_char(n) == '/' {
        assert(path@.skip(n as int) =~= path@.subrange(n as int, m as int));
        Some(without_root(path.substring_char(n, m)))
    } else {
        None
    }
}

/// The name of every entry among `found`, place by place; an entry that is
/// not stored has an empty name. There are no names where a regular file
/// lies outside `src`.
pub fn entry_names(src: &str, found: &Vec<SourceEntry>) -> (r: Option<Vec<String>>)
    ensures
        r is Some <==> archive_plan(src@, found@) is Some,
        r matches Some(names) ==> {
            &&& names@.len() == found@.len()
            &&& forall|k: int|
                0 <= k < found@.len() ==> (#[trigger] names@[k])@ == if found@[k].is_file {
                    entry_name(src@, found@[k].path@)->0
                } else {
                    Seq::<char>::empty()
                }
            &&& forall|k: int|
                0 <= k < found@.len() && (#[trigger] found@[k]).is_file ==> entry_name(
                    src@,
                    found@[k].path@,
                ) is Some
        },
{
    let mut names: Vec<String> = Vec::new();
    let n: usize = found.len();
    let mut i: usize = 0;
    while i < n
        invariant
            i <= n,
            n == found@.len(),
            names@.len() == i,
            forall|k: int|
                0 <= k < i ==> (#[trigger] names@[k])@ == if found@[k].is_file {
                    entry_name(src@, found@[k].path@)->0
                } else {
                    Seq::<char>::empty()
                },
            forall|k: int|
                0 <= k < i && (#[trigger] found@[k]).is_file ==> entry_name(
                    src@,
                    found@[k].path@,
                ) is Some,
        decreases n - i,
    {
        if found[i].is_file {
            match entry_name_of(src, found[i].path.as_str()) {
                None => {
                    proof {
                        lemma_plan_exists(src@, found@);
                    }
                    return None;
                },
                Some(name) => {
                    names.push(name);
                },
            }
        } else {
            names.push(String::new());
        }
        i += 1;
    }
    proof {
        lemma_plan_exists(src@, found@);
    }
    Some(names)
}

/// There is an archive exactly where every regular file has a name.
pub proof fn lemma_plan_exists(src: Seq<char>, found: Seq<SourceEntry>)
    ensures
        archive_plan(src, found) is Some <==> forall|k: int|
            0 <= k < found.len() && (#[trigger] found[k]).is_file ==> entry_name(
                src,
                found[k].path@,
            ) is Some,
    decreases found.len(),
{
    if found.len() > 0 {
        let front = found.drop_last();
        lemma_plan_exists(src, front);
        assert(found[found.len() - 1] == found.last());
        assert forall|k: int| 0 <= k < front.len() implies front[k] == found[k] by {}
    }
}

/// The archive of the first `k` entries of a walk is the beginning of the
/// archive of the whole walk.
pub proof fn lemma_plan_prefix(src: Seq<char>, found: Seq<SourceEntry>, k: int)
    requires
        0 <= k <= found.len(),
        archive_plan(src, found) is Some,
    ensures
        archive_plan(src, found.take(k)) matches Some(part) && part.len() <= archive_plan(
            src,
            found,
        )->0.len() && part == archive_plan(src, found)->0.take(part.len() as int),
    decreases found.len(),
{
    let all = archive_plan(src, found)->0;
    if k == found.len() {
        assert(found.take(k) =~= found);
        assert(all.take(all.len() as int) =~= all);
    } else {
        let front = found.drop_last();
        assert(front.take(k) =~= found.take(k));
        lemma_plan_prefix(src, front, k);
        let shorter = archive_plan(src, front)->0;
        let part = archive_plan(src, front.take(k))->0;
        assert(shorter.len() <= all.len());
        assert(shorter =~= all.take(shorter.len() as int));
        assert(part =~= all.take(part.len() as int));
    }
}

/// What can turn a source and the files found below it into an archive.
pub trait Archiver {
    /// Whether `r` is a result that this archiver may give for the source
    /// `src` when the walk over it yielded `found`. An archiver that says
    /// nothing of its results may give any.
    open spec fn packs(
        &self,
        src: Seq<char>,
        found: Seq<SourceEntry>,
        r: Result<Vec<u8>, Error>,
    ) -> bool {
        true
    }

    /// Packs what a walk over `src` yielded into one archive and returns the
    /// archive's bytes.
    fn archive(&self, src: &str, found: &Vec<SourceEntry>) -> (r: Result<Vec<u8>, Error>)
        ensures
            self.packs(src@, found@, r),
    ;
}

} // verus!
