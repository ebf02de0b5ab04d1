//! Archives in the ZIP container format.

use crate::archiver::{
    archive_plan, entry_name, entry_names, lemma_plan_prefix, Archiver, SourceEntry, Stored,
};
use crate::result::Error;
use std::io::Cursor;
use std::io::Write;
use vstd::prelude::*;
use vstd::utf8::encode_utf8;
use zip::result::ZipError;
use zip::write::FileOptions;
use zip::ZipWriter;

verus! {

/// A `zip::ZipWriter` over a `std::io::Cursor<Vec<u8>>`: a writer of ZIP
/// containers that writes into memory. Nothing of it is visible but through
/// `zip_entries` and `zip_open`.
#[verifier::external_body]
pub struct ZipBuffer {
    writer: ZipWriter<Cursor<Vec<u8>>>,
}

/// `zip::result::ZipError`, the error of the container writer, as an opaque
/// value.
#[verifier::external_type_specification]
#[verifier::external_body]
pub struct ExZipError(ZipError);

/// The entries that were written to `w` so far, in order, each with its name
/// and the data written to it.
pub uninterp spec fn zip_entries(w: ZipBuffer) -> Seq<Stored>;

/// Whether `w` still takes entries: it was not finished, and no call on it
/// failed.
pub uninterp spec fn zip_open(w: ZipBuffer) -> bool;

/// The bytes of the container that a writer produces when it is finished
/// after exactly `entries` were written to it with default options.
pub uninterp spec fn zip_container(entries: Seq<Stored>) -> Seq<u8>;

/// `ZipWriter::new` over an empty in-memory buffer: the writer holds no
/// entry and takes entries.
#[verifier::external_body]
fn zip_new() -> (w: ZipBuffer)
    ensures
        zip_open(w),
        zip_entries(w) == Seq::<Stored>::empty(),
{
    ZipBuffer { writer: ZipWriter::new(Cursor::new(Vec::new())) }
}

/// Whether `ZipWriter::start_file` with default options succeeds on a writer
/// that holds `entries`, for a new entry named `name`. The writer works in
/// memory and reads no clock, so this depends on nothing else.
pub uninterp spec fn zip_starts(entries: Seq<Stored>, name: Seq<char>) -> bool;

/// Whether `Write::write_all` succeeds on a writer that holds `entries`,
/// the last of them being written to, for `data`.
pub uninterp spec fn zip_writes(entries: Seq<Stored>, data: Seq<u8>) -> bool;

/// Whether `ZipWriter::finish` succeeds on a writer that holds `entries`.
pub uninterp spec fn zip_finishes(entries: Seq<Stored>) -> bool;

/// `ZipWriter::start_file` with `FileOptions::default()`: it succeeds
/// exactly where `zip_starts` says so, and then a new entry named `name`
/// with no data yet follows the entries written so far. Nothing is claimed
/// of the writer after a failure.
#[verifier::external_body]
fn zip_start_file(w: &mut ZipBuffer, name: &str) -> (r: Result<(), ZipError>)
    requires
        zip_open(*old(w)),
    ensures
        r is Ok <==> zip_starts(zip_entries(*old(w)), name@),
        r is Ok ==> zip_open(*final(w)) && zip_entries(*final(w)) == zip_entries(*old(w)).push(
            (name@, Seq::<u8>::empty()),
        ),
{
    w.writer.start_file(name, FileOptions::default())
}

/// `Write::write_all` on a `ZipWriter` to which an entry was started: it
/// succeeds exactly where `zip_writes` says so, and then `data` follows what
/// was written to the last entry. An I/O error is handed on as the
/// `ZipError` that it converts to.
#[verifier::external_body]
fn zip_write_all(w: &mut ZipBuffer, data: &[u8]) -> (r: Result<(), ZipError>)
    requires
        zip_open(*old(w)),
        zip_entries(*old(w)).len() > 0,
    ensures
        r is Ok <==> zip_writes(zip_entries(*old(w)), data@),
        r is Ok ==> {
            let before = zip_entries(*old(w));
            &&& zip_open(*final(w))
            &&& zip_entries(*final(w)) == before.update(
                before.len() - 1,
                (before.last().0, before.last().1 + data@),
            )
        },
{
    w.writer.write_all(data).map_err(ZipError::from)
}

/// `ZipWriter::finish`, then `Cursor::into_inner`: it succeeds exactly where
/// `zip_finishes` says so, and then gives the bytes of the finished
/// container, which depend on nothing but the entries written.
#[verifier::external_body]
fn zip_finish(w: ZipBuffer) -> (r: Result<Vec<u8>, ZipError>)
    requires
        zip_open(w),
    ensures
        r is Ok <==> zip_finishes(zip_entries(w)),
        r matches Ok(bytes) ==> bytes@ == zip_container(zip_entries(w)),
{
    let mut writer = w.writer;
    writer.finish().map(|buffer| buffer.into_inner())
}

/// The text that `ZipError` displays.
#[verifier::external_body]
fn zip_error_text(e: &ZipError) -> (text: String) {
    format!("{}", e)
}

/// The most bytes that the name of an entry may have: the container holds
/// the length of a name in sixteen bits.
pub const MAX_NAME_BYTES: usize = 65535;

/// Whether the container can hold `name`.
pub open spec fn name_fits(name: Seq<char>) -> bool {
    encode_utf8(name).len() <= MAX_NAME_BYTES
}

/// Whether the writer takes `stored`, entry by entry: each name fits, each
/// entry is started on the entries before it, and its data is written.
pub open spec fn takes_all(stored: Seq<Stored>) -> bool
    decreases stored.len(),
{
    if stored.len() == 0 {
        true
    } else {
        let before = stored.drop_last();
        let last = stored.last();
        &&& takes_all(before)
        &&& name_fits(last.0)
        &&& zip_starts(before, last.0)
        &&& zip_writes(before.push((last.0, Seq::<u8>::empty())), last.1)
    }
}

/// Whether a container with exactly `stored` comes about: the writer takes
/// every entry and finishes.
pub open spec fn accepted(stored: Seq<Stored>) -> bool {
    takes_all(stored) && zip_finishes(stored)
}

/// Where the writer takes all of `stored`, it takes the first `n` of them.
pub proof fn lemma_takes_all_prefix(stored: Seq<Stored>, n: int)
    requires
        0 <= n <= stored.len(),
        takes_all(stored),
    ensures
        takes_all(stored.take(n)),
    decreases stored.len(),
{
    if n == stored.len() {
        assert(stored.take(n) =~= stored);
    } else {
        assert(stored.drop_last().take(n) =~= stored.take(n));
        lemma_takes_all_prefix(stored.drop_last(), n);
    }
}

/// The archiver that writes ZIP containers.
#[derive(Clone, Copy, Debug)]
pub struct ZIP;

impl Default for ZIP {
    fn default() -> (zip: Self) {
        ZIP
    }
}

impl Archiver for ZIP {
    /// The archive holds every regular file among `found`, each under its
    /// name relative to `src`, and a single file under its base name. The
    /// result is `Error::WalkDir` exactly where a regular file lies outside
    /// `src`. Otherwise it is the container exactly where the container
    /// comes about, and `Error::Zip` where it does not: where a name is too
    /// long for the container, or the writer refuses an entry.
    open spec fn packs(
        &self,
        src: Seq<char>,
        found: Seq<SourceEntry>,
        r: Result<Vec<u8>, Error>,
    ) -> bool {
        match r {
            Ok(bytes) => {
                &&& archive_plan(src, found) matches Some(stored)
                &&& accepted(stored)
                &&& bytes@ == zip_container(stored)
            },
            Err(Error::WalkDir(_)) => archive_plan(src, found) is None,
            Err(Error::Zip(_)) => {
                &&& archive_plan(src, found) matches Some(stored)
                &&& !accepted(stored)
            },
            Err(_) => false,
        }
    }

    /// Packs every regular file among `found` into a ZIP container. Nothing
    /// is written where a regular file lies outside `src`.
    fn archive(&self, src: &str, found: &Vec<SourceEntry>) -> (r: Result<Vec<u8>, Error>) {
        let names = match entry_names(src, found) {
            None => {
                return Err(Error::WalkDir("entry outside the source".to_owned()));
            },
            Some(names) => names,
        };
        let mut w = zip_new();
        let n: usize = found.len();
        let mut i: usize = 0;
        assert(found@.take(0) =~= Seq::<SourceEntry>::empty());
        while i < n
            invariant
                i <= n,
                n == found@.len(),
                n == names@.len(),
                archive_plan(src@, found@) is Some,
                forall|k: int|
                    0 <= k < n && (#[trigger] found@[k]).is_file ==> entry_name(
                        src@,
                        found@[k].path@,
                    ) == Some(names@[k]@),
                zip_open(w),
                archive_plan(src@, found@.take(i as int)) == Some(zip_entries(w)),
                takes_all(zip_entries(w)),
            decreases n - i,
        {
            proof {
                let next = found@.take(i + 1);
                assert(next.drop_last() =~= found@.take(i as int));
                assert(next.last() == found@[i as int]);
            }
            if found[i].is_file {
                let ghost before = zip_entries(w);
                let ghost next = before.push((names@[i as int]@, found@[i as int].data@));
                proof {
                    assert(next.drop_last() =~= before);
                    assert(archive_plan(src@, found@.take(i + 1)) == Some(next));
                    lemma_plan_prefix(src@, found@, i + 1);
                    if takes_all(archive_plan(src@, found@)->0) {
                        lemma_takes_all_prefix(archive_plan(src@, found@)->0, next.len() as int);
                    }
                }
                if names[i].as_str().as_bytes().len() > MAX_NAME_BYTES {
                    return Err(Error::Zip("file name too long".to_owned()));
                }
                match zip_start_file(&mut w, names[i].as_str()) {
                    Err(e) => {
                        return Err(Error::Zip(zip_error_text(&e)));
                    },
                    Ok(_) => {},
                }
                match zip_write_all(&mut w, found[i].data.as_slice()) {
                    Err(e) => {
                        return Err(Error::Zip(zip_error_text(&e)));
                    },
                    Ok(_) => {},
                }
                assert(zip_entries(w) =~= next);
            }
            i += 1;
        }
        assert(found@.take(n as int) =~= found@);
        match zip_finish(w) {
            Ok(bytes) => Ok(bytes),
            Err(e) => Err(Error::Zip(zip_error_text(&e))),
        }
    }
}

} // verus!
