//! Fingerprints: a digest of the metadata of the regular files found below a
//! path. File contents never enter it.

use crate::text::{decimal, decimal_i64};
use crypto::digest::Digest;
use crypto::md5::Md5;
use vstd::prelude::*;
use vstd::utf8::encode_utf8;

verus! {

/// A point in time: whole seconds since the Unix epoch, and the nanoseconds
/// into that second.
#[derive(Clone, Copy, Debug)]
pub struct FileTime {
    pub secs: i64,
    pub nanos: u32,
}

/// What a walk over a tracked path found out about one entry.
#[derive(Debug)]
pub struct FileMeta {
    /// The entry's path, as the walk yielded it.
    pub path: String,
    pub created: FileTime,
    pub modified: FileTime,
    pub is_dir: bool,
    pub is_file: bool,
    pub is_symlink: bool,
    pub readonly: bool,
}

/// The number of bytes in a fingerprint.
pub const FINGERPRINT_LEN: usize = 16;

/// The MD5 digest of `data`, as the digest implementation computes it.
pub uninterp spec fn md5_of(data: Seq<u8>) -> Seq<u8>;

/// Runs `crypto::md5::Md5` over `data`: a fresh digest is fed all of `data`
/// once and its result is read into a buffer of `output_bytes()` bytes. The
/// contract names that result `md5_of(data)` and states its length, which the
/// digest fixes at 128 bits.
#[verifier::external_body]
fn md5_digest(data: &[u8]) -> (out: Vec<u8>)
    ensures
        out@ == md5_of(data@),
        out@.len() == FINGERPRINT_LEN,
{
    let mut md5 = Md5::new();
    md5.input(data);
    let mut out = vec![0u8; md5.output_bytes()];
    md5.result(&mut out);
    out
}

/// A marker line, present only where what it says of the entry holds.
pub open spec fn marker(holds: bool, line: Seq<char>) -> Seq<char> {
    if holds {
        line
    } else {
        Seq::empty()
    }
}

/// The lines that one entry contributes: its path, its creation and
/// modification times in whole seconds, and one marker line for each of
/// "directory", "file", "symbolic link" and "read-only" that applies.
pub open spec fn entry_text(m: FileMeta) -> Seq<char> {
    m.path@ + seq!['\n'] + decimal(m.created.secs as int) + seq!['\n'] + decimal(
        m.modified.secs as int,
    ) + seq!['\n'] + marker(m.is_dir, "is_dir\n"@) + marker(m.is_file, "is_file\n"@) + marker(
        m.is_symlink,
        "is_symlink\n"@,
    ) + marker(m.readonly, "readonly\n"@)
}

/// The text that is digested: the lines of every regular file among
/// `entries`, in the order of the walk. Other entries contribute nothing.
/// The order is the walk's own and need not be lexical; a walk that yields
/// the same files in another order has another fingerprint.
pub open spec fn fingerprint_text(entries: Seq<FileMeta>) -> Seq<char>
    decreases entries.len(),
{
    if entries.len() == 0 {
        Seq::empty()
    } else {
        fingerprint_text(entries.drop_last()) + marker(
            entries.last().is_file,
            entry_text(entries.last()),
        )
    }
}

/// The fingerprint of a walk that yielded `entries`.
pub open spec fn fingerprint(entries: Seq<FileMeta>) -> Seq<u8> {
    md5_of(encode_utf8(fingerprint_text(entries)))
}

/// Whether two entries agree in everything a fingerprint looks at: path,
/// times in whole seconds, kind and the read-only flag.
pub open spec fn same_metadata(a: FileMeta, b: FileMeta) -> bool {
    &&& a.path@ == b.path@
    &&& a.created.secs == b.created.secs
    &&& a.modified.secs == b.modified.secs
    &&& a.is_dir == b.is_dir
    &&& a.is_file == b.is_file
    &&& a.is_symlink == b.is_symlink
    &&& a.readonly == b.readonly
}

/// Two walks that agree entry by entry in path, times in whole seconds, kind
/// and read-only flag have the same fingerprint, whatever the files hold and
/// whatever the sub-second parts of their times are.
pub proof fn lemma_fingerprint_by_metadata(a: Seq<FileMeta>, b: Seq<FileMeta>)
    requires
        a.len() == b.len(),
        forall|i: int| 0 <= i < a.len() ==> same_metadata(#[trigger] a[i], b[i]),
    ensures
        fingerprint_text(a) == fingerprint_text(b),
        fingerprint(a) == fingerprint(b),
    decreases a.len(),
{
    if a.len() > 0 {
        assert(same_metadata(a[a.len() - 1], b[b.len() - 1]));
        lemma_fingerprint_by_metadata(a.drop_last(), b.drop_last());
    }
}

/// Appends the lines of one entry to `text`.
fn write_entry(text: &mut String, m: &FileMeta)
    ensures
        final(text)@ == old(text)@ + entry_text(*m),
{
    proof {
        reveal_strlit("\n");
    }
    let ghost before = text@;
    text.append(m.path.as_str());
    text.append("\n");
    text.append(decimal_i64(m.created.secs).as_str());
    text.append("\n");
    text.append(decimal_i64(m.modified.secs).as_str());
    text.append("\n");
    if m.is_dir {
        text.append("is_dir\n");
    }
    if m.is_file {
        text.append("is_file\n");
    }
    if m.is_symlink {
        text.append("is_symlink\n");
    }
    if m.readonly {
        text.append("readonly\n");
    }
    assert(text@ =~= before + entry_text(*m));
}

/// Computes the fingerprint of a walk that yielded `entries`.
pub fn dir_hash(entries: &Vec<FileMeta>) -> (hash: Vec<u8>)
    ensures
        hash@ == fingerprint(entries@),
        hash@.len() == FINGERPRINT_LEN,
{
    let mut text = String::new();
    let n: usize = entries.len();
    let mut i: usize = 0;
    assert(entries@.take(0) =~= Seq::<FileMeta>::empty());
    while i < n
        invariant
            i <= n,
            n == entries@.len(),
            text@ == fingerprint_text(entries@.take(i as int)),
        decreases n - i,
    {
        let ghost before = text@;
        if entries[i].is_file {
            write_entry(&mut text, &entries[i]);
        }
        proof {
            let next = entries@.take(i + 1);
            assert(next.drop_last() =~= entries@.take(i as int));
            assert(next.last() == entries@[i as int]);
            assert(text@ =~= fingerprint_text(next));
        }
        i += 1;
    }
    assert(entries@.take(n as int) =~= entries@);
    md5_digest(text.as_str().as_bytes())
}

} // verus!
