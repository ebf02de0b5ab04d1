//! Change detection and archival for a small set of registered paths.

use vstd::prelude::*;

pub mod archiver;
pub mod client;
pub mod cycle;
pub mod daemon;
pub mod hash;
pub mod monitor;
pub mod paths;
pub mod registry;
pub mod result;
pub mod store;
pub mod text;

verus! {

/// A tracked path together with the fingerprint last observed for it. An
/// empty fingerprint means that the path was never observed.
#[derive(Clone, Debug, PartialEq, Eq)]
pub struct PathItem {
    path: String,
    hash: Vec<u8>,
}

impl View for PathItem {
    type V = (Seq<char>, Seq<u8>);

    closed spec fn view(&self) -> (Seq<char>, Seq<u8>) {
        (self.path@, self.hash@)
    }
}

impl PathItem {
    /// Pairs a path with a fingerprint.
    pub fn new(path: String, hash: Vec<u8>) -> (item: Self)
        ensures
            item@ == (path@, hash@),
    {
        PathItem { path, hash }
    }

    /// The tracked path.
    pub fn path(&self) -> (path: String)
        ensures
            path@ == self@.0,
    {
        self.path.clone()
    }

    /// The fingerprint last observed.
    pub fn hash(&self) -> (hash: Vec<u8>)
        ensures
            hash@ == self@.1,
    {
        copy_bytes(&self.hash)
    }

    /// Replaces the fingerprint and keeps the path.
    pub fn set_hash(&mut self, hash: Vec<u8>)
        ensures
            final(self)@ == (old(self)@.0, hash@),
    {
        self.hash = hash;
    }

    /// The line that lists this item: a label, then the path in quotes.
    pub fn to_string(&self) -> (text: String)
        ensures
            text@ == "backuppath: "@ + debug_text(self@.0),
    {
        let mut text = "backuppath: ".to_owned();
        text.append(quoted(self.path.as_str()).as_str());
        text
    }

    /// The tracked path, borrowed.
    pub fn path_str(&self) -> (path: &str)
        ensures
            path@ == self@.0,
    {
        self.path.as_str()
    }

    /// The fingerprint last observed, borrowed.
    pub fn hash_bytes(&self) -> (hash: &Vec<u8>)
        ensures
            hash@ == self@.1,
    {
        &self.hash
    }
}

impl Default for PathItem {
    /// The item with an empty path and an empty fingerprint.
    fn default() -> (item: Self)
        ensures
            item@ == (Seq::<char>::empty(), Seq::<u8>::empty()),
    {
        PathItem { path: String::new(), hash: Vec::new() }
    }
}

/// What `{:?}` prints for a string: the string in double quotes, with the
/// characters that need it escaped.
pub uninterp spec fn debug_text(s: Seq<char>) -> Seq<char>;

/// Formats `s` with `{:?}`, that is with `<str as Debug>::fmt`. The contract
/// names the text that comes out `debug_text(s)`.
#[verifier::external_body]
fn quoted(s: &str) -> (text: String)
    ensures
        text@ == debug_text(s@),
{
    format!("{:?}", s)
}

/// A copy of `bytes`.
pub fn copy_bytes(bytes: &Vec<u8>) -> (copy: Vec<u8>)
    ensures
        copy@ == bytes@,
{
    let mut copy: Vec<u8> = Vec::new();
    let n: usize = bytes.len();
    let mut i: usize = 0;
    while i < n
        invariant
            i <= n,
            n == bytes@.len(),
            copy@ == bytes@.take(i as int),
        decreases n - i,
    {
        copy.push(bytes[i]);
        assert(copy@ =~= bytes@.take(i + 1));
        i += 1;
    }
    assert(bytes@.take(n as int) =~= bytes@);
    copy
}

/// Whether two byte strings are the same.
pub fn same_bytes(a: &Vec<u8>, b: &Vec<u8>) -> (same: bool)
    ensures
        same == (a@ == b@),
{
    let n: usize = a.len();
    if b.len() != n {
        return false;
    }
    let mut i: usize = 0;
    while i < n
        invariant
            i <= n,
            n == a@.len(),
            n == b@.len(),
            forall|k: int| 0 <= k < i ==> a@[k] == b@[k],
        decreases n - i,
    {
        if a[i] != b[i] {
            return false;
        }
        i += 1;
    }
    assert(a@ =~= b@);
    true
}

} // verus!
