//! The errors of this crate.

use vstd::prelude::*;

verus! {

/// What went wrong, by the part that failed, with that part's own message.
#[derive(Clone, Debug, PartialEq, Eq)]
pub enum Error {
    /// The persistent store could not be opened or accessed.
    FileDB(String),
    /// A file or directory could not be read or written.
    Io(String),
    /// A persisted record is malformed.
    Json(String),
    /// A lock was left poisoned by a holder that ended abnormally.
    Poison(String),
    /// The walk over a tracked path failed or yielded an entry outside it.
    WalkDir(String),
    /// The archive container could not be written.
    Zip(String),
}

impl Error {
    /// The message of the part that failed.
    pub open spec fn message(&self) -> Seq<char> {
        match self {
            Error::FileDB(m) => m@,
            Error::Io(m) => m@,
            Error::Json(m) => m@,
            Error::Poison(m) => m@,
            Error::WalkDir(m) => m@,
            Error::Zip(m) => m@,
        }
    }

    /// The message of the part that failed.
    pub fn description(&self) -> (text: String)
        ensures
            text@ == self.message(),
    {
        match self {
            Error::FileDB(m) => m.clone(),
            Error::Io(m) => m.clone(),
            Error::Json(m) => m.clone(),
            Error::Poison(m) => m.clone(),
            Error::WalkDir(m) => m.clone(),
            Error::Zip(m) => m.clone(),
        }
    }

    /// The text shown for this error: the crate's tag, then the message.
    pub fn to_string(&self) -> (text: String)
        ensures
            text@ == "[backup-fs] "@ + self.message(),
    {
        let mut text = "[backup-fs] ".to_owned();
        text.append(self.description().as_str());
        text
    }
}

} // verus!
