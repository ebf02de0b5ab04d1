//! The monitor: one poll cycle over the tracked paths, as a machine that the
//! caller drives. The monitor decides; the caller touches the disk. For each
//! request the caller does what is asked and reports back.
//!
//! The tracked paths are dealt with one after another, in the order of the
//! registry. Nothing bounds the time that the caller takes over one path, so
//! a path that stalls holds up the ones behind it.

use crate::archiver::{Archiver, SourceEntry};
use crate::hash::{dir_hash, fingerprint, FileMeta};
use crate::paths::{join, join_paths, parent, parent_of, strip_root, without_root};
use crate::registry::{entries_of, well_formed, Entry, Registry};
use crate::result::Error;
use crate::text::{decimal_u64, digits, lemma_digits_injective, lemma_digits_len};
use crate::{same_bytes, PathItem};
use vstd::prelude::*;

verus! {

/// What the caller found on disk for one tracked path.
#[derive(Debug)]
pub struct Observation {
    /// What the walk over the path yielded, or nothing where the observation
    /// failed: the path itself could not be walked, as when it no longer
    /// exists, or a yielded file could not be opened or inspected.
    pub entries: Option<Vec<FileMeta>>,
    /// Whether the tracked path names a regular file.
    pub is_file: bool,
}

/// What the caller reports to the monitor.
#[derive(Debug)]
pub enum Report {
    /// It is time for a poll cycle.
    Tick,
    /// The path asked for was observed.
    Observed(Observation),
    /// The source asked for was read: what the walk over it yielded, or
    /// nothing where it could not be read.
    Collected(Option<Vec<SourceEntry>>),
    /// Whether the archive asked for was written.
    Written(bool),
}

/// What a report comes to, once fingerprints are computed and the archiver
/// has run.
#[derive(Debug)]
pub enum Event {
    /// It is time for a poll cycle.
    Tick,
    /// The path asked for was observed, with this fingerprint; an empty one
    /// where the observation failed. `clock` is the reading of a nanosecond
    /// counter, taken when the observation came in.
    Observed { hash: Vec<u8>, is_file: bool, clock: u64 },
    /// The archive of the source asked for, or nothing where the source
    /// could not be read or the archiver failed.
    Packed(Option<Vec<u8>>),
    /// Whether the archive asked for was written.
    Written(bool),
}

/// What the monitor asks the caller to do next.
#[derive(Debug, PartialEq, Eq)]
pub enum Action {
    /// Walk `path`, inspect what the walk yields, and report `Observed`.
    Observe { path: String },
    /// Read the regular files below `source` and report `Collected`.
    Collect { source: String },
    /// Create the directory `dir` with every missing directory above it,
    /// write `bytes` to `file`, and report `Written`.
    Write { dir: String, file: String, bytes: Vec<u8> },
    /// The cycle is over; `changed` paths were archived.
    Done { changed: usize },
    /// The report did not answer what was asked; nothing changed.
    Ignored,
}

/// An action as a value.
pub enum Request {
    Observe { path: Seq<char> },
    Collect { source: Seq<char> },
    Write { dir: Seq<char>, file: Seq<char>, bytes: Seq<u8> },
    Done { changed: nat },
    Ignored,
}

impl View for Action {
    type V = Request;

    open spec fn view(&self) -> Request {
        match self {
            Action::Observe { path } => Request::Observe { path: path@ },
            Action::Collect { source } => Request::Collect { source: source@ },
            Action::Write { dir, file, bytes } => Request::Write {
                dir: dir@,
                file: file@,
                bytes: bytes@,
            },
            Action::Done { changed } => Request::Done { changed: *changed as nat },
            Action::Ignored => Request::Ignored,
        }
    }
}

/// Where the monitor stands in a cycle.
#[derive(Clone, Copy, Debug, PartialEq, Eq, Structural)]
pub enum Phase {
    /// No cycle is under way.
    Idle,
    /// The path at the cursor is being observed.
    Observing,
    /// The path at the cursor has changed and its files are being read.
    Collecting,
    /// The archive of the path at the cursor is being written.
    Writing,
}

/// The monitor as a value.
pub struct MonitorState {
    /// The registry, in order.
    pub entries: Seq<Entry>,
    /// The destination root.
    pub destination: Seq<char>,
    pub phase: Phase,
    /// The place of the path that the cycle has reached.
    pub cursor: nat,
    /// How many paths were archived in this cycle so far; while idle, in the
    /// last cycle.
    pub count: nat,
    /// Where the pending archive goes: its directory, and its file.
    pub dir: Seq<char>,
    pub file: Seq<char>,
}

/// The directory below the destination root that mirrors a tracked path: the
/// path without its root, or the directory holding it where it names a file.
pub open spec fn archive_dir(destination: Seq<char>, path: Seq<char>, is_file: bool) -> Seq<char> {
    let rel = strip_root(path);
    join(
        destination,
        if is_file {
            parent(rel)
        } else {
            rel
        },
    )
}

/// The name of an archive made at clock reading `clock`.
pub open spec fn archive_name(clock: u64) -> Seq<char> {
    digits(clock as nat) + ".zip"@
}

/// The file that an archive of a tracked path goes to.
pub open spec fn archive_file(
    destination: Seq<char>,
    path: Seq<char>,
    is_file: bool,
    clock: u64,
) -> Seq<char> {
    join(archive_dir(destination, path, is_file), archive_name(clock))
}

/// An archive never leaves the destination root: its directory lies at or
/// below the root, and its file lies in that directory.
pub proof fn lemma_archive_below_destination(
    destination: Seq<char>,
    path: Seq<char>,
    is_file: bool,
    clock: u64,
)
    requires
        destination.len() > 0,
    ensures
        destination.is_prefix_of(archive_dir(destination, path, is_file)),
        archive_dir(destination, path, is_file).is_prefix_of(
            archive_file(destination, path, is_file, clock),
        ),
        destination.is_prefix_of(archive_file(destination, path, is_file, clock)),
{
    lemma_digits_len(clock as nat);
    let dir = archive_dir(destination, path, is_file);
    let file = archive_file(destination, path, is_file, clock);
    assert(destination.is_prefix_of(dir));
    assert(dir.len() > 0);
    assert(archive_name(clock).len() > 0);
    assert(dir.is_prefix_of(file));
}

/// Archives of one tracked path made at different clock readings go to
/// different files.
pub proof fn lemma_archive_files_differ(
    destination: Seq<char>,
    path: Seq<char>,
    is_file: bool,
    first: u64,
    second: u64,
)
    requires
        first != second,
    ensures
        archive_file(destination, path, is_file, first) != archive_file(
            destination,
            path,
            is_file,
            second,
        ),
{
    let dir = archive_dir(destination, path, is_file);
    let a = archive_name(first);
    let b = archive_name(second);
    lemma_digits_len(first as nat);
    lemma_digits_len(second as nat);
    if a == b {
        let ext = ".zip"@;
        assert(a.subrange(0, a.len() - ext.len()) =~= digits(first as nat));
        assert(b.subrange(0, b.len() - ext.len()) =~= digits(second as nat));
        lemma_digits_injective(first as nat, second as nat);
    }
    if join(dir, a) == join(dir, b) {
        let fa = join(dir, a);
        let fb = join(dir, b);
        if dir.len() == 0 {
            assert(fa == a && fb == b);
        } else if dir.last() == '/' {
            assert(fa.subrange(dir.len() as int, fa.len() as int) =~= a);
            assert(fb.subrange(dir.len() as int, fb.len() as int) =~= b);
        } else {
            assert(fa.subrange(dir.len() as int + 1, fa.len() as int) =~= a);
            assert(fb.subrange(dir.len() as int + 1, fb.len() as int) =~= b);
        }
    }
}

/// The start of a cycle: the first tracked path is to be observed, or the
/// cycle is over at once where nothing is tracked.
pub open spec fn begin(s: MonitorState) -> (MonitorState, Request) {
    if s.entries.len() > 0 {
        (
            MonitorState { phase: Phase::Observing, cursor: 0, count: 0, ..s },
            Request::Observe { path: s.entries[0].0 },
        )
    } else {
        (MonitorState { phase: Phase::Idle, cursor: 0, count: 0, ..s }, Request::Done { changed: 0 })
    }
}

/// The path at the cursor is dealt with: the next one is to be observed, or
/// the cycle is over.
pub open spec fn move_on(s: MonitorState) -> (MonitorState, Request) {
    let cursor = s.cursor + 1;
    if cursor < s.entries.len() {
        (
            MonitorState { phase: Phase::Observing, cursor, ..s },
            Request::Observe { path: s.entries[cursor as int].0 },
        )
    } else {
        (MonitorState { phase: Phase::Idle, cursor, ..s }, Request::Done { changed: s.count })
    }
}

/// One step of the monitor: the state after `event`, and what is asked next.
///
/// A path whose fingerprint is the one held is passed over. A path whose
/// fingerprint differs takes the new fingerprint at once, whether or not its
/// archive succeeds later, and its files are asked for. A source that was
/// packed is to be written; one that was not is given up for this cycle. A
/// path counts as changed once its archive was written. An event that does
/// not answer what was asked changes nothing.
pub open spec fn step(s: MonitorState, event: Event) -> (MonitorState, Request) {
    match (s.phase, event) {
        (Phase::Idle, Event::Tick) => begin(s),
        (Phase::Observing, Event::Observed { hash, is_file, clock }) => {
            let held = s.entries[s.cursor as int];
            if hash@ == held.1 {
                move_on(s)
            } else {
                (
                    MonitorState {
                        entries: s.entries.update(s.cursor as int, (held.0, hash@)),
                        phase: Phase::Collecting,
                        dir: archive_dir(s.destination, held.0, is_file),
                        file: archive_file(s.destination, held.0, is_file, clock),
                        ..s
                    },
                    Request::Collect { source: held.0 },
                )
            }
        },
        (Phase::Collecting, Event::Packed(Some(bytes))) => (
            MonitorState { phase: Phase::Writing, ..s },
            Request::Write { dir: s.dir, file: s.file, bytes: bytes@ },
        ),
        (Phase::Collecting, Event::Packed(None)) => move_on(s),
        (Phase::Writing, Event::Written(ok)) => move_on(
            MonitorState {
                count: if ok {
                    s.count + 1
                } else {
                    s.count
                },
                ..s
            },
        ),
        _ => (s, Request::Ignored),
    }
}

/// The invariant of a monitor's state: the registry is well formed, and
/// within a cycle the cursor stands on a tracked path and no more paths were
/// counted than were passed.
pub open spec fn state_ok(s: MonitorState) -> bool {
    &&& well_formed(s.entries)
    &&& s.entries.len() <= usize::MAX
    &&& s.phase != Phase::Idle ==> s.cursor < s.entries.len()
    &&& s.phase == Phase::Idle ==> s.cursor <= s.entries.len()
    &&& s.count <= s.cursor
}

/// Every step keeps the invariant, keeps the tracked paths and their order,
/// and keeps the destination root.
pub proof fn lemma_step_keeps(s: MonitorState, event: Event)
    requires
        state_ok(s),
    ensures
        state_ok(step(s, event).0),
        step(s, event).0.destination == s.destination,
        step(s, event).0.entries.len() == s.entries.len(),
        forall|i: int|
            0 <= i < s.entries.len() ==> (#[trigger] step(s, event).0.entries[i]).0
                == s.entries[i].0,
{
    let after = step(s, event).0;
    assert forall|i: int| 0 <= i < s.entries.len() implies (#[trigger] after.entries[i]).0
        == s.entries[i].0 by {}
}

/// The fingerprint that an observation comes to: that of what the walk
/// yielded, or the empty one where the observation failed.
pub open spec fn seen_hash(seen: Observation) -> Seq<u8> {
    match seen.entries {
        Some(entries) => fingerprint(entries@),
        None => Seq::empty(),
    }
}

/// Whether `event` is what `report` comes to for a monitor in state `s` that
/// packs with `archiver`. An observation comes with whatever the clock
/// reads. A source that was read is handed to the archiver together with the
/// path at the cursor, and the event holds what the archiver gave: the
/// archive, or nothing where it failed.
pub open spec fn comes_to<A: Archiver>(
    archiver: A,
    s: MonitorState,
    report: Report,
    event: Event,
) -> bool {
    match (report, event) {
        (Report::Tick, Event::Tick) => true,
        (Report::Observed(seen), Event::Observed { hash, is_file, clock }) => {
            &&& hash@ == seen_hash(seen)
            &&& is_file == seen.is_file
        },
        (Report::Collected(Some(found)), Event::Packed(Some(bytes))) => {
            &&& s.phase == Phase::Collecting
            &&& archiver.packs(s.entries[s.cursor as int].0, found@, Ok(bytes))
        },
        (Report::Collected(Some(found)), Event::Packed(None)) => s.phase == Phase::Collecting
            ==> exists|e: Error| archiver.packs(s.entries[s.cursor as int].0, found@, Err(e)),
        (Report::Collected(None), Event::Packed(None)) => true,
        (Report::Written(a), Event::Written(b)) => a == b,
        _ => false,
    }
}

/// `time::precise_time_ns`: the value of a high-resolution counter in
/// nanoseconds since an unspecified epoch. Nothing is claimed of it.
#[verifier::external_body]
fn clock_now() -> (clock: u64) {
    time::precise_time_ns()
}

/// Watches a set of tracked paths and has the changed ones archived below a
/// destination root.
///
/// Known hazard: the archives mirror the tracked paths below the destination
/// root. Where the destination root itself lies inside a tracked path, every
/// archive written is seen as a change in the next cycle, and archiving
/// never comes to rest.
pub struct Monitor<A: Archiver> {
    paths: Registry,
    archiver: A,
    destination: String,
    phase: Phase,
    cursor: usize,
    count: usize,
    dir: String,
    file: String,
}

impl<A: Archiver> Monitor<A> {
    /// The monitor as a value.
    pub closed spec fn view(&self) -> MonitorState {
        MonitorState {
            entries: self.paths.entries(),
            destination: self.destination@,
            phase: self.phase,
            cursor: self.cursor as nat,
            count: self.count as nat,
            dir: self.dir@,
            file: self.file@,
        }
    }

    /// The archiver that the monitor packs with.
    pub closed spec fn archiver(&self) -> A {
        self.archiver
    }

    /// The monitor's invariant.
    pub open spec fn wf(&self) -> bool {
        state_ok(self@)
    }

    /// A monitor over `paths` that archives below `destination`. No cycle is
    /// under way.
    pub fn new(archiver: A, paths: Registry, destination: String) -> (monitor: Self)
        requires
            paths.wf(),
        ensures
            monitor.wf(),
            monitor.archiver() == archiver,
            monitor@.entries == paths.entries(),
            monitor@.destination == destination@,
            monitor@.phase == Phase::Idle,
            monitor@.cursor == 0,
            monitor@.count == 0,
    {
        let n: usize = paths.len();
        Monitor {
            paths,
            archiver,
            destination,
            phase: Phase::Idle,
            cursor: 0,
            count: 0,
            dir: String::new(),
            file: String::new(),
        }
    }

    /// Replaces the registry. A cycle under way is abandoned.
    pub fn set_paths(&mut self, paths: Registry)
        requires
            paths.wf(),
        ensures
            final(self).wf(),
            final(self).archiver() == old(self).archiver(),
            final(self)@ == (MonitorState {
                entries: paths.entries(),
                phase: Phase::Idle,
                cursor: 0,
                count: 0,
                ..old(self)@
            }),
    {
        let n: usize = paths.len();
        self.paths = paths;
        self.phase = Phase::Idle;
        self.cursor = 0;
        self.count = 0;
    }

    /// The tracked paths with the fingerprints held for them, in order.
    pub fn get_paths_iter(&self) -> (items: Vec<PathItem>)
        ensures
            entries_of(items@) == self@.entries,
    {
        self.paths.items()
    }

    /// The registry.
    pub fn paths(&self) -> (paths: &Registry)
        requires
            self.wf(),
        ensures
            paths.wf(),
            paths.entries() == self@.entries,
    {
        &self.paths
    }

    /// The destination root.
    pub fn destination(&self) -> (destination: &str)
        ensures
            destination@ == self@.destination,
    {
        self.destination.as_str()
    }

    /// Where the monitor stands in a cycle.
    pub fn phase(&self) -> (phase: Phase)
        ensures
            phase == self@.phase,
    {
        self.phase
    }

    /// Starts a cycle.
    fn start(&mut self) -> (action: Action)
        requires
            old(self).wf(),
        ensures
            final(self).wf(),
            final(self).archiver() == old(self).archiver(),
            (final(self)@, action@) == begin(old(self)@),
    {
        self.cursor = 0;
        self.count = 0;
        if self.paths.len() > 0 {
            self.phase = Phase::Observing;
            Action::Observe { path: self.paths.item_at(0).path() }
        } else {
            self.phase = Phase::Idle;
            Action::Done { changed: 0 }
        }
    }

    /// Leaves the path at the cursor behind.
    fn proceed(&mut self) -> (action: Action)
        requires
            well_formed(old(self)@.entries),
            old(self)@.cursor < old(self)@.entries.len(),
            old(self)@.count <= old(self)@.cursor + 1,
        ensures
            final(self).wf(),
            final(self).archiver() == old(self).archiver(),
            (final(self)@, action@) == move_on(old(self)@),
    {
        let n: usize = self.paths.len();
        self.cursor = self.cursor + 1;
        if self.cursor < n {
            self.phase = Phase::Observing;
            Action::Observe { path: self.paths.item_at(self.cursor).path() }
        } else {
            self.phase = Phase::Idle;
            Action::Done { changed: self.count }
        }
    }

    /// Takes one step: moves to the state that follows `event`, and returns
    /// what is asked of the caller next.
    pub fn advance(&mut self, event: Event) -> (action: Action)
        requires
            old(self).wf(),
        ensures
            final(self).wf(),
            final(self).archiver() == old(self).archiver(),
            (final(self)@, action@) == step(old(self)@, event),
    {
        proof {
            lemma_step_keeps(self@, event);
        }
        match event {
            Event::Tick => {
                if self.phase == Phase::Idle {
                    self.start()
                } else {
                    Action::Ignored
                }
            },
            Event::Observed { hash, is_file, clock } => {
                if self.phase != Phase::Observing {
                    return Action::Ignored;
                }
                let held = self.paths.item_at(self.cursor);
                if same_bytes(&hash, held.hash_bytes()) {
                    return self.proceed();
                }
                let source = held.path();
                let rel = without_root(source.as_str());
                let below = if is_file {
                    parent_of(rel.as_str())
                } else {
                    rel
                };
                let dir = join_paths(self.destination.as_str(), below.as_str());
                let mut name = decimal_u64(clock);
                name.append(".zip");
                let file = join_paths(dir.as_str(), name.as_str());
                self.paths.set_hash_at(self.cursor, hash);
                self.dir = dir;
                self.file = file;
                self.phase = Phase::Collecting;
                Action::Collect { source }
            },
            Event::Packed(packed) => {
                if self.phase != Phase::Collecting {
                    return Action::Ignored;
                }
                match packed {
                    Some(bytes) => {
                        self.phase = Phase::Writing;
                        Action::Write { dir: self.dir.clone(), file: self.file.clone(), bytes }
                    },
                    None => self.proceed(),
                }
            },
            Event::Written(ok) => {
                if self.phase != Phase::Writing {
                    return Action::Ignored;
                }
                if ok {
                    self.count = self.count + 1;
                }
                self.proceed()
            },
        }
    }

    /// Takes one step on the caller's report: computes the fingerprint of an
    /// observation and reads the clock for it, has the archiver pack a
    /// source that was read, and advances on the event that this comes to.
    ///
    /// An observation that failed counts as the empty fingerprint. A source
    /// that could not be read, or that the archiver could not pack, is given
    /// up for this cycle; the cycle goes on with the next path.
    pub fn now(&mut self, report: Report) -> (action: Action)
        requires
            old(self).wf(),
        ensures
            final(self).wf(),
            final(self).archiver() == old(self).archiver(),
            exists|event: Event|
                comes_to(old(self).archiver(), old(self)@, report, event) && (final(self)@, action@)
                    == step(old(self)@, event),
    {
        let event = match report {
            Report::Tick => Event::Tick,
            Report::Observed(seen) => {
                let hash = match &seen.entries {
                    Some(entries) => dir_hash(entries),
                    None => Vec::new(),
                };
                Event::Observed { hash, is_file: seen.is_file, clock: clock_now() }
            },
            Report::Collected(None) => Event::Packed(None),
            Report::Collected(Some(found)) => {
                if self.phase == Phase::Collecting {
                    let source = self.paths.item_at(self.cursor).path_str();
                    match self.archiver.archive(source, &found) {
                        Ok(bytes) => Event::Packed(Some(bytes)),
                        Err(e) => {
                            assert(self.archiver.packs(source@, found@, Err(e)));
                            Event::Packed(None)
                        },
                    }
                } else {
                    Event::Packed(None)
                }
            },
            Report::Written(ok) => Event::Written(ok),
        };
        assert(comes_to(self.archiver, self@, report, event));
        self.advance(event)
    }
}

} // verus!
