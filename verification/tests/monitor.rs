use backupfs::archiver::{Archiver, SourceEntry, ZIP};
use backupfs::hash::{dir_hash, FileMeta, FileTime};
use backupfs::monitor::{Action, Event, Monitor, Observation, Phase, Report};
use backupfs::registry::Registry;
use backupfs::result::Error;
use backupfs::PathItem;
use std::io::Cursor;

struct Failing;

impl Archiver for Failing {
    fn archive(&self, _src: &str, _found: &Vec<SourceEntry>) -> Result<Vec<u8>, Error> {
        Err(Error::Zip("cannot pack".to_string()))
    }
}

fn meta(path: &str, modified: i64) -> FileMeta {
    FileMeta {
        path: path.to_string(),
        created: FileTime { secs: 100, nanos: 0 },
        modified: FileTime { secs: modified, nanos: 0 },
        is_dir: false,
        is_file: true,
        is_symlink: false,
        readonly: false,
    }
}

fn seen(entries: Vec<FileMeta>, is_file: bool) -> Report {
    Report::Observed(Observation { entries: Some(entries), is_file })
}

fn is_stamp(name: &str) -> bool {
    match name.strip_suffix(".zip") {
        Some(stamp) => !stamp.is_empty() && stamp.chars().all(|c| c.is_ascii_digit()),
        None => false,
    }
}

fn source(path: &str, data: &[u8]) -> SourceEntry {
    SourceEntry { path: path.to_string(), is_file: true, data: data.to_vec() }
}

fn registry(items: &[(&str, Vec<u8>)]) -> Registry {
    let mut registry = Registry::new();
    for (path, hash) in items {
        assert!(registry.insert(path.to_string(), hash.clone()));
    }
    registry
}

fn names_in(bytes: &[u8]) -> Vec<String> {
    let mut archive = zip::ZipArchive::new(Cursor::new(bytes.to_vec())).unwrap();
    let mut names = Vec::new();
    for i in 0..archive.len() {
        names.push(archive.by_index(i).unwrap().name().to_string());
    }
    names
}

#[test]
fn cycle_over_nothing_is_done_at_once() {
    let mut monitor = Monitor::new(ZIP, Registry::new(), "/backup".to_string());
    assert_eq!(monitor.now(Report::Tick), Action::Done { changed: 0 });
    assert_eq!(monitor.phase(), Phase::Idle);
}

#[test]
fn changed_directory_is_archived_below_the_destination() {
    let f0 = dir_hash(&vec![meta("/data/project/a.txt", 1000)]);
    let walk = vec![meta("/data/project/a.txt", 2000)];
    let f1 = dir_hash(&walk);
    assert_ne!(f0, f1);
    let mut monitor =
        Monitor::new(ZIP, registry(&[("/data/project", f0)]), "/backup".to_string());

    assert_eq!(monitor.now(Report::Tick), Action::Observe { path: "/data/project".to_string() });
    assert_eq!(
        monitor.now(seen(walk, false)),
        Action::Collect { source: "/data/project".to_string() }
    );
    assert_eq!(monitor.get_paths_iter(), vec![PathItem::new("/data/project".to_string(), f1.clone())]);

    let found = vec![source("/data/project/a.txt", b"alpha")];
    match monitor.now(Report::Collected(Some(found))) {
        Action::Write { dir, file, bytes } => {
            assert_eq!(dir, "/backup/data/project");
            assert!(is_stamp(file.strip_prefix("/backup/data/project/").unwrap()));
            assert_eq!(names_in(&bytes), vec!["a.txt".to_string()]);
        },
        other => panic!("unexpected action {:?}", other),
    }
    assert_eq!(monitor.phase(), Phase::Writing);
    assert_eq!(monitor.now(Report::Written(true)), Action::Done { changed: 1 });
    assert_eq!(monitor.phase(), Phase::Idle);
    assert_eq!(monitor.get_paths_iter(), vec![PathItem::new("/data/project".to_string(), f1)]);
}

#[test]
fn second_cycle_without_change_counts_nothing() {
    let walk = || vec![meta("/data/project/a.txt", 2000)];
    let mut monitor =
        Monitor::new(ZIP, registry(&[("/data/project", Vec::new())]), "/backup".to_string());
    monitor.now(Report::Tick);
    monitor.now(seen(walk(), false));
    monitor.now(Report::Collected(Some(vec![source("/data/project/a.txt", b"alpha")])));
    assert_eq!(monitor.now(Report::Written(true)), Action::Done { changed: 1 });

    assert_eq!(monitor.now(Report::Tick), Action::Observe { path: "/data/project".to_string() });
    assert_eq!(monitor.now(seen(walk(), false)), Action::Done { changed: 0 });
}

#[test]
fn unreadable_path_is_given_up_and_the_cycle_goes_on() {
    let f0 = dir_hash(&vec![meta("/gone/a.txt", 1)]);
    let fq = dir_hash(&vec![meta("/kept/q.txt", 1)]);
    let mut monitor = Monitor::new(
        ZIP,
        registry(&[("/gone", f0), ("/kept", fq.clone())]),
        "/backup".to_string(),
    );
    assert_eq!(monitor.now(Report::Tick), Action::Observe { path: "/gone".to_string() });
    let failed = Report::Observed(Observation { entries: None, is_file: false });
    assert_eq!(monitor.now(failed), Action::Collect { source: "/gone".to_string() });
    assert_eq!(monitor.get_paths_iter()[0], PathItem::new("/gone".to_string(), Vec::new()));
    assert_eq!(
        monitor.now(Report::Collected(None)),
        Action::Observe { path: "/kept".to_string() }
    );
    assert_eq!(
        monitor.now(seen(vec![meta("/kept/q.txt", 1)], false)),
        Action::Done { changed: 0 }
    );
    assert_eq!(
        monitor.get_paths_iter(),
        vec![PathItem::new("/gone".to_string(), Vec::new()), PathItem::new("/kept".to_string(), fq)]
    );
}

#[test]
fn failed_observation_of_a_path_never_observed_is_no_change() {
    let mut monitor = Monitor::new(ZIP, registry(&[("/gone", Vec::new())]), "/backup".to_string());
    monitor.now(Report::Tick);
    let failed = Report::Observed(Observation { entries: None, is_file: false });
    assert_eq!(monitor.now(failed), Action::Done { changed: 0 });
}

#[test]
fn failed_write_is_not_counted() {
    let mut monitor = Monitor::new(
        ZIP,
        registry(&[("/a", Vec::new()), ("/b", Vec::new())]),
        "/backup".to_string(),
    );
    monitor.now(Report::Tick);
    monitor.now(seen(vec![meta("/a/x", 1)], false));
    monitor.now(Report::Collected(Some(vec![source("/a/x", b"1")])));
    assert_eq!(monitor.now(Report::Written(false)), Action::Observe { path: "/b".to_string() });
    monitor.now(seen(vec![meta("/b/y", 1)], false));
    monitor.now(Report::Collected(Some(vec![source("/b/y", b"2")])));
    assert_eq!(monitor.now(Report::Written(true)), Action::Done { changed: 1 });
}

#[test]
fn failing_archiver_is_not_counted_but_fingerprint_is_kept() {
    let walk = vec![meta("/a/x", 1)];
    let f1 = dir_hash(&walk);
    let mut monitor =
        Monitor::new(Failing, registry(&[("/a", Vec::new())]), "/backup".to_string());
    monitor.now(Report::Tick);
    assert_eq!(monitor.now(seen(walk, false)), Action::Collect { source: "/a".to_string() });
    assert_eq!(
        monitor.now(Report::Collected(Some(vec![source("/a/x", b"1")]))),
        Action::Done { changed: 0 }
    );
    assert_eq!(monitor.get_paths_iter(), vec![PathItem::new("/a".to_string(), f1)]);
}

#[test]
fn source_outside_the_tracked_path_is_not_archived() {
    let mut monitor = Monitor::new(ZIP, registry(&[("/a", Vec::new())]), "/backup".to_string());
    monitor.now(Report::Tick);
    monitor.now(seen(vec![meta("/a/x", 1)], false));
    assert_eq!(
        monitor.now(Report::Collected(Some(vec![source("/elsewhere/x", b"1")]))),
        Action::Done { changed: 0 }
    );
}

#[test]
fn tracked_file_is_archived_into_its_directory() {
    let mut monitor =
        Monitor::new(ZIP, registry(&[("/data/report.txt", Vec::new())]), "/backup".to_string());
    monitor.now(Report::Tick);
    monitor.now(seen(vec![meta("/data/report.txt", 5)], true));
    match monitor.now(Report::Collected(Some(vec![source("/data/report.txt", b"figures")]))) {
        Action::Write { dir, file, bytes } => {
            assert_eq!(dir, "/backup/data");
            assert!(is_stamp(file.strip_prefix("/backup/data/").unwrap()));
            assert_eq!(names_in(&bytes), vec!["report.txt".to_string()]);
        },
        other => panic!("unexpected action {:?}", other),
    }
}

#[test]
fn tracked_file_at_the_root_goes_to_the_destination_itself() {
    let mut monitor = Monitor::new(ZIP, registry(&[("/f.txt", Vec::new())]), "/backup".to_string());
    monitor.now(Report::Tick);
    monitor.now(seen(vec![meta("/f.txt", 5)], true));
    match monitor.now(Report::Collected(Some(vec![source("/f.txt", b"x")]))) {
        Action::Write { dir, file, .. } => {
            assert_eq!(dir, "/backup");
            assert!(is_stamp(file.strip_prefix("/backup/").unwrap()));
        },
        other => panic!("unexpected action {:?}", other),
    }
}

#[test]
fn report_that_answers_nothing_is_ignored() {
    let mut monitor = Monitor::new(ZIP, registry(&[("/a", Vec::new())]), "/backup".to_string());
    assert_eq!(monitor.now(Report::Written(true)), Action::Ignored);
    assert_eq!(monitor.now(Report::Collected(None)), Action::Ignored);
    assert_eq!(monitor.now(Report::Collected(Some(Vec::new()))), Action::Ignored);
    assert_eq!(monitor.now(seen(Vec::new(), false)), Action::Ignored);
    assert_eq!(monitor.phase(), Phase::Idle);
    assert_eq!(monitor.now(Report::Tick), Action::Observe { path: "/a".to_string() });
    assert_eq!(monitor.now(Report::Tick), Action::Ignored);
    assert_eq!(monitor.now(Report::Written(true)), Action::Ignored);
    assert_eq!(monitor.phase(), Phase::Observing);
}

#[test]
fn advance_takes_the_outcome_as_it_is_given() {
    let mut monitor = Monitor::new(Failing, registry(&[("/a", vec![1])]), "/backup/".to_string());
    assert_eq!(monitor.advance(Event::Tick), Action::Observe { path: "/a".to_string() });
    assert_eq!(
        monitor.advance(Event::Observed { hash: vec![2], is_file: false, clock: 9 }),
        Action::Collect { source: "/a".to_string() }
    );
    assert_eq!(
        monitor.advance(Event::Packed(Some(vec![7, 7]))),
        Action::Write {
            dir: "/backup/a".to_string(),
            file: "/backup/a/9.zip".to_string(),
            bytes: vec![7, 7]
        }
    );
    assert_eq!(monitor.advance(Event::Written(true)), Action::Done { changed: 1 });
    assert_eq!(monitor.advance(Event::Tick), Action::Observe { path: "/a".to_string() });
    assert_eq!(
        monitor.advance(Event::Observed { hash: vec![2], is_file: false, clock: 10 }),
        Action::Done { changed: 0 }
    );
}

#[test]
fn set_paths_replaces_the_registry_and_ends_the_cycle() {
    let mut monitor = Monitor::new(ZIP, registry(&[("/a", vec![1])]), "/backup".to_string());
    monitor.now(Report::Tick);
    assert_eq!(monitor.phase(), Phase::Observing);
    monitor.set_paths(registry(&[("/b", vec![2]), ("/c", vec![3])]));
    assert_eq!(monitor.phase(), Phase::Idle);
    assert_eq!(
        monitor.get_paths_iter(),
        vec![PathItem::new("/b".to_string(), vec![2]), PathItem::new("/c".to_string(), vec![3])]
    );
    assert_eq!(monitor.now(Report::Tick), Action::Observe { path: "/b".to_string() });
}

#[test]
fn monitor_shows_what_it_was_made_of() {
    let monitor = Monitor::new(ZIP, registry(&[("/a", vec![1])]), "/backup".to_string());
    assert_eq!(monitor.destination(), "/backup");
    assert_eq!(monitor.paths().len(), 1);
    assert_eq!(monitor.paths().get("/a"), Some(&vec![1]));
    assert_eq!(monitor.phase(), Phase::Idle);
}
