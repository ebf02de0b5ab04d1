use backupfs::client::{listing, registration, removal};
use backupfs::store::Record;
use backupfs::PathItem;

fn valid(path: &str, hash: &[u8]) -> Record {
    Record { parsed: Some(PathItem::new(path.to_string(), hash.to_vec())) }
}

fn broken() -> Record {
    Record { parsed: None }
}

#[test]
fn registration_has_an_absolute_path_and_no_fingerprint() {
    let item = registration("/tmp/here", "./foo/bar");
    assert_eq!(item, PathItem::new("/tmp/here/foo/bar".to_string(), Vec::new()));
    let item = registration("/tmp/here", "/etc/hosts");
    assert_eq!(item, PathItem::new("/etc/hosts".to_string(), Vec::new()));
}

#[test]
fn removal_hits_the_records_of_the_path() {
    let records = vec![
        valid("/tmp/here/foo", &[1]),
        broken(),
        valid("/tmp/here/bar", &[2]),
        valid("/tmp/here/foo", &[]),
    ];
    assert_eq!(removal(&records, "/tmp/here", "./foo"), vec![true, false, false, true]);
    assert_eq!(removal(&records, "/tmp/here", "foo"), vec![true, false, false, true]);
    assert_eq!(removal(&records, "/", "/tmp/here/bar"), vec![false, false, true, false]);
    assert_eq!(removal(&records, "/tmp/here", "baz"), vec![false, false, false, false]);
}

#[test]
fn removal_from_an_empty_store() {
    assert!(removal(&Vec::new(), "/tmp", "x").is_empty());
}

#[test]
fn listing_shows_the_records_that_parse() {
    let records = vec![valid("/a", &[1]), broken(), valid("/b c", &[])];
    assert_eq!(
        listing(&records),
        vec!["backuppath: \"/a\"".to_string(), "backuppath: \"/b c\"".to_string()]
    );
    assert!(listing(&vec![broken()]).is_empty());
}
