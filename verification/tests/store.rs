use backupfs::store::{load, save, Record, Update};
use backupfs::PathItem;

fn valid(path: &str, hash: &[u8]) -> Record {
    Record { parsed: Some(PathItem::new(path.to_string(), hash.to_vec())) }
}

fn broken() -> Record {
    Record { parsed: None }
}

#[test]
fn load_takes_the_records_that_parse() {
    let records = vec![valid("/a", &[1]), broken(), valid("/b", &[])];
    let registry = load(&records);
    assert_eq!(registry.len(), 2);
    assert_eq!(registry.get("/a"), Some(&vec![1]));
    assert_eq!(registry.get("/b"), Some(&Vec::new()));
}

#[test]
fn load_of_nothing_is_empty() {
    assert_eq!(load(&Vec::new()).len(), 0);
    assert_eq!(load(&vec![broken(), broken()]).len(), 0);
}

#[test]
fn later_record_overrides_earlier() {
    let records = vec![valid("/a", &[1]), valid("/b", &[2]), valid("/a", &[3])];
    let registry = load(&records);
    assert_eq!(registry.len(), 2);
    assert_eq!(registry.get("/a"), Some(&vec![3]));
    assert_eq!(registry.index_of("/a"), Some(0));
}

#[test]
fn load_passes_over_a_relative_path() {
    let records = vec![valid("a/b", &[1]), valid("/c", &[2])];
    let registry = load(&records);
    assert_eq!(registry.len(), 1);
    assert_eq!(registry.get("a/b"), None);
}

#[test]
fn save_sets_the_tracked_fingerprint() {
    let records = vec![valid("/a", &[]), valid("/b", &[2])];
    let mut registry = load(&records);
    registry.insert("/a".to_string(), vec![9, 9]);
    let updates = save(&records, &registry);
    assert_eq!(updates, vec![Update::SetHash(vec![9, 9]), Update::SetHash(vec![2])]);
}

#[test]
fn save_keeps_what_does_not_parse() {
    let records = vec![broken(), valid("/a", &[1]), broken()];
    let registry = load(&records);
    let updates = save(&records, &registry);
    assert_eq!(updates, vec![Update::Keep, Update::SetHash(vec![1]), Update::Keep]);
}

#[test]
fn save_keeps_a_record_that_is_not_tracked() {
    let registry = load(&vec![valid("/a", &[1])]);
    let store_now = vec![valid("/a", &[1]), valid("/new", &[])];
    let updates = save(&store_now, &registry);
    assert_eq!(updates, vec![Update::SetHash(vec![1]), Update::Keep]);
}

#[test]
fn save_after_load_round_trip() {
    let records =
        vec![valid("/a", &[1]), broken(), valid("/a", &[5]), valid("rel", &[7]), valid("/b", &[])];
    let registry = load(&records);
    let updates = save(&records, &registry);
    assert_eq!(
        updates,
        vec![
            Update::SetHash(vec![5]),
            Update::Keep,
            Update::SetHash(vec![5]),
            Update::Keep,
            Update::SetHash(vec![]),
        ]
    );
}

#[test]
fn save_of_an_empty_store() {
    let registry = load(&vec![valid("/a", &[1])]);
    assert!(save(&Vec::new(), &registry).is_empty());
}
