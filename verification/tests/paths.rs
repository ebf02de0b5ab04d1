use backupfs::paths::{
    base_name_of, has_root, join_paths, parent_of, starts_with, to_absolute_path, without_current,
    without_root,
};
use backupfs::text::{decimal_i64, decimal_u64};

#[test]
fn test_to_absolute_path() {
    let current_dir = String::from("/tmp/here");
    let some_path = String::from("./foo/bar");
    let res_path = to_absolute_path(&current_dir, &some_path);
    assert_eq!(String::from("/tmp/here/foo/bar"), res_path);
}

#[test]
fn absolute_path_stays() {
    assert_eq!(to_absolute_path("/tmp/here", "/etc/hosts"), "/etc/hosts");
}

#[test]
fn plain_relative_path_goes_below_current() {
    assert_eq!(to_absolute_path("/tmp/here", "foo/bar"), "/tmp/here/foo/bar");
    assert_eq!(to_absolute_path("/tmp/here/", "foo"), "/tmp/here/foo");
}

#[test]
fn dot_slash_alone_is_current() {
    assert_eq!(to_absolute_path("/tmp/here", "./"), "/tmp/here");
}

#[test]
fn leading_current_directory_components_are_dropped() {
    assert_eq!(to_absolute_path("/tmp/here", "././x"), "/tmp/here/x");
    assert_eq!(to_absolute_path("/tmp/here", ".//x"), "/tmp/here/x");
    assert_eq!(to_absolute_path("/tmp/here", "./a/./b"), "/tmp/here/a/./b");
    assert_eq!(to_absolute_path("/tmp/here", "."), "/tmp/here");
    assert_eq!(to_absolute_path("/tmp/here", "./."), "/tmp/here");
}

#[test]
fn names_that_begin_with_a_dot_stay() {
    assert_eq!(to_absolute_path("/tmp/here", ".x"), "/tmp/here/.x");
    assert_eq!(to_absolute_path("/tmp/here", "./.x"), "/tmp/here/.x");
    assert_eq!(to_absolute_path("/tmp/here", ".."), "/tmp/here/..");
    assert_eq!(to_absolute_path("/tmp/here", "./../x"), "/tmp/here/../x");
}

#[test]
fn current_directory_is_stripped() {
    assert_eq!(without_current("./foo/bar"), "foo/bar");
    assert_eq!(without_current("././/foo"), "foo");
    assert_eq!(without_current("foo/./bar"), "foo/./bar");
    assert_eq!(without_current("."), "");
    assert_eq!(without_current(""), "");
    assert_eq!(without_current(".foo"), ".foo");
}

#[test]
fn root_detection() {
    assert!(has_root("/"));
    assert!(has_root("/a"));
    assert!(!has_root(""));
    assert!(!has_root("a/b"));
    assert!(!has_root("./a"));
}

#[test]
fn prefix_detection() {
    assert!(starts_with("/data/project", "/data"));
    assert!(starts_with("/data", "/data"));
    assert!(starts_with("/data", ""));
    assert!(!starts_with("/dat", "/data"));
    assert!(!starts_with("/dbta/x", "/data"));
    assert!(starts_with("é/x", "é"));
}

#[test]
fn root_is_stripped() {
    assert_eq!(without_root("/data/project"), "data/project");
    assert_eq!(without_root("//data"), "data");
    assert_eq!(without_root("/"), "");
    assert_eq!(without_root(""), "");
    assert_eq!(without_root("data/project"), "data/project");
}

#[test]
fn parent_is_what_stands_before_the_last_separator() {
    assert_eq!(parent_of("data/project/a.txt"), "data/project");
    assert_eq!(parent_of("a.txt"), "");
    assert_eq!(parent_of(""), "");
    assert_eq!(parent_of("/a.txt"), "");
    assert_eq!(parent_of("data/é/x"), "data/é");
}

#[test]
fn base_name_is_what_stands_behind_the_last_separator() {
    assert_eq!(base_name_of("/data/report.txt"), "report.txt");
    assert_eq!(base_name_of("report.txt"), "report.txt");
    assert_eq!(base_name_of("/data/"), "");
    assert_eq!(base_name_of(""), "");
}

#[test]
fn join_puts_one_separator_between() {
    assert_eq!(join_paths("/root", "data/project"), "/root/data/project");
    assert_eq!(join_paths("/root/", "data"), "/root/data");
    assert_eq!(join_paths("/root", ""), "/root");
    assert_eq!(join_paths("", "data"), "data");
    assert_eq!(join_paths("", ""), "");
}

#[test]
fn decimal_of_unsigned() {
    assert_eq!(decimal_u64(0), "0");
    assert_eq!(decimal_u64(7), "7");
    assert_eq!(decimal_u64(10), "10");
    assert_eq!(decimal_u64(1234567890), "1234567890");
    assert_eq!(decimal_u64(u64::MAX), "18446744073709551615");
}

#[test]
fn decimal_of_signed() {
    assert_eq!(decimal_i64(0), "0");
    assert_eq!(decimal_i64(-1), "-1");
    assert_eq!(decimal_i64(42), "42");
    assert_eq!(decimal_i64(-1700000000), "-1700000000");
    assert_eq!(decimal_i64(i64::MAX), "9223372036854775807");
    assert_eq!(decimal_i64(i64::MIN), "-9223372036854775808");
}
