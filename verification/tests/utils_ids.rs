use linkvault::database::{FileInfo, RemoveAction};
use linkvault::error::LinkError;
use linkvault::paths::{get_path_last, join_path, parent_of};
use linkvault::utils::{filter_batch_names, now_string, random_id, random_id_num};

#[test]
fn random_id_has_exact_length() {
    assert_eq!(random_id(6).chars().count(), 6);
    assert_eq!(random_id(16).chars().count(), 16);
    assert_eq!(random_id(0).chars().count(), 0);
    for c in random_id(64).chars() {
        assert!(c.is_ascii_alphanumeric());
    }
    // Two fresh tokens almost surely differ; equal ones would mean the
    // generator ignored its randomness source.
    assert_ne!(random_id(16), random_id(16));
}

#[test]
fn random_id_num_has_exact_digit_count() {
    for _ in 0..20 {
        let d8 = random_id_num(8);
        assert!((10_000_000..100_000_000).contains(&d8));
        let d1 = random_id_num(1);
        assert!(d1 <= 9);
        let d19 = random_id_num(19);
        assert!(d19 >= 1_000_000_000_000_000_000);
    }
}

#[test]
fn timestamp_has_expected_shape() {
    let t = now_string();
    assert_eq!(t.chars().count(), 19);
    let bytes: Vec<char> = t.chars().collect();
    assert_eq!(bytes[4], '-');
    assert_eq!(bytes[7], '-');
    assert_eq!(bytes[10], ' ');
    assert_eq!(bytes[13], ':');
    assert_eq!(bytes[16], ':');
}

#[test]
fn batch_name_filter_keeps_six_character_names() {
    let names = vec![
        "abc123".to_string(),
        "__sled__default".to_string(),
        "0123456789abcdef".to_string(),
        "xy".to_string(),
        "zzzzzz".to_string(),
    ];
    let kept = filter_batch_names(&names);
    assert_eq!(kept, vec!["abc123".to_string(), "zzzzzz".to_string()]);
}

#[test]
fn base_name_cases() {
    assert_eq!(get_path_last("/data/a.txt").unwrap(), "a.txt");
    assert_eq!(get_path_last("a.txt").unwrap(), "a.txt");
    assert_eq!(get_path_last("C:\\dir\\y.txt").unwrap(), "y.txt");
    // Trailing separators and trailing `.` components are ignored, as the
    // standard path routines do.
    assert_eq!(get_path_last("/data/photos/").unwrap(), "photos");
    assert_eq!(get_path_last("/a/b/.").unwrap(), "b");
    assert_eq!(get_path_last("a.").unwrap(), "a.");
    assert_eq!(get_path_last("").unwrap_err(), LinkError::InvalidPath);
    assert_eq!(get_path_last("/").unwrap_err(), LinkError::InvalidPath);
    assert_eq!(get_path_last(".").unwrap_err(), LinkError::InvalidPath);
    assert_eq!(get_path_last("/a/..").unwrap_err(), LinkError::InvalidPath);
    assert_eq!(get_path_last("/a/../").unwrap_err(), LinkError::InvalidPath);
}

#[test]
fn parent_cases() {
    assert_eq!(parent_of("/data/a.txt"), "/data");
    assert_eq!(parent_of("/data/photos/"), "/data");
    assert_eq!(parent_of("a.txt"), "");
    assert_eq!(parent_of("/"), "");
    assert_eq!(parent_of("C:\\dir\\y.txt"), "C:\\dir");
}

#[test]
fn join_cases() {
    assert_eq!(join_path("/out", "a.txt"), "/out/a.txt");
    assert_eq!(join_path("", "a"), "/a");
}

#[test]
fn error_messages() {
    assert_eq!(LinkError::NoSourceSelected.message(), "no source selected");
    assert_eq!(LinkError::InvalidPath.message(), "invalid path: no final component");
    assert_eq!(LinkError::StorageUnavailable.message(), "storage unavailable");
    assert_eq!(LinkError::RecordCorrupt.message(), "stored record is corrupt");
}

#[test]
fn removal_of_missing_target_is_a_no_op() {
    // Reversing an entry whose target does not exist must do nothing.
    assert_eq!(FileInfo::remove_action(false, true), RemoveAction::Nothing);
    assert_eq!(FileInfo::remove_action(false, false), RemoveAction::Nothing);
    assert_eq!(FileInfo::remove_action(true, true), RemoveAction::RemoveFile);
    assert_eq!(FileInfo::remove_action(true, false), RemoveAction::RemoveDir);
}
