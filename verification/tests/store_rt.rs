use linkvault::database::{FileInfo, FileSave};
use linkvault::store::tree_names;
use linkvault::symlink::Symlink;
use linkvault::utils::read_sled;

fn temp_db() -> sled::Db {
    sled::Config::new().temporary(true).open().expect("temporary store")
}

fn sample_batch(id: &str) -> FileSave {
    let mut fs = FileSave::new(
        id.to_string(),
        "my batch".to_string(),
        "/data".to_string(),
        "/out".to_string(),
        "single file".to_string(),
        "2024-01-02 03:04:05".to_string(),
    );
    fs.set_files(vec![
        FileInfo::new(10000001, "File".to_string(), "/data/a.txt".to_string(), "/out/a.txt".to_string()),
        FileInfo::new(10000002, "File".to_string(), "/data/b.txt".to_string(), "/out/b.txt".to_string()),
    ]);
    fs
}

#[test]
fn record_round_trip_by_id() {
    // Writing a batch then reading it back by id yields identical metadata
    // and, when requested, the same set of entries.
    let db = temp_db();
    let fs = sample_batch("abc123");
    fs.save(&db).unwrap();

    let mut back = FileSave::default();
    back.read(&db, "abc123").unwrap();
    assert_eq!(back.id, "abc123");
    assert_eq!(back.name, "my batch");
    assert_eq!(back.source, "/data");
    assert_eq!(back.target, "/out");
    assert_eq!(back.type_, "single file");
    assert_eq!(back.time, "2024-01-02 03:04:05");
    assert_eq!(back.files_id.chars().count(), 16);
    assert!(back.files.is_empty());

    let fid = back.files_id.clone();
    back.read_files(&db, &fid).unwrap();
    let mut got: Vec<(u64, String, String, String)> = back
        .files
        .iter()
        .map(|f| (f.id, f.type_.clone(), f.source.clone(), f.target.clone()))
        .collect();
    got.sort();
    assert_eq!(
        got,
        vec![
            (10000001, "File".to_string(), "/data/a.txt".to_string(), "/out/a.txt".to_string()),
            (10000002, "File".to_string(), "/data/b.txt".to_string(), "/out/b.txt".to_string()),
        ]
    );
}

#[test]
fn enumeration_returns_metadata_only_records() {
    // Three batches present: exactly three metadata-only records come back.
    let db = temp_db();
    sample_batch("aaaaaa").save(&db).unwrap();
    sample_batch("bbbbbb").save(&db).unwrap();
    sample_batch("cccccc").save(&db).unwrap();

    let records = read_sled(&db).unwrap();
    assert_eq!(records.len(), 3);
    let mut ids: Vec<String> = records.iter().map(|r| r.id.clone()).collect();
    ids.sort();
    assert_eq!(ids, vec!["aaaaaa", "bbbbbb", "cccccc"]);
    for r in &records {
        assert!(r.files.is_empty(), "enumeration must not load entries");
        assert_eq!(r.name, "my batch");
    }
}

#[test]
fn removal_drops_both_namespaces() {
    // After reversal, dropping a batch removes it and its entries namespace
    // from every later enumeration.
    let db = temp_db();
    sample_batch("dddddd").save(&db).unwrap();
    sample_batch("eeeeee").save(&db).unwrap();

    let mut doomed = FileSave::default();
    doomed.read(&db, "dddddd").unwrap();
    let fid = doomed.files_id.clone();
    doomed.read_files(&db, &fid).unwrap();
    assert_eq!(doomed.files.len(), 2);
    // The targets of a fresh temporary store do not exist, so reversal is a
    // no-op for every entry.
    for _f in &doomed.files {
        assert_eq!(FileInfo::remove_action(false, false), linkvault::database::RemoveAction::Nothing);
    }
    linkvault::database::drop_batch(&db, "dddddd", &fid).unwrap();

    let records = read_sled(&db).unwrap();
    assert_eq!(records.len(), 1);
    assert_eq!(records[0].id, "eeeeee");
    let names = tree_names(&db);
    assert!(!names.contains(&"dddddd".to_string()));
    assert!(!names.contains(&fid));
}

#[test]
fn link_persists_successes_and_counts_failures() {
    // Multi-source accounting: successes plus failures equal the sources.
    let db = temp_db();
    let s = Symlink::new(
        vec!["/d/a.txt".to_string(), "/d/b.txt".to_string(), "/d/c.txt".to_string()],
        "/out".to_string(),
        1,
        "partial".to_string(),
        None,
    );
    let steps = s.plan(&Vec::new()).unwrap();
    let outcomes = vec![true, false, true];
    let (rec, failures) = s.link(&db, &steps, &outcomes).unwrap();
    assert_eq!(rec.files.len(), 2);
    assert_eq!(failures, 1);
    assert_eq!(rec.files.len() + failures, 3);
    assert_eq!(rec.name, "partial");
    assert_eq!(rec.source, "/d");
    assert_eq!(rec.target, "/out");
    assert_eq!(rec.type_, "multi file");
    assert_eq!(rec.id.chars().count(), 6);
    for f in &rec.files {
        assert_eq!(f.type_, "File");
        assert!((10_000_000..100_000_000).contains(&f.id));
    }
    assert_eq!(rec.files[0].source, "/d/a.txt");
    assert_eq!(rec.files[0].target, "/out/a.txt");
    assert_eq!(rec.files[1].source, "/d/c.txt");
}

#[test]
fn single_link_batch_round_trips_through_store() {
    // Scenario: mode 0 over /data/a.txt into /out, then the persisted batch
    // read back: the stored record carries the single-file label and one
    // entry in its files namespace.
    let db = temp_db();
    let s = Symlink::new(
        vec!["/data/a.txt".to_string()],
        "/out".to_string(),
        0,
        "one".to_string(),
        None,
    );
    let steps = s.plan(&Vec::new()).unwrap();
    let outcomes = vec![true];
    let (rec, failures) = s.link(&db, &steps, &outcomes).unwrap();
    assert_eq!(failures, 0);
    assert_eq!(rec.files.len(), 1);
    assert_eq!(rec.files[0].type_, "File");
    assert_eq!(rec.files[0].target, "/out/a.txt");
    assert_eq!(rec.type_, "single file");
    assert_eq!(rec.source, "/data");

    let mut back = FileSave::default();
    back.read(&db, &rec.id).unwrap();
    assert_eq!(back.type_, "single file");
    let fid = back.files_id.clone();
    back.read_files(&db, &fid).unwrap();
    assert_eq!(back.files.len(), 1);
    assert_eq!(back.files[0].target, "/out/a.txt");
    assert_eq!(back.files[0].type_, "File");
}

#[test]
fn test_read_sled() {
    let db = temp_db();
    let a = read_sled(&db).unwrap();
    println!("{:?}", a);
}
