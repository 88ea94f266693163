use linkvault::symlink::{FsEntry, FsKind, LinkStep, LinkType, Symlink, SymlinkType};
use linkvault::error::LinkError;

fn strings(v: &[&str]) -> Vec<String> {
    let mut out = Vec::new();
    for s in v {
        out.push(s.to_string());
    }
    out
}

#[test]
fn mode_selector_maps_all_nine() {
    assert_eq!(LinkType::from(0), LinkType::File);
    assert_eq!(LinkType::from(1), LinkType::Files);
    assert_eq!(LinkType::from(2), LinkType::Dir);
    assert_eq!(LinkType::from(3), LinkType::Dirs);
    assert_eq!(LinkType::from(4), LinkType::DirAllFiles);
    assert_eq!(LinkType::from(5), LinkType::DirSurface);
    assert_eq!(LinkType::from(6), LinkType::Hard);
    assert_eq!(LinkType::from(7), LinkType::Hards);
    assert_eq!(LinkType::from(8), LinkType::HardsDirAllFiless);
    // Out of range defaults to the single-soft-file mode.
    assert_eq!(LinkType::from(9), LinkType::File);
    assert_eq!(LinkType::from(255), LinkType::File);
}

#[test]
fn mode_labels() {
    assert_eq!(LinkType::File.label(), "single file");
    assert_eq!(LinkType::DirAllFiles.label(), "all files");
    assert_eq!(LinkType::HardsDirAllFiless.label(), "all files (hard)");
    assert_eq!(SymlinkType::File.label(), "File");
    assert_eq!(SymlinkType::Dir.label(), "Dir");
    assert_eq!(SymlinkType::Hard.label(), "Hard");
}

#[test]
fn single_file_plan_uses_source_base_name() {
    // Scenario: mode 0, one source, no override.
    let s = Symlink::new(strings(&["/data/a.txt"]), "/out".to_string(), 0, "b".to_string(), None);
    let steps = s.plan(&Vec::new()).unwrap();
    assert_eq!(steps.len(), 1);
    match &steps[0] {
        LinkStep::Link { kind, source, target } => {
            assert_eq!(*kind, SymlinkType::File);
            assert_eq!(source, "/data/a.txt");
            assert_eq!(target, "/out/a.txt");
        },
        _ => panic!("expected a link step"),
    }
}

#[test]
fn single_file_plan_honors_override_name() {
    let s = Symlink::new(
        strings(&["/data/a.txt"]),
        "/out".to_string(),
        0,
        "b".to_string(),
        Some("custom.bin".to_string()),
    );
    let steps = s.plan(&Vec::new()).unwrap();
    assert_eq!(steps.len(), 1);
    match &steps[0] {
        LinkStep::Link { target, .. } => assert_eq!(target, "/out/custom.bin"),
        _ => panic!("expected a link step"),
    }
}

#[test]
fn empty_source_list_is_refused() {
    let s = Symlink::new(Vec::new(), "/out".to_string(), 0, "b".to_string(), None);
    assert_eq!(s.plan(&Vec::new()).unwrap_err(), LinkError::NoSourceSelected);
}

#[test]
fn source_without_base_name_is_refused() {
    let s = Symlink::new(strings(&["/data/.."]), "/out".to_string(), 0, "b".to_string(), None);
    assert_eq!(s.plan(&Vec::new()).unwrap_err(), LinkError::InvalidPath);
    let m = Symlink::new(
        strings(&["/ok.txt", "/"]),
        "/out".to_string(),
        1,
        "b".to_string(),
        None,
    );
    assert_eq!(m.plan(&Vec::new()).unwrap_err(), LinkError::InvalidPath);
}

#[test]
fn trailing_separator_directory_is_linked() {
    // A single-directory request may name the directory with a trailing
    // separator; its base name is still derived.
    let s = Symlink::new(
        strings(&["/data/photos/"]),
        "/out".to_string(),
        2,
        "b".to_string(),
        None,
    );
    let steps = s.plan(&Vec::new()).unwrap();
    assert_eq!(steps.len(), 1);
    match &steps[0] {
        LinkStep::Link { kind, source, target } => {
            assert_eq!(*kind, SymlinkType::Dir);
            assert_eq!(source, "/data/photos/");
            assert_eq!(target, "/out/photos");
        },
        _ => panic!("expected a link step"),
    }
}

#[test]
fn multi_plan_links_each_source() {
    let s = Symlink::new(
        strings(&["/d/a.txt", "/d/b.txt", "/e/c.txt"]),
        "/out".to_string(),
        7,
        "b".to_string(),
        None,
    );
    let steps = s.plan(&Vec::new()).unwrap();
    assert_eq!(steps.len(), 3);
    let expect = [
        ("/d/a.txt", "/out/a.txt"),
        ("/d/b.txt", "/out/b.txt"),
        ("/e/c.txt", "/out/c.txt"),
    ];
    for (i, step) in steps.iter().enumerate() {
        match step {
            LinkStep::Link { kind, source, target } => {
                assert_eq!(*kind, SymlinkType::Hard);
                assert_eq!(source, expect[i].0);
                assert_eq!(target, expect[i].1);
            },
            _ => panic!("expected a link step"),
        }
    }
}

#[test]
fn all_files_plan_recreates_directories() {
    // Tree-walk planning: every directory of the listing gets a
    // make-directory step under the target root, files get links.
    let listing = vec![
        FsEntry::new("/src".to_string(), FsKind::Dir),
        FsEntry::new("/src/sub".to_string(), FsKind::Dir),
        FsEntry::new("/src/sub/a.txt".to_string(), FsKind::File),
        FsEntry::new("/src/b.txt".to_string(), FsKind::File),
    ];
    let s = Symlink::new(strings(&["/src"]), "/out".to_string(), 4, "b".to_string(), None);
    let steps = s.plan(&listing).unwrap();
    assert_eq!(steps.len(), 4);
    match &steps[0] {
        LinkStep::MakeDir { target } => assert_eq!(target, "/out/"),
        _ => panic!("root must be recreated as a directory"),
    }
    match &steps[1] {
        LinkStep::MakeDir { target } => assert_eq!(target, "/out//sub"),
        _ => panic!("subdirectory must be recreated"),
    }
    match &steps[2] {
        LinkStep::Link { kind, source, target } => {
            assert_eq!(*kind, SymlinkType::File);
            assert_eq!(source, "/src/sub/a.txt");
            assert_eq!(target, "/out//sub/a.txt");
        },
        _ => panic!("file must be linked"),
    }
    match &steps[3] {
        LinkStep::Link { target, .. } => assert_eq!(target, "/out//b.txt"),
        _ => panic!("file must be linked"),
    }
}

#[test]
fn surface_plan_links_children_only() {
    // Scenario: mode 5 over a directory holding one file and one
    // subdirectory: two steps, the subdirectory's contents untouched.
    let listing = vec![
        FsEntry::new("/src".to_string(), FsKind::Dir),
        FsEntry::new("/src/x.txt".to_string(), FsKind::File),
        FsEntry::new("/src/y".to_string(), FsKind::Dir),
    ];
    let s = Symlink::new(strings(&["/src"]), "/out".to_string(), 5, "b".to_string(), None);
    let steps = s.plan(&listing).unwrap();
    assert_eq!(steps.len(), 2);
    match &steps[0] {
        LinkStep::Link { kind, source, target } => {
            assert_eq!(*kind, SymlinkType::File);
            assert_eq!(source, "/src/x.txt");
            assert_eq!(target, "/out/x.txt");
        },
        _ => panic!("file child must be linked as a file"),
    }
    match &steps[1] {
        LinkStep::Link { kind, source, target } => {
            assert_eq!(*kind, SymlinkType::Dir);
            assert_eq!(source, "/src/y");
            assert_eq!(target, "/out/y");
        },
        _ => panic!("directory child must be linked as a directory"),
    }
}

#[test]
fn hard_mode_plans_hard_links() {
    let s = Symlink::new(strings(&["/data/a.txt"]), "/out".to_string(), 6, "b".to_string(), None);
    let steps = s.plan(&Vec::new()).unwrap();
    match &steps[0] {
        LinkStep::Link { kind, .. } => assert_eq!(*kind, SymlinkType::Hard),
        _ => panic!("expected a link step"),
    }
}

#[test]
fn surface_entry_without_base_name_is_refused() {
    // A child entry whose final component is a parent reference has no base
    // name to link under, so the whole plan is refused.
    let listing = vec![
        FsEntry::new("/src".to_string(), FsKind::Dir),
        FsEntry::new("/src/..".to_string(), FsKind::File),
    ];
    let s = Symlink::new(strings(&["/src"]), "/out".to_string(), 5, "b".to_string(), None);
    assert_eq!(s.plan(&listing).unwrap_err(), LinkError::InvalidPath);
}

#[test]
fn single_dir_mode_plans_directory_link() {
    let s = Symlink::new(strings(&["/data/photos"]), "/out".to_string(), 2, "b".to_string(), None);
    let steps = s.plan(&Vec::new()).unwrap();
    assert_eq!(steps.len(), 1);
    match &steps[0] {
        LinkStep::Link { kind, source, target } => {
            assert_eq!(*kind, SymlinkType::Dir);
            assert_eq!(source, "/data/photos");
            assert_eq!(target, "/out/photos");
        },
        _ => panic!("expected a link step"),
    }
}
