use tarsmith::error::InstallError;
use tarsmith::layout::{gather_name, plan_extraction, Entry, EntryKind, Placement};
use tarsmith::names::infer_app_name;
use tarsmith::scan::{find_executables_in_bin, scan_dir, FileInfo};

fn entry(name: &str, kind: EntryKind) -> Entry {
    Entry { name: name.to_string(), kind }
}

fn exe(name: &str, mode: u32) -> FileInfo {
    FileInfo { name: name.to_string(), is_file: true, mode }
}

#[test]
fn single_directory_is_renamed_under_its_own_name() {
    let entries = vec![entry("android-studio-2025.2.1.7-linux", EntryKind::Dir)];
    let p = plan_extraction("/r/.stage", "/r", "/dl/android-studio-2025.2.1.7-linux.tar.gz", &entries)
        .unwrap();
    match p {
        Placement::Rename { name, from, target } => {
            assert_eq!(name, "android-studio-2025.2.1.7-linux");
            assert_eq!(from, "/r/.stage/android-studio-2025.2.1.7-linux");
            assert_eq!(target, "/r/android-studio-2025.2.1.7-linux");
            assert_eq!(infer_app_name(&target).unwrap(), "android-studio");
        }
        _ => panic!("expected a rename"),
    }
    let listing = vec![exe("studio.sh", 0o755), FileInfo { name: "lib".to_string(), is_file: false, mode: 0o755 }];
    let dir = scan_dir("/r/android-studio-2025.2.1.7-linux", true);
    assert_eq!(dir, "/r/android-studio-2025.2.1.7-linux/bin");
    let found = find_executables_in_bin(&dir, &listing).unwrap();
    assert_eq!(found, vec!["/r/android-studio-2025.2.1.7-linux/bin/studio.sh".to_string()]);
}

#[test]
fn loose_entries_are_gathered_under_the_archive_name() {
    let entries = vec![entry("bin", EntryKind::Dir), entry("LICENSE", EntryKind::File)];
    let p = plan_extraction("/r/.stage", "/r", "node-v20.0.0-linux-x64.tar.gz", &entries).unwrap();
    match p {
        Placement::Gather { name, target, moves } => {
            assert_eq!(name, "node-v20.0.0-linux-x64");
            assert_eq!(target, "/r/node-v20.0.0-linux-x64");
            assert_eq!(moves.len(), 2);
            assert_eq!(moves[0].from, "/r/.stage/bin");
            assert_eq!(moves[0].to, "/r/node-v20.0.0-linux-x64/bin");
            assert_eq!(moves[0].kind, EntryKind::Dir);
            assert_eq!(moves[1].from, "/r/.stage/LICENSE");
            assert_eq!(moves[1].kind, EntryKind::File);
        }
        _ => panic!("expected a gather"),
    }
    let listing = vec![exe("node", 0o755), exe("npm", 0o755)];
    let found = find_executables_in_bin("/r/node-v20.0.0-linux-x64/bin", &listing).unwrap();
    assert_eq!(
        found,
        vec!["/r/node-v20.0.0-linux-x64/bin/node".to_string(), "/r/node-v20.0.0-linux-x64/bin/npm".to_string()]
    );
}

#[test]
fn flat_files_fill_a_fresh_directory() {
    let entries = vec![
        entry("tool", EntryKind::File),
        entry("README", EntryKind::File),
        entry("sock", EntryKind::Other),
    ];
    let p = plan_extraction("/s", "/r", "tool-1.2.tar.gz", &entries).unwrap();
    match p {
        Placement::Gather { name, moves, .. } => {
            assert_eq!(name, "tool");
            let names: Vec<&str> = moves.iter().map(|m| m.name.as_str()).collect();
            assert_eq!(names, vec!["tool", "README"]);
            assert!(moves.iter().all(|m| m.kind == EntryKind::File));
        }
        _ => panic!("expected a gather"),
    }
}

#[test]
fn several_directories_are_gathered() {
    let entries = vec![entry("lib", EntryKind::Dir), entry("bin", EntryKind::Dir)];
    let p = plan_extraction("/s", "/r", "1.0-build.tar", &entries).unwrap();
    match p {
        Placement::Gather { name, moves, .. } => {
            assert_eq!(name, "1.0-build");
            assert_eq!(moves.len(), 2);
        }
        _ => panic!("expected a gather"),
    }
}

#[test]
fn planning_twice_gives_the_same_target() {
    let entries = vec![entry("a", EntryKind::File), entry("b", EntryKind::Dir)];
    let first = plan_extraction("/s", "/r", "app-2.0.tar.gz", &entries).unwrap();
    let second = plan_extraction("/s", "/r", "app-2.0.tar.gz", &entries).unwrap();
    match (first, second) {
        (Placement::Gather { target: t1, .. }, Placement::Gather { target: t2, .. }) => {
            assert_eq!(t1, "/r/app");
            assert_eq!(t1, t2);
        }
        _ => panic!("expected gathers"),
    }
}

#[test]
fn empty_staging_is_an_empty_archive() {
    let r = plan_extraction("/s", "/r", "app.tar.gz", &Vec::new());
    assert!(matches!(r, Err(InstallError::EmptyArchive)));
}

#[test]
fn unusable_archive_name_is_refused() {
    let entries = vec![entry("a", EntryKind::File)];
    assert!(matches!(plan_extraction("/s", "/r", ".tar.gz", &entries), Err(InstallError::InvalidName)));
    assert!(matches!(plan_extraction("/s", "/r", "/", &entries), Err(InstallError::InvalidName)));
    assert!(gather_name("..tar").is_none());
}

#[test]
fn no_executable_found() {
    let listing = vec![exe("README", 0o644), FileInfo { name: "d".to_string(), is_file: false, mode: 0o755 }];
    assert!(matches!(find_executables_in_bin("/x", &listing), Err(InstallError::NoExecutableFound)));
    let listing = vec![exe("other-exec", 0o001), exe("group-exec", 0o010)];
    assert_eq!(find_executables_in_bin("/x", &listing).unwrap().len(), 2);
}
