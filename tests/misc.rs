use tarsmith::desktop::desktop_entry;
use tarsmith::error::InstallError;
use tarsmith::extract::{check_extraction, staging_dir, tar_args};
use tarsmith::locate::{locate_app_folder, Child};
use tarsmith::scan::{find_icon, icon_candidates, icon_path};

fn child(name: &str, has_bin: bool, modified: u64) -> Child {
    Child { name: name.to_string(), has_bin, modified }
}

#[test]
fn tar_arguments_by_extension() {
    assert_eq!(tar_args("a.tar.gz", "/s"), vec!["-xzf", "a.tar.gz", "-C", "/s"]);
    assert_eq!(tar_args("a.tgz", "/s")[0], "-xzf");
    assert_eq!(tar_args("a.tar.xz", "/s")[0], "-xJf");
    assert_eq!(tar_args("a.txz", "/s")[0], "-xJf");
    assert_eq!(tar_args("a.tar.bz2", "/s")[0], "-xjf");
    assert_eq!(tar_args("a.tar.zst", "/s"), vec!["--zstd", "-xf", "a.tar.zst", "-C", "/s"]);
    assert_eq!(tar_args("a.tar", "/s")[0], "-xf");
    assert_eq!(tar_args("archive", "/s")[0], "-xf");
}

#[test]
fn failed_extraction_aborts() {
    assert!(matches!(check_extraction(false), Err(InstallError::ExtractionFailed)));
    assert!(check_extraction(true).is_ok());
    assert_eq!(staging_dir("/r"), "/r/.tarsmith_temp_extract");
}

#[test]
fn icon_lookup() {
    let c = icon_candidates("/a");
    assert_eq!(c, vec!["/a/bin/icon.png", "/a/bin/studio.png", "/a/icon.png", "/a/icon.svg", "/a/bin/icon.svg"]);
    let existing = vec!["/a/icon.svg".to_string(), "/a/bin/studio.png".to_string()];
    assert_eq!(find_icon("/a", &existing).unwrap(), "/a/bin/studio.png");
    assert!(find_icon("/a", &Vec::new()).is_none());
    assert_eq!(icon_path("/a", &Vec::new()), "/a/bin/icon.png");
    assert_eq!(icon_path("/a", &existing), "/a/bin/studio.png");
}

#[test]
fn desktop_entry_text() {
    assert_eq!(
        desktop_entry("app", "/r/app/bin/app", "/r/app/icon.png"),
        "[Desktop Entry]\nVersion=1.0\nType=Application\nName=app\nExec=/r/app/bin/app\nIcon=/r/app/icon.png\nTerminal=false\nCategories=Utility;\n"
    );
}

#[test]
fn locate_by_exact_and_variant_names() {
    let kids = vec![child("my-app", true, 5), child("my_app_1.0", true, 9)];
    assert_eq!(locate_app_folder("/r", "my_app_1.0.tar.gz", &kids).unwrap(), "/r/my_app_1.0");
    assert_eq!(locate_app_folder("/r", "my_app-2.0.tar.gz", &kids).unwrap(), "/r/my-app");
    let kids = vec![child("tool", true, 1)];
    assert_eq!(locate_app_folder("/r", "tool-linux-x64.tar.gz", &kids).unwrap(), "/r/tool");
}

#[test]
fn locate_by_recency() {
    let kids = vec![child("Other", true, 50), child("Zed-Editor", true, 10), child("zed-old", true, 20)];
    assert_eq!(locate_app_folder("/r", "zed-9.tar.gz", &kids).unwrap(), "/r/zed-old");
    let kids = vec![child("a", true, 3), child("b", true, 7), child("c", false, 99)];
    assert_eq!(locate_app_folder("/r", "q.tar.gz", &kids).unwrap(), "/r/b");
    let kids = vec![child("a", false, 3), child("b", false, 7)];
    assert_eq!(locate_app_folder("/r", "q.tar.gz", &kids).unwrap(), "/r/b");
    let kids = vec![child("a", true, 7), child("b", true, 7)];
    assert_eq!(locate_app_folder("/r", "q.tar.gz", &kids).unwrap(), "/r/a");
}

#[test]
fn locate_fails_without_directories() {
    assert!(matches!(locate_app_folder("/r", "q.tar.gz", &Vec::new()), Err(InstallError::FolderNotFound)));
    assert!(matches!(locate_app_folder("/r", "/", &Vec::new()), Err(InstallError::InvalidName)));
}

#[test]
fn io_error_carries_a_cause() {
    let e = InstallError::IoError("disk full".to_string());
    assert!(matches!(e, InstallError::IoError(ref m) if m == "disk full"));
}
