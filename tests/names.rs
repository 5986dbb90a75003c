use tarsmith::names::{extract_dir_name_from_stem, infer_app_name, normalize};
use tarsmith::error::InstallError;
use tarsmith::paths::{archive_stem, extension, file_name, file_stem, path_join, remove_tar};

#[test]
fn normalize_strips_version_and_platform() {
    assert_eq!(normalize("android-studio-2025.2.1.7-linux"), "android-studio");
    assert_eq!(normalize("node-v20.0.0-linux-x64"), "node-v20.0.0");
    assert_eq!(normalize("my_tool_1.2_amd64"), "my-tool");
    assert_eq!(normalize("App-LINUX"), "App");
}

#[test]
fn normalize_falls_back_to_raw() {
    assert_eq!(normalize("2025-app"), "2025-app");
    assert_eq!(normalize("linux-x64"), "linux-x64");
    assert_eq!(normalize("plain"), "plain");
}

#[test]
fn normalize_is_idempotent_on_examples() {
    for s in ["android-studio-2025.2.1.7-linux", "a__b-1", "x86", "go_1.21_linux_amd64", "-lead"] {
        let once = normalize(s);
        assert!(!once.is_empty());
        assert_eq!(normalize(&once), once);
    }
}

#[test]
fn dir_name_stops_only_at_digits() {
    assert_eq!(extract_dir_name_from_stem("node-v20.0.0-linux-x64"), "node-v20.0.0-linux-x64");
    assert_eq!(extract_dir_name_from_stem("app_name-1.0-linux"), "app-name");
    assert_eq!(extract_dir_name_from_stem("1.0-app"), "");
}

#[test]
fn infer_app_name_from_folder() {
    assert_eq!(
        infer_app_name("/home/u/.local/tarsmith/android-studio-2025.2.1.7-linux").unwrap(),
        "android-studio"
    );
    assert_eq!(infer_app_name("/opt/tool/").unwrap(), "tool");
    assert!(matches!(infer_app_name("/"), Err(InstallError::InvalidName)));
    assert!(matches!(infer_app_name("a/.."), Err(InstallError::InvalidName)));
}

#[test]
fn path_helpers() {
    assert_eq!(path_join("/opt", "app"), "/opt/app");
    assert_eq!(path_join("/opt/", "app"), "/opt/app");
    assert_eq!(path_join("", "app"), "app");
    assert_eq!(path_join("/opt", "/etc"), "/etc");
    assert_eq!(file_name("/a/b/c.tar.gz").unwrap(), "c.tar.gz");
    assert_eq!(file_name("a/b/.").unwrap(), "b");
    assert!(file_name("..").is_none());
    assert_eq!(file_stem("c.tar.gz"), "c.tar");
    assert_eq!(file_stem(".bashrc"), ".bashrc");
    assert_eq!(file_stem("noext"), "noext");
    assert_eq!(extension("c.tar.gz").unwrap(), "gz");
    assert!(extension(".bashrc").is_none());
    assert_eq!(remove_tar("x.tar.y.tar"), "x.y");
    assert_eq!(archive_stem("/dl/node-v20.0.0-linux-x64.tar.xz").unwrap(), "node-v20.0.0-linux-x64");
    assert_eq!(archive_stem("app.tgz").unwrap(), "app");
}
