use tarsmith::error::InstallError;
use tarsmith::locations::{bin_dir, bin_dir_for, desktop_file_for, install_root, install_root_for};
use tarsmith::registrar::{
    config_file_for, mentions_bin, path_has_local_bin, path_text, plan_path_update, shell_kind,
    symlink_plan, PathUpdate, ShellKind,
};

#[test]
fn links_are_named_after_executables() {
    let exes = vec!["/r/app/bin/app".to_string(), "/r/app/bin/tool".to_string()];
    let links = symlink_plan(&exes, "/home/u/.local/bin").unwrap();
    assert_eq!(links.len(), 2);
    assert_eq!(links[0].name, "app");
    assert_eq!(links[0].link, "/home/u/.local/bin/app");
    assert_eq!(links[0].target, "/r/app/bin/app");
    assert_eq!(links[1].link, "/home/u/.local/bin/tool");
    let bad = vec!["/".to_string()];
    assert!(matches!(symlink_plan(&bad, "/b"), Err(InstallError::InvalidName)));
}

#[test]
fn search_path_membership() {
    assert!(path_has_local_bin(Some("/usr/bin:/home/u/.local/bin"), "/home/u/.local/bin"));
    assert!(path_has_local_bin(Some("/other/.local/bin:/bin"), "/home/u/.local/bin"));
    assert!(!path_has_local_bin(Some("/usr/bin:/bin"), "/home/u/.local/bin"));
    assert!(!path_has_local_bin(None, "/home/u/.local/bin"));
}

#[test]
fn shell_families() {
    assert_eq!(shell_kind("/usr/bin/zsh"), ShellKind::Zsh);
    assert_eq!(shell_kind("/usr/bin/fish"), ShellKind::Fish);
    assert_eq!(shell_kind("/bin/bash"), ShellKind::Bash);
    assert_eq!(shell_kind("/bin/sh"), ShellKind::Bash);
    assert_eq!(config_file_for("/home/u", ShellKind::Zsh), "/home/u/.zshrc");
    assert_eq!(config_file_for("/home/u", ShellKind::Fish), "/home/u/.config/fish/config.fish");
    assert_eq!(config_file_for("/home/u", ShellKind::Bash), "/home/u/.bashrc");
}

#[test]
fn startup_file_is_appended_once() {
    let update = plan_path_update("/home/u/.local/bin", Some("/usr/bin"), ShellKind::Bash, "/home/u/.bashrc", Some("alias x=y\n"));
    let text = match update {
        PathUpdate::Append { file, text, create_parent } => {
            assert_eq!(file, "/home/u/.bashrc");
            assert!(!create_parent);
            text
        }
        _ => panic!("expected an append"),
    };
    assert_eq!(text, "# Added by TarSmith installer\nexport PATH=\"$HOME/.local/bin:$PATH\"\n");
    let after = format!("alias x=y\n{}", text);
    let again = plan_path_update("/home/u/.local/bin", Some("/usr/bin"), ShellKind::Bash, "/home/u/.bashrc", Some(&after));
    assert!(matches!(again, PathUpdate::AlreadyConfigured));
}

#[test]
fn path_update_cases() {
    let u = plan_path_update("/h/.local/bin", Some("/h/.local/bin"), ShellKind::Zsh, "/h/.zshrc", None);
    assert!(matches!(u, PathUpdate::AlreadyInPath));
    let u = plan_path_update("/h/.local/bin", None, ShellKind::Fish, "/h/.config/fish/config.fish", None);
    match u {
        PathUpdate::Append { text, create_parent, .. } => {
            assert!(create_parent);
            assert_eq!(text, "# Added by TarSmith installer\nset -gx PATH $HOME/.local/bin $PATH\n");
        }
        _ => panic!("expected an append"),
    }
    assert!(mentions_bin("export PATH=~/.local/bin:$PATH"));
    assert!(!mentions_bin("export PATH=/usr/bin"));
    assert_eq!(path_text(ShellKind::Zsh), "# Added by TarSmith installer\nexport PATH=\"$HOME/.local/bin:$PATH\"\n");
}

#[test]
fn locations_by_scope() {
    assert_eq!(install_root_for("/home/u", true), "/home/u/.local/tarsmith");
    assert_eq!(install_root_for("/home/u", false), "/opt");
    assert_eq!(bin_dir_for("/home/u", true), "/home/u/.local/bin");
    assert_eq!(bin_dir_for("/home/u", false), "/usr/local/bin");
    assert_eq!(desktop_file_for("/home/u", true, "app"), "/home/u/.local/share/applications/app.desktop");
    assert_eq!(desktop_file_for("/home/u", false, "app"), "/usr/share/applications/app.desktop");
    assert_eq!(install_root(false).unwrap(), "/opt");
    assert_eq!(bin_dir(false).unwrap(), "/usr/local/bin");
    if let Some(root) = install_root(true) {
        assert!(root.ends_with(".local/tarsmith"));
    }
}
