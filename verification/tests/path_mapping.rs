use restitch::paths::{accept_home, backup_path, backup_root, current_home, home_rel, join_home, resolve_path, staged_path};

#[test]
fn tilde_alone_resolves_to_home() {
    assert_eq!(resolve_path("~", "/home/u"), "/home/u");
}

#[test]
fn tilde_slash_resolves_under_home() {
    assert_eq!(resolve_path("~/.zshrc", "/home/u"), "/home/u/.zshrc");
}

#[test]
fn tilde_other_user_is_untouched() {
    assert_eq!(resolve_path("~other/.zshrc", "/home/u"), "~other/.zshrc");
}

#[test]
fn absolute_path_is_untouched() {
    assert_eq!(resolve_path("/etc/fstab", "/home/u"), "/etc/fstab");
}

#[test]
fn relative_path_is_untouched() {
    assert_eq!(resolve_path("notes.txt", "/home/u"), "notes.txt");
}

#[test]
fn home_rel_strips_home_prefix() {
    assert_eq!(home_rel("/home/u/.zshrc", "/home/u"), Some(".zshrc".to_string()));
    assert_eq!(
        home_rel("/home/u/.config/app/settings.toml", "/home/u"),
        Some(".config/app/settings.toml".to_string())
    );
}

#[test]
fn home_rel_rejects_paths_outside_home() {
    assert_eq!(home_rel("/etc/fstab", "/home/u"), None);
    assert_eq!(home_rel("/home/uother/.zshrc", "/home/u"), None);
    assert_eq!(home_rel("/home/u", "/home/u"), None);
    assert_eq!(home_rel("/home/u/", "/home/u"), None);
}

#[test]
fn home_rel_undoes_join_home() {
    let rel = ".config/app/settings.toml";
    let dest = join_home("/home/u", rel);
    assert_eq!(dest, "/home/u/.config/app/settings.toml");
    assert_eq!(home_rel(&dest, "/home/u"), Some(rel.to_string()));
}

#[test]
fn backup_and_staged_locations_follow_the_convention() {
    assert_eq!(
        backup_path("2024-01-01_00-00-00", ".zshrc"),
        "backups/2024-01-01_00-00-00/.zshrc"
    );
    assert_eq!(backup_root("2024-01-01_00-00-00"), "backups/2024-01-01_00-00-00");
    assert_eq!(staged_path(".zshrc"), "restitch_tmp/.zshrc");
}

#[test]
fn current_home_is_absolute_when_known() {
    if let Some(h) = current_home() {
        assert!(h.starts_with('/'));
    }
}

#[test]
fn only_an_absolute_home_is_accepted() {
    assert_eq!(accept_home(Some("/home/u".to_string())), Some("/home/u".to_string()));
    assert_eq!(accept_home(Some("home/u".to_string())), None);
    assert_eq!(accept_home(Some("".to_string())), None);
    assert_eq!(accept_home(None), None);
}
