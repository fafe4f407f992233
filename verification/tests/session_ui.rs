use restitch::config::ConfigItem;
use restitch::detectors::{build_targets, TargetEntry};
use restitch::selection::{selected_only, ui_step, UiKey, UiOutcome};
use restitch::session::{confirmation_accepts, select_mode, Mode};

fn item(name: &str, path: &str, selected: bool) -> ConfigItem {
    ConfigItem { name: name.to_string(), path: path.to_string(), selected }
}

#[test]
fn dry_run_without_restore_is_a_usage_error() {
    assert_eq!(select_mode(false, false, true), None);
    assert_eq!(select_mode(false, true, true), None);
}

#[test]
fn mode_selection_follows_the_flags() {
    assert_eq!(select_mode(false, false, false), Some(Mode::Package));
    assert_eq!(select_mode(true, false, false), Some(Mode::Restore));
    assert_eq!(select_mode(true, false, true), Some(Mode::Restore));
    assert_eq!(select_mode(false, true, false), Some(Mode::Revert));
    assert_eq!(select_mode(true, true, false), Some(Mode::Revert));
}

#[test]
fn only_a_plain_yes_confirms() {
    assert!(confirmation_accepts("y"));
    assert!(confirmation_accepts("Y"));
    assert!(confirmation_accepts("y\n"));
    assert!(confirmation_accepts("  Y  "));
    assert!(!confirmation_accepts(""));
    assert!(!confirmation_accepts("\n"));
    assert!(!confirmation_accepts("n"));
    assert!(!confirmation_accepts("yes"));
    assert!(!confirmation_accepts("yy"));
    assert!(!confirmation_accepts("x y"));
}

#[test]
fn cursor_movement_wraps_both_ways() {
    let mut items = vec![item("a", "/home/u/a", true), item("b", "/home/u/b", true), item(
        "c",
        "/home/u/c",
        true,
    )];
    let (down, out) = ui_step(&mut items, 2, UiKey::Down);
    assert_eq!(down, 0);
    assert_eq!(out, UiOutcome::Continue);
    let (up, _) = ui_step(&mut items, 0, UiKey::Up);
    assert_eq!(up, 2);
    let (mid, _) = ui_step(&mut items, 1, UiKey::Down);
    assert_eq!(mid, 2);
}

#[test]
fn toggling_flips_only_the_entry_under_the_cursor() {
    let mut items = vec![item("a", "/home/u/a", true), item("b", "/home/u/b", false)];
    let (cursor, out) = ui_step(&mut items, 1, UiKey::Toggle);
    assert_eq!(cursor, 1);
    assert_eq!(out, UiOutcome::Continue);
    assert!(items[0].selected);
    assert!(items[1].selected);
    ui_step(&mut items, 1, UiKey::Toggle);
    assert!(!items[1].selected);
}

#[test]
fn accept_and_cancel_end_the_browse() {
    let mut items = vec![item("a", "/home/u/a", true)];
    assert_eq!(ui_step(&mut items, 0, UiKey::Accept).1, UiOutcome::Accepted);
    assert_eq!(ui_step(&mut items, 0, UiKey::Cancel).1, UiOutcome::Cancelled);
    assert_eq!(ui_step(&mut items, 0, UiKey::Other).1, UiOutcome::Continue);
}

#[test]
fn only_selected_entries_are_kept_in_order() {
    let items = vec![
        item("a", "/home/u/a", true),
        item("b", "/home/u/b", false),
        item("c", "/home/u/c", true),
    ];
    let kept = selected_only(&items);
    assert_eq!(kept.len(), 2);
    assert_eq!(kept[0].name, "a");
    assert_eq!(kept[1].name, "c");
}

#[test]
fn duplicate_copies_every_field() {
    let original = item("a", "/home/u/a", false);
    let copy = original.duplicate();
    assert_eq!(copy.name, "a");
    assert_eq!(copy.path, "/home/u/a");
    assert!(!copy.selected);
}

#[test]
fn scanning_keeps_existing_targets_resolved_and_selected() {
    let entries = vec![
        TargetEntry { name: "shell-rc".to_string(), path: "~/.zshrc".to_string() },
        TargetEntry { name: "gone".to_string(), path: "~/.gone".to_string() },
    ];
    let found = vec![true, false];
    let items = build_targets(&entries, &found, "/home/u");
    assert_eq!(items.len(), 1);
    assert_eq!(items[0].name, "shell-rc");
    assert_eq!(items[0].path, "/home/u/.zshrc");
    assert!(items[0].selected);
}

#[test]
fn reading_a_manifest_back_selects_every_entry() {
    let mut items = vec![
        item("a", "/home/u/a", false),
        item("b", "/home/u/b", true),
        item("c", "/home/u/c", false),
    ];
    restitch::config::select_all(&mut items);
    assert_eq!(items.len(), 3);
    assert!(items.iter().all(|it| it.selected));
    assert_eq!(items[0].name, "a");
    assert_eq!(items[2].path, "/home/u/c");
}
