use restitch::config::ConfigItem;
use restitch::packager::{plan_package, PackageOutcome};

fn item(name: &str, path: &str) -> ConfigItem {
    ConfigItem { name: name.to_string(), path: path.to_string(), selected: true }
}

#[test]
fn nothing_selected_is_a_no_op() {
    let r = plan_package(&vec![], &vec![], "/home/u", "archive");
    assert!(matches!(r, PackageOutcome::NothingSelected));
}

#[test]
fn one_missing_source_aborts_and_every_missing_entry_is_named() {
    let items = vec![
        item("gone", "~/.gone"),
        item("shell-rc", "~/.zshrc"),
        item("also-gone", "~/.also_gone"),
    ];
    let found = vec![false, true, false];
    match plan_package(&items, &found, "/home/u", "archive") {
        PackageOutcome::MissingSources(names) => {
            assert_eq!(names, vec!["gone".to_string(), "also-gone".to_string()]);
        }
        _ => panic!("packaging must refuse a request with missing sources"),
    }
}

#[test]
fn sources_outside_home_abort_and_are_all_named() {
    let items = vec![
        item("fstab", "/etc/fstab"),
        item("shell-rc", "~/.zshrc"),
        item("hosts", "/etc/hosts"),
    ];
    let found = vec![true, true, true];
    match plan_package(&items, &found, "/home/u", "archive") {
        PackageOutcome::OutsideHome(names) => {
            assert_eq!(names, vec!["fstab".to_string(), "hosts".to_string()]);
        }
        _ => panic!("packaging must refuse a request it cannot place under home"),
    }
}

#[test]
fn a_clean_request_yields_the_full_plan() {
    let items = vec![item("shell-rc", "~/.zshrc"), item("app", "/home/u/.config/app")];
    let found = vec![true, true];
    match plan_package(&items, &found, "/home/u", "restitch-archive") {
        PackageOutcome::Ready(plan) => {
            assert_eq!(plan.adds.len(), 2);
            assert_eq!(plan.adds[0].source, "/home/u/.zshrc");
            assert_eq!(plan.adds[0].rel, ".zshrc");
            assert_eq!(plan.adds[1].source, "/home/u/.config/app");
            assert_eq!(plan.adds[1].rel, ".config/app");
            assert_eq!(plan.archive_path, "outputs/restitch-archive.tar.gz");
            assert_eq!(plan.manifest_path, "outputs/restitch-archive.manifest.toml");
        }
        _ => panic!("a clean request must be packaged"),
    }
}

#[test]
fn missing_sources_are_reported_before_placement() {
    let items = vec![item("fstab", "/etc/fstab"), item("gone", "~/.gone")];
    let found = vec![true, false];
    match plan_package(&items, &found, "/home/u", "archive") {
        PackageOutcome::MissingSources(names) => {
            assert_eq!(names, vec!["gone".to_string()]);
        }
        _ => panic!("missing sources take precedence"),
    }
}
