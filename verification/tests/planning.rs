use std::collections::HashMap;

use restitch::config::{ConfigItem, ConfigManifest};
use restitch::restore::{plan_restore, restore_ops, FsOp, PathProbe};
use restitch::revert::revert_ops;

fn item(name: &str, path: &str) -> ConfigItem {
    ConfigItem { name: name.to_string(), path: path.to_string(), selected: true }
}

/// Carry out the primitive operations on an in-memory stand-in for the
/// filesystem, exactly as the interpreter around the library does on
/// disk: a move removes the source, a copy keeps it, both overwrite the
/// target.
fn apply(fs: &mut HashMap<String, String>, ops: &[FsOp]) {
    for op in ops {
        match op {
            FsOp::MoveEntry { from, to } => {
                if let Some(v) = fs.remove(from) {
                    fs.insert(to.clone(), v);
                }
            }
            FsOp::CopyEntry { from, to, dir: _ } => {
                if let Some(v) = fs.get(from).cloned() {
                    fs.insert(to.clone(), v);
                }
            }
        }
    }
}

#[test]
fn plan_maps_each_entry_to_the_three_locations() {
    let manifest = ConfigManifest {
        items: vec![item("shell-rc", "/home/u/.zshrc"), item("git", "/home/u/.gitconfig")],
    };
    let probes = vec![
        PathProbe { present: true, is_dir: false },
        PathProbe { present: false, is_dir: false },
    ];
    let plan = plan_restore(&manifest, &probes, "/home/u", "2024-01-01_00-00-00").unwrap();
    assert_eq!(plan.len(), 2);
    assert_eq!(plan[0].name, "shell-rc");
    assert_eq!(plan[0].dest, "/home/u/.zshrc");
    assert_eq!(plan[0].rel, ".zshrc");
    assert_eq!(plan[0].backup, "backups/2024-01-01_00-00-00/.zshrc");
    assert_eq!(plan[0].staged, "restitch_tmp/.zshrc");
    assert!(plan[0].present);
    assert_eq!(plan[1].rel, ".gitconfig");
    assert!(!plan[1].present);
}

#[test]
fn planning_is_deterministic_and_dry_run_compiles_to_nothing() {
    let manifest = ConfigManifest {
        items: vec![item("shell-rc", "/home/u/.zshrc"), item("git", "/home/u/.gitconfig")],
    };
    let probes = vec![
        PathProbe { present: true, is_dir: false },
        PathProbe { present: true, is_dir: true },
    ];
    let first = plan_restore(&manifest, &probes, "/home/u", "2024-01-01_00-00-00").unwrap();
    let second = plan_restore(&manifest, &probes, "/home/u", "2024-01-01_00-00-00").unwrap();
    assert_eq!(first.len(), second.len());
    for (a, b) in first.iter().zip(second.iter()) {
        assert_eq!(a.name, b.name);
        assert_eq!(a.dest, b.dest);
        assert_eq!(a.rel, b.rel);
        assert_eq!(a.backup, b.backup);
        assert_eq!(a.staged, b.staged);
        assert_eq!(a.present, b.present);
        assert_eq!(a.is_dir, b.is_dir);
    }
    let dry = restore_ops(&first, true);
    assert!(dry.is_empty());
}

#[test]
fn plan_refuses_entries_outside_home_and_names_them_all() {
    let manifest = ConfigManifest {
        items: vec![
            item("fstab", "/etc/fstab"),
            item("shell-rc", "/home/u/.zshrc"),
            item("hosts", "/etc/hosts"),
        ],
    };
    let probes = vec![
        PathProbe { present: true, is_dir: false },
        PathProbe { present: true, is_dir: false },
        PathProbe { present: true, is_dir: false },
    ];
    let err = plan_restore(&manifest, &probes, "/home/u", "2024-01-01_00-00-00").unwrap_err();
    assert_eq!(err, vec!["fstab".to_string(), "hosts".to_string()]);
}

#[test]
fn restore_overwrites_and_backs_up_then_revert_puts_it_back() {
    // The worked example: one entry, destination holds "Y", the
    // extracted container holds "X".
    let manifest = ConfigManifest { items: vec![item("shell-rc", "/home/u/.zshrc")] };
    let probes = vec![PathProbe { present: true, is_dir: false }];
    let label = "2024-01-01_00-00-00";
    let plan = plan_restore(&manifest, &probes, "/home/u", label).unwrap();
    let ops = restore_ops(&plan, false);

    let mut fs = HashMap::new();
    fs.insert("/home/u/.zshrc".to_string(), "Y".to_string());
    fs.insert("restitch_tmp/.zshrc".to_string(), "X".to_string());
    apply(&mut fs, &ops);
    assert_eq!(fs.get("backups/2024-01-01_00-00-00/.zshrc"), Some(&"Y".to_string()));
    assert_eq!(fs.get("/home/u/.zshrc"), Some(&"X".to_string()));

    let back = revert_ops(&vec![".zshrc".to_string()], label, "/home/u");
    apply(&mut fs, &back);
    assert_eq!(fs.get("/home/u/.zshrc"), Some(&"Y".to_string()));
}

#[test]
fn missing_destination_gets_no_backup_entry() {
    let manifest = ConfigManifest { items: vec![item("new-file", "/home/u/.newrc")] };
    let probes = vec![PathProbe { present: false, is_dir: false }];
    let label = "2024-01-01_00-00-00";
    let plan = plan_restore(&manifest, &probes, "/home/u", label).unwrap();
    let ops = restore_ops(&plan, false);
    assert_eq!(ops.len(), 1);
    assert!(matches!(&ops[0], FsOp::CopyEntry { .. }));

    let mut fs = HashMap::new();
    fs.insert("restitch_tmp/.newrc".to_string(), "fresh".to_string());
    apply(&mut fs, &ops);
    assert_eq!(fs.get("/home/u/.newrc"), Some(&"fresh".to_string()));
    assert!(!fs.keys().any(|k| k.starts_with("backups/")));
}

#[test]
fn packaging_then_restoring_reproduces_the_original_bytes() {
    // Staged content equal to the live content, as a restore straight
    // after packaging sees it: the destination keeps its bytes.
    let manifest = ConfigManifest { items: vec![item("shell-rc", "/home/u/.zshrc")] };
    let probes = vec![PathProbe { present: true, is_dir: false }];
    let label = "2024-03-05_10-20-30";
    let plan = plan_restore(&manifest, &probes, "/home/u", label).unwrap();
    let ops = restore_ops(&plan, false);

    let mut fs = HashMap::new();
    fs.insert("/home/u/.zshrc".to_string(), "same".to_string());
    fs.insert("restitch_tmp/.zshrc".to_string(), "same".to_string());
    apply(&mut fs, &ops);
    assert_eq!(fs.get("/home/u/.zshrc"), Some(&"same".to_string()));
}

#[test]
fn directory_entries_compile_to_recursive_copies() {
    let manifest = ConfigManifest { items: vec![item("config-dir", "/home/u/.config/app")] };
    let probes = vec![PathProbe { present: true, is_dir: true }];
    let plan = plan_restore(&manifest, &probes, "/home/u", "2024-01-01_00-00-00").unwrap();
    let ops = restore_ops(&plan, false);
    assert_eq!(ops.len(), 2);
    match &ops[1] {
        FsOp::CopyEntry { from, to, dir } => {
            assert_eq!(from, "restitch_tmp/.config/app");
            assert_eq!(to, "/home/u/.config/app");
            assert!(*dir);
        }
        _ => panic!("second operation must be the copy-in"),
    }
}
