use vstd::prelude::*;

use crate::config::{ConfigManifest, ItemModel};
use crate::paths::{
    backup_path, backup_path_of, dest_path_of, home_rel, home_rel_of, staged_path, staged_path_of,
};

verus! {

/// The result of passively probing one destination path: whether anything
/// is currently there, and whether it is a directory (directories are
/// backed up and copied recursively).
#[derive(Clone, Copy, PartialEq, Eq, Structural)]
pub struct PathProbe {
    pub present: bool,
    pub is_dir: bool,
}

/// One planned restore step, fully resolved: where the entry lives, where
/// its backup would go, and where the extracted container holds it.
#[derive(Debug)]
pub struct PlannedAction {
    pub name: String,
    pub dest: String,
    pub rel: String,
    pub backup: String,
    pub staged: String,
    pub present: bool,
    pub is_dir: bool,
}

/// Mathematical image of a [`PlannedAction`].
pub struct ActionModel {
    pub name: Seq<char>,
    pub dest: Seq<char>,
    pub rel: Seq<char>,
    pub backup: Seq<char>,
    pub staged: Seq<char>,
    pub present: bool,
    pub is_dir: bool,
}

impl View for PlannedAction {
    type V = ActionModel;

    open spec fn view(&self) -> ActionModel {
        ActionModel {
            name: self.name@,
            dest: self.dest@,
            rel: self.rel@,
            backup: self.backup@,
            staged: self.staged@,
            present: self.present,
            is_dir: self.is_dir,
        }
    }
}

/// An action is well formed when its three locations follow the shared
/// home-relative convention for its (non-empty) relative path.
pub open spec fn action_wf(a: ActionModel, home: Seq<char>, label: Seq<char>) -> bool {
    &&& a.rel.len() > 0
    &&& a.dest == dest_path_of(home, a.rel)
    &&& a.backup == backup_path_of(label, a.rel)
    &&& a.staged == staged_path_of(a.rel)
}

/// Every action of the plan is well formed.
pub open spec fn plan_wf(plan: Seq<ActionModel>, home: Seq<char>, label: Seq<char>) -> bool {
    forall|i: int| 0 <= i < plan.len() ==> action_wf(#[trigger] plan[i], home, label)
}

/// No two actions concern the same home-relative path.
pub open spec fn rels_distinct(plan: Seq<ActionModel>) -> bool {
    forall|i: int, j: int|
        0 <= i < plan.len() && 0 <= j < plan.len() && i != j ==> #[trigger] plan[i].rel
            != #[trigger] plan[j].rel
}

/// The action planned for one manifest entry.
pub open spec fn action_model_of(
    item: ItemModel,
    probe: PathProbe,
    home: Seq<char>,
    label: Seq<char>,
) -> ActionModel {
    let rel = home_rel_of(item.path, home)->Some_0;
    ActionModel {
        name: item.name,
        dest: item.path,
        rel: rel,
        backup: backup_path_of(label, rel),
        staged: staged_path_of(rel),
        present: probe.present,
        is_dir: probe.is_dir,
    }
}

/// The whole plan, one action per manifest entry, in manifest order.
pub open spec fn plan_model(
    items: Seq<ItemModel>,
    probes: Seq<PathProbe>,
    home: Seq<char>,
    label: Seq<char>,
) -> Seq<ActionModel> {
    Seq::new(items.len(), |i: int| action_model_of(items[i], probes[i], home, label))
}

/// Every entry's stored path lies strictly below the home directory.
pub open spec fn all_under_home(items: Seq<ItemModel>, home: Seq<char>) -> bool {
    forall|i: int| 0 <= i < items.len() ==> home_rel_of((#[trigger] items[i]).path, home) is Some
}

/// The names of the entries whose stored path does not lie below the home
/// directory, in manifest order.
pub open spec fn names_outside(items: Seq<ItemModel>, home: Seq<char>) -> Seq<Seq<char>>
    decreases items.len(),
{
    if items.len() == 0 {
        Seq::empty()
    } else {
        names_outside(items.drop_last(), home) + (if home_rel_of(
            items.last().path,
            home,
        ) is None {
            seq![items.last().name]
        } else {
            Seq::empty()
        })
    }
}

/// Compute the restore plan for a manifest: one action per entry, in
/// manifest order, mapping each entry to its destination, backup and
/// staged location. Entries outside the home directory cannot take part
/// in the home-relative convention; if any exist, planning is refused and
/// all their names are reported.
///
/// Planning mutates nothing; `probes` carries the passive existence check
/// for each entry's destination, in the same order as the manifest.
pub fn plan_restore(
    manifest: &ConfigManifest,
    probes: &Vec<PathProbe>,
    home: &str,
    label: &str,
) -> (r: Result<Vec<PlannedAction>, Vec<String>>)
    requires
        probes@.len() == manifest@.len(),
    ensures
        r is Ok <==> all_under_home(manifest@, home@),
        (r matches Ok(plan) ==> plan@.map_values(|a: PlannedAction| a@) =~= plan_model(
            manifest@,
            probes@,
            home@,
            label@,
        )),
        (r matches Err(names) ==> names@.map_values(|n: String| n@) =~= names_outside(
            manifest@,
            home@,
        )),
{
    let mut actions: Vec<PlannedAction> = Vec::new();
    let mut bad: Vec<String> = Vec::new();
    let n = manifest.items.len();
    let mut i: usize = 0;
    while i < n
        invariant
            0 <= i <= n,
            n == manifest@.len(),
            probes@.len() == manifest@.len(),
            bad@.map_values(|s: String| s@) =~= names_outside(manifest@.take(i as int), home@),
            (bad@.len() == 0) <==> (forall|j: int|
                0 <= j < i ==> home_rel_of((#[trigger] manifest@[j]).path, home@) is Some),
            bad@.len() == 0 ==> actions@.len() == i,
            bad@.len() == 0 ==> forall|j: int|
                0 <= j < i ==> (#[trigger] actions@[j])@ == action_model_of(
                    manifest@[j],
                    probes@[j],
                    home@,
                    label@,
                ),
        decreases n - i,
    {
        let item = &manifest.items[i];
        let probe = probes[i];
        proof {
            assert(manifest@.take(i as int + 1).drop_last() =~= manifest@.take(i as int));
            assert(manifest@.take(i as int + 1).last() == manifest@[i as int]);
        }
        match home_rel(item.path.as_str(), home) {
            Some(rel) => {
                if bad.len() == 0 {
                    let action = PlannedAction {
                        name: item.name.clone(),
                        dest: item.path.clone(),
                        backup: backup_path(label, rel.as_str()),
                        staged: staged_path(rel.as_str()),
                        rel: rel,
                        present: probe.present,
                        is_dir: probe.is_dir,
                    };
                    actions.push(action);
                }
            },
            None => {
                bad.push(item.name.clone());
            },
        }
        i += 1;
    }
    proof {
        assert(manifest@.take(n as int) =~= manifest@);
    }
    if bad.len() == 0 {
        Ok(actions)
    } else {
        Err(bad)
    }
}

/// What planning yields is well formed: every action follows the shared
/// path convention, with a non-empty relative path.
pub proof fn lemma_plan_model_wf(
    items: Seq<ItemModel>,
    probes: Seq<PathProbe>,
    home: Seq<char>,
    label: Seq<char>,
)
    requires
        probes.len() == items.len(),
        all_under_home(items, home),
    ensures
        plan_wf(plan_model(items, probes, home, label), home, label),
{
    let plan = plan_model(items, probes, home, label);
    assert forall|i: int| 0 <= i < plan.len() implies action_wf(#[trigger] plan[i], home, label) by {
        crate::paths::lemma_join_home_rel(items[i].path, home);
    }
}

/// Entries at distinct paths plan distinct relative paths, so their
/// destinations, backups and staged copies never collide.
pub proof fn lemma_plan_model_rels_distinct(
    items: Seq<ItemModel>,
    probes: Seq<PathProbe>,
    home: Seq<char>,
    label: Seq<char>,
)
    requires
        probes.len() == items.len(),
        all_under_home(items, home),
        forall|i: int, j: int|
            0 <= i < items.len() && 0 <= j < items.len() && i != j ==> #[trigger] items[i].path
                != #[trigger] items[j].path,
    ensures
        rels_distinct(plan_model(items, probes, home, label)),
{
    let plan = plan_model(items, probes, home, label);
    assert forall|i: int, j: int|
        0 <= i < plan.len() && 0 <= j < plan.len() && i != j implies #[trigger] plan[i].rel
        != #[trigger] plan[j].rel by {
        crate::paths::lemma_join_home_rel(items[i].path, home);
        crate::paths::lemma_join_home_rel(items[j].path, home);
    }
}

/// A primitive filesystem mutation, ready to be carried out by the shell
/// around the library. The interpreter creates missing parent directories
/// of `to` before either operation; `dir` only tells it whether the copy
/// walks a tree or a single file.
pub enum FsOp {
    MoveEntry { from: String, to: String },
    CopyEntry { from: String, to: String, dir: bool },
}

/// Mathematical image of an [`FsOp`]: a move or a copy of one entry's
/// whole content between two locations.
pub enum OpModel {
    Move { from: Seq<char>, to: Seq<char> },
    Copy { from: Seq<char>, to: Seq<char> },
}

impl View for FsOp {
    type V = OpModel;

    open spec fn view(&self) -> OpModel {
        match self {
            FsOp::MoveEntry { from, to } => OpModel::Move { from: from@, to: to@ },
            FsOp::CopyEntry { from, to, dir: _ } => OpModel::Copy { from: from@, to: to@ },
        }
    }
}

/// The operations one planned action compiles to: move the current
/// content aside into the backup (only when something is there), then
/// copy the staged content in.
pub open spec fn ops_of_action(a: ActionModel) -> Seq<OpModel> {
    if a.present {
        seq![
            OpModel::Move { from: a.dest, to: a.backup },
            OpModel::Copy { from: a.staged, to: a.dest },
        ]
    } else {
        seq![OpModel::Copy { from: a.staged, to: a.dest }]
    }
}

/// The operations of a whole plan, entry by entry, in plan order.
pub open spec fn restore_ops_model(plan: Seq<ActionModel>) -> Seq<OpModel>
    decreases plan.len(),
{
    if plan.len() == 0 {
        Seq::empty()
    } else {
        restore_ops_model(plan.drop_last()) + ops_of_action(plan.last())
    }
}

/// Compile a plan into the operations to carry out. A dry run compiles to
/// nothing at all: it can mutate nothing.
pub fn restore_ops(plan: &Vec<PlannedAction>, dry_run: bool) -> (ops: Vec<FsOp>)
    ensures
        dry_run ==> ops@.len() == 0,
        !dry_run ==> ops@.map_values(|op: FsOp| op@) =~= restore_ops_model(
            plan@.map_values(|a: PlannedAction| a@),
        ),
{
    let mut ops: Vec<FsOp> = Vec::new();
    if dry_run {
        return ops;
    }
    let ghost pm = plan@.map_values(|a: PlannedAction| a@);
    let n = plan.len();
    let mut i: usize = 0;
    while i < n
        invariant
            0 <= i <= n,
            n == plan@.len(),
            pm == plan@.map_values(|a: PlannedAction| a@),
            ops@.map_values(|op: FsOp| op@) =~= restore_ops_model(pm.take(i as int)),
        decreases n - i,
    {
        let a = &plan[i];
        proof {
            assert(pm.take(i as int + 1).drop_last() =~= pm.take(i as int));
            assert(pm.take(i as int + 1).last() == pm[i as int]);
            assert(pm[i as int] == plan@[i as int]@);
        }
        if a.present {
            ops.push(FsOp::MoveEntry { from: a.dest.clone(), to: a.backup.clone() });
        }
        ops.push(
            FsOp::CopyEntry { from: a.staged.clone(), to: a.dest.clone(), dir: a.is_dir },
        );
        i += 1;
    }
    proof {
        assert(pm.take(n as int) =~= pm);
    }
    ops
}

} // verus!
