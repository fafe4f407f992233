use vstd::prelude::*;

use crate::paths::{
    backup_path_of, dest_path_of, is_abs, lemma_backup_path_injective, lemma_dest_path_injective,
    lemma_families_disjoint,
};
use crate::config::ItemModel;
use crate::restore::{
    action_wf, ops_of_action, plan_model, plan_wf, rels_distinct, restore_ops_model, ActionModel,
    OpModel, PathProbe,
};

verus! {

// ---------------------------------------------------------------------------
// A model of the filesystem: each key is the path of one entry (a single
// file, or a whole directory tree handled as one unit by move and
// recursive copy), each value that entry's byte content. Moving removes
// the source; copying keeps it. An operation whose source is missing does
// nothing, mirroring a copy that has nothing to read.
// ---------------------------------------------------------------------------

/// One operation's effect on the modeled filesystem.
pub open spec fn apply_op(fs: Map<Seq<char>, Seq<u8>>, op: OpModel) -> Map<Seq<char>, Seq<u8>> {
    match op {
        OpModel::Move { from, to } => if fs.dom().contains(from) {
            fs.remove(from).insert(to, fs[from])
        } else {
            fs
        },
        OpModel::Copy { from, to } => if fs.dom().contains(from) {
            fs.insert(to, fs[from])
        } else {
            fs
        },
    }
}

/// The effect of a whole operation sequence, first operation first.
pub open spec fn apply_ops(fs: Map<Seq<char>, Seq<u8>>, ops: Seq<OpModel>) -> Map<
    Seq<char>,
    Seq<u8>,
>
    decreases ops.len(),
{
    if ops.len() == 0 {
        fs
    } else {
        apply_op(apply_ops(fs, ops.drop_last()), ops.last())
    }
}

/// Whether an operation writes (inserts or removes) at key `k`.
pub open spec fn op_writes(op: OpModel, k: Seq<char>) -> bool {
    match op {
        OpModel::Move { from, to } => from == k || to == k,
        OpModel::Copy { from: _, to } => to == k,
    }
}

/// No operation of the sequence writes at key `k`.
pub open spec fn no_write(ops: Seq<OpModel>, k: Seq<char>) -> bool {
    forall|j: int| 0 <= j < ops.len() ==> !op_writes(#[trigger] ops[j], k)
}

/// A key nothing writes keeps its presence and its value.
pub proof fn lemma_ops_frame(fs: Map<Seq<char>, Seq<u8>>, ops: Seq<OpModel>, k: Seq<char>)
    requires
        no_write(ops, k),
    ensures
        apply_ops(fs, ops).dom().contains(k) == fs.dom().contains(k),
        fs.dom().contains(k) ==> apply_ops(fs, ops)[k] == fs[k],
    decreases ops.len(),
{
    if ops.len() > 0 {
        assert(no_write(ops.drop_last(), k)) by {
            assert(forall|j: int|
                0 <= j < ops.len() - 1 ==> #[trigger] ops.drop_last()[j] == ops[j]);
        }
        lemma_ops_frame(fs, ops.drop_last(), k);
        assert(!op_writes(ops.last(), k));
    }
}

/// Splitting a sequence of operations splits its effect.
pub proof fn lemma_apply_ops_app(fs: Map<Seq<char>, Seq<u8>>, s1: Seq<OpModel>, s2: Seq<OpModel>)
    ensures
        apply_ops(fs, s1 + s2) == apply_ops(apply_ops(fs, s1), s2),
    decreases s2.len(),
{
    if s2.len() == 0 {
        assert(s1 + s2 =~= s1);
    } else {
        assert((s1 + s2).drop_last() =~= s1 + s2.drop_last());
        assert((s1 + s2).last() == s2.last());
        lemma_apply_ops_app(fs, s1, s2.drop_last());
    }
}

/// A key that is neither a destination nor a backup location of any
/// planned action is never written by the compiled restore operations.
pub proof fn lemma_restore_ops_no_write(plan: Seq<ActionModel>, k: Seq<char>)
    requires
        forall|i: int|
            0 <= i < plan.len() ==> (#[trigger] plan[i]).dest != k && plan[i].backup != k,
    ensures
        no_write(restore_ops_model(plan), k),
    decreases plan.len(),
{
    if plan.len() > 0 {
        let front = plan.drop_last();
        let a = plan.last();
        assert(forall|i: int|
            0 <= i < front.len() ==> (#[trigger] front[i]).dest != k && front[i].backup != k)
            by {
            assert(forall|i: int| 0 <= i < front.len() ==> #[trigger] front[i] == plan[i]);
        }
        lemma_restore_ops_no_write(front, k);
        let prev = restore_ops_model(front);
        let tail = ops_of_action(a);
        let ops = restore_ops_model(plan);
        assert forall|j: int| 0 <= j < ops.len() implies !op_writes(#[trigger] ops[j], k) by {
            if j < prev.len() {
                assert(ops[j] == prev[j]);
            } else {
                assert(ops[j] == tail[j - prev.len()]);
            }
        }
    }
}

// ---------------------------------------------------------------------------
// What a restore does, and the laws that rest on it.
// ---------------------------------------------------------------------------

/// What must hold when the executor starts: the home directory is
/// absolute, every action follows the path convention with a relative
/// path of its own, the extracted container holds every entry, the
/// presence flags match the filesystem, and the backup root is fresh.
pub open spec fn restore_pre(
    fs: Map<Seq<char>, Seq<u8>>,
    plan: Seq<ActionModel>,
    home: Seq<char>,
    label: Seq<char>,
) -> bool {
    &&& is_abs(home)
    &&& plan_wf(plan, home, label)
    &&& rels_distinct(plan)
    &&& forall|i: int| 0 <= i < plan.len() ==> fs.dom().contains((#[trigger] plan[i]).staged)
    &&& forall|i: int|
        0 <= i < plan.len() ==> ((#[trigger] plan[i]).present <==> fs.dom().contains(
            plan[i].dest,
        ))
    &&& forall|i: int| 0 <= i < plan.len() ==> !fs.dom().contains((#[trigger] plan[i]).backup)
}

/// What one restored entry looks like afterwards: the staged content is
/// in place; what was there before sits in the backup, and only then; the
/// staged copy itself is untouched.
pub open spec fn restore_entry_post(
    fs: Map<Seq<char>, Seq<u8>>,
    fs1: Map<Seq<char>, Seq<u8>>,
    a: ActionModel,
) -> bool {
    &&& fs1.dom().contains(a.dest)
    &&& fs1[a.dest] == fs[a.staged]
    &&& a.present ==> fs1.dom().contains(a.backup) && fs1[a.backup] == fs[a.dest]
    &&& !a.present ==> !fs1.dom().contains(a.backup)
    &&& fs1.dom().contains(a.staged)
    &&& fs1[a.staged] == fs[a.staged]
}

/// Every entry of the plan ends in the state `restore_entry_post`
/// describes.
pub open spec fn restore_post(
    fs: Map<Seq<char>, Seq<u8>>,
    fs1: Map<Seq<char>, Seq<u8>>,
    plan: Seq<ActionModel>,
) -> bool {
    forall|i: int| 0 <= i < plan.len() ==> restore_entry_post(fs, fs1, #[trigger] plan[i])
}

/// The executor's effect: running the compiled operations of a
/// well-formed plan puts every entry's staged content at its destination
/// and moves exactly the overwritten content into the backup root. Each
/// entry's outcome is independent of every other entry's.
pub proof fn lemma_restore_effect(
    fs: Map<Seq<char>, Seq<u8>>,
    plan: Seq<ActionModel>,
    home: Seq<char>,
    label: Seq<char>,
)
    requires
        restore_pre(fs, plan, home, label),
    ensures
        restore_post(fs, apply_ops(fs, restore_ops_model(plan)), plan),
    decreases plan.len(),
{
    if plan.len() == 0 {
        return ;
    }
    let front = plan.drop_last();
    let a = plan.last();
    assert(forall|i: int| 0 <= i < front.len() ==> #[trigger] front[i] == plan[i]);
    assert(restore_pre(fs, front, home, label));
    lemma_restore_effect(fs, front, home, label);

    let ops_f = restore_ops_model(front);
    let tail = ops_of_action(a);
    let fs_f = apply_ops(fs, ops_f);
    lemma_apply_ops_app(fs, ops_f, tail);
    assert(restore_ops_model(plan) == ops_f + tail);
    let fs1 = apply_ops(fs_f, tail);

    // The front entries' operations never touch the last entry's keys.
    assert forall|i: int|
        0 <= i < front.len() implies (#[trigger] front[i]).dest != a.dest && front[i].backup
        != a.dest && front[i].dest != a.backup && front[i].backup != a.backup && front[i].dest
        != a.staged && front[i].backup != a.staged by {
        let b = front[i];
        assert(b.rel != a.rel);
        if b.dest == a.dest {
            lemma_dest_path_injective(home, b.rel, a.rel);
        }
        if b.backup == a.backup {
            lemma_backup_path_injective(label, b.rel, a.rel);
        }
        lemma_families_disjoint(home, label, b.rel, a.rel);
        lemma_families_disjoint(home, label, a.rel, b.rel);
        lemma_families_disjoint(home, label, b.rel, b.rel);
    }
    lemma_restore_ops_no_write(front, a.dest);
    lemma_restore_ops_no_write(front, a.backup);
    lemma_restore_ops_no_write(front, a.staged);
    lemma_ops_frame(fs, ops_f, a.dest);
    lemma_ops_frame(fs, ops_f, a.backup);
    lemma_ops_frame(fs, ops_f, a.staged);

    // The last entry's own keys never alias one another.
    lemma_families_disjoint(home, label, a.rel, a.rel);

    // Unfold the one or two operations of the last entry.
    let c = OpModel::Copy { from: a.staged, to: a.dest };
    if a.present {
        let m = OpModel::Move { from: a.dest, to: a.backup };
        assert(tail =~= seq![m, c]);
        assert(tail.last() == c);
        assert(tail.drop_last() =~= seq![m]);
        assert(seq![m].last() == m);
        assert(seq![m].drop_last() =~= Seq::<OpModel>::empty());
        assert(apply_ops(fs_f, Seq::<OpModel>::empty()) == fs_f);
        assert(apply_ops(fs_f, seq![m]) == apply_op(fs_f, m));
        assert(apply_ops(fs_f, tail.drop_last()) == apply_op(fs_f, m));
        assert(apply_ops(fs_f, tail) == apply_op(apply_op(fs_f, m), c));
    } else {
        assert(tail =~= seq![c]);
        assert(tail.last() == c);
        assert(tail.drop_last() =~= Seq::<OpModel>::empty());
        assert(apply_ops(fs_f, Seq::<OpModel>::empty()) == fs_f);
        assert(apply_ops(fs_f, tail) == apply_op(fs_f, c));
    }
    assert(restore_entry_post(fs, fs1, a));

    // The last entry's operations never touch a front entry's keys.
    assert forall|i: int| 0 <= i < front.len() implies restore_entry_post(
        fs,
        fs1,
        #[trigger] front[i],
    ) by {
        let b = front[i];
        assert(restore_entry_post(fs, fs_f, b));
        assert(b.rel != a.rel);
        if b.dest == a.dest {
            lemma_dest_path_injective(home, b.rel, a.rel);
        }
        if b.backup == a.backup {
            lemma_backup_path_injective(label, b.rel, a.rel);
        }
        lemma_families_disjoint(home, label, b.rel, a.rel);
        lemma_families_disjoint(home, label, a.rel, b.rel);
        assert(!op_writes(c, b.dest) && !op_writes(c, b.backup) && !op_writes(c, b.staged));
        if a.present {
            let m = OpModel::Move { from: a.dest, to: a.backup };
            assert(!op_writes(m, b.dest) && !op_writes(m, b.backup) && !op_writes(m, b.staged));
        }
    }

    assert(apply_ops(fs, restore_ops_model(plan)) == fs1);
    assert forall|i: int| 0 <= i < plan.len() implies restore_entry_post(
        fs,
        fs1,
        #[trigger] plan[i],
    ) by {
        if i < plan.len() - 1 {
            assert(plan[i] == front[i]);
        } else {
            assert(plan[i] == a);
        }
    }
}

/// Entries are independent: a run that stops after any number of whole
/// entries — as a failure on the next entry does — leaves every entry it
/// did process fully restored, with its backup in place.
pub proof fn lemma_restore_prefix_independent(
    fs: Map<Seq<char>, Seq<u8>>,
    plan: Seq<ActionModel>,
    home: Seq<char>,
    label: Seq<char>,
    k: int,
)
    requires
        restore_pre(fs, plan, home, label),
        0 <= k <= plan.len(),
    ensures
        restore_post(fs, apply_ops(fs, restore_ops_model(plan.take(k))), plan.take(k)),
{
    let prefix = plan.take(k);
    assert(forall|i: int| 0 <= i < prefix.len() ==> #[trigger] prefix[i] == plan[i]);
    assert(restore_pre(fs, prefix, home, label));
    lemma_restore_effect(fs, prefix, home, label);
}

/// An empty operation list mutates nothing: the contract of the plan
/// compiler makes a dry run compile to exactly this.
pub proof fn lemma_empty_ops_no_mutation(fs: Map<Seq<char>, Seq<u8>>)
    ensures
        apply_ops(fs, Seq::<OpModel>::empty()) == fs,
{
}

/// Planning is a pure function of the manifest, the probe results, the
/// home directory and the label: two runs over the same observations
/// produce the same plan, which is why a dry run shows exactly what a
/// real run would do.
pub proof fn lemma_planning_deterministic(
    items1: Seq<ItemModel>,
    items2: Seq<ItemModel>,
    probes1: Seq<PathProbe>,
    probes2: Seq<PathProbe>,
    home: Seq<char>,
    label: Seq<char>,
)
    requires
        items1 == items2,
        probes1 == probes2,
    ensures
        plan_model(items1, probes1, home, label) == plan_model(items2, probes2, home, label),
{
}

/// A destination that did not exist gets no backup entry: after the run
/// the staged content is in place and the backup root still has nothing
/// for it.
pub proof fn lemma_absent_destination_no_backup(
    fs: Map<Seq<char>, Seq<u8>>,
    plan: Seq<ActionModel>,
    home: Seq<char>,
    label: Seq<char>,
    i: int,
)
    requires
        restore_pre(fs, plan, home, label),
        0 <= i < plan.len(),
        !plan[i].present,
    ensures
        ({
            let fs1 = apply_ops(fs, restore_ops_model(plan));
            &&& fs1.dom().contains(plan[i].dest)
            &&& fs1[plan[i].dest] == fs[plan[i].staged]
            &&& !fs1.dom().contains(plan[i].backup)
        }),
{
    lemma_restore_effect(fs, plan, home, label);
}

/// The workspace holds, at every entry's staged location, exactly the
/// bytes the entry holds live. This is the state packaging followed by
/// extraction of the fresh container establishes.
pub open spec fn workspace_matches_live(
    fs: Map<Seq<char>, Seq<u8>>,
    plan: Seq<ActionModel>,
) -> bool {
    forall|i: int|
        0 <= i < plan.len() ==> fs[(#[trigger] plan[i]).staged] == fs[plan[i].dest]
}

/// Packaging followed immediately by restoring reproduces the original
/// bytes at every entry's path: when the workspace content agrees with
/// the live content, running the restore leaves every destination with
/// the bytes it already had.
pub proof fn lemma_package_restore_round_trip(
    fs: Map<Seq<char>, Seq<u8>>,
    plan: Seq<ActionModel>,
    home: Seq<char>,
    label: Seq<char>,
)
    requires
        restore_pre(fs, plan, home, label),
        workspace_matches_live(fs, plan),
    ensures
        ({
            let fs1 = apply_ops(fs, restore_ops_model(plan));
            forall|i: int|
                0 <= i < plan.len() ==> fs1.dom().contains((#[trigger] plan[i]).dest)
                    && fs1[plan[i].dest] == fs[plan[i].dest]
        }),
{
    lemma_restore_effect(fs, plan, home, label);
}

} // verus!
