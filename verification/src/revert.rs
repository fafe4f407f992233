use vstd::prelude::*;

use crate::model::{
    apply_ops, lemma_ops_frame, lemma_restore_effect, no_write, op_writes, restore_entry_post,
    restore_pre,
};
use crate::paths::{
    backup_path, backup_path_of, dest_path_of, is_abs, join_home, lemma_dest_path_injective,
    lemma_families_disjoint,
};
use crate::restore::{restore_ops_model, ActionModel, FsOp, OpModel};

verus! {

/// The operations that replay a backup root: every file found under it,
/// named by its home-relative path, is copied back to its place under
/// the home directory, overwriting whatever is there. Nothing is removed
/// and no second backup is taken: a revert is one-shot.
pub open spec fn revert_ops_model(
    rels: Seq<Seq<char>>,
    label: Seq<char>,
    home: Seq<char>,
) -> Seq<OpModel> {
    Seq::new(
        rels.len(),
        |i: int|
            OpModel::Copy {
                from: backup_path_of(label, rels[i]),
                to: dest_path_of(home, rels[i]),
            },
    )
}

/// Build the operations that replay the backup root `label` onto the
/// home directory. `rels` holds the home-relative paths of the files
/// found under that root, in any order.
pub fn revert_ops(rels: &Vec<String>, label: &str, home: &str) -> (ops: Vec<FsOp>)
    ensures
        ops@.map_values(|op: FsOp| op@) =~= revert_ops_model(
            rels@.map_values(|s: String| s@),
            label@,
            home@,
        ),
{
    let mut ops: Vec<FsOp> = Vec::new();
    let n = rels.len();
    let mut i: usize = 0;
    while i < n
        invariant
            0 <= i <= n,
            n == rels@.len(),
            ops@.len() == i,
            forall|j: int|
                0 <= j < i ==> (#[trigger] ops@[j])@ == (OpModel::Copy {
                    from: backup_path_of(label@, rels@[j]@),
                    to: dest_path_of(home@, rels@[j]@),
                }),
        decreases n - i,
    {
        let r = rels[i].as_str();
        ops.push(FsOp::CopyEntry { from: backup_path(label, r), to: join_home(home, r), dir: false });
        i += 1;
    }
    ops
}

/// Replaying a backup writes nowhere but at the destinations of the
/// relative paths it holds.
pub proof fn lemma_revert_ops_no_write(
    rels: Seq<Seq<char>>,
    label: Seq<char>,
    home: Seq<char>,
    k: Seq<char>,
)
    requires
        forall|i: int| 0 <= i < rels.len() ==> dest_path_of(home, #[trigger] rels[i]) != k,
    ensures
        no_write(revert_ops_model(rels, label, home), k),
{
    let ops = revert_ops_model(rels, label, home);
    assert forall|j: int| 0 <= j < ops.len() implies !op_writes(#[trigger] ops[j], k) by {
        assert(ops[j] == (OpModel::Copy {
            from: backup_path_of(label, rels[j]),
            to: dest_path_of(home, rels[j]),
        }));
    }
}

/// The revert engine's effect: after replaying the backup root, every
/// replayed relative path holds, at its place under home, exactly the
/// bytes the backup holds for it.
pub proof fn lemma_revert_effect(
    fs: Map<Seq<char>, Seq<u8>>,
    rels: Seq<Seq<char>>,
    label: Seq<char>,
    home: Seq<char>,
)
    requires
        is_abs(home),
        forall|i: int, j: int|
            0 <= i < rels.len() && 0 <= j < rels.len() && i != j ==> #[trigger] rels[i]
                != #[trigger] rels[j],
        forall|i: int| 0 <= i < rels.len() ==> fs.dom().contains(
            backup_path_of(label, #[trigger] rels[i]),
        ),
    ensures
        ({
            let fs2 = apply_ops(fs, revert_ops_model(rels, label, home));
            forall|i: int|
                0 <= i < rels.len() ==> fs2.dom().contains(dest_path_of(home, #[trigger] rels[i]))
                    && fs2[dest_path_of(home, rels[i])] == fs[backup_path_of(label, rels[i])]
        }),
    decreases rels.len(),
{
    if rels.len() == 0 {
        return ;
    }
    let front = rels.drop_last();
    let r = rels.last();
    assert(forall|i: int| 0 <= i < front.len() ==> #[trigger] front[i] == rels[i]);
    lemma_revert_effect(fs, front, label, home);

    let ops = revert_ops_model(rels, label, home);
    let ops_f = revert_ops_model(front, label, home);
    assert(ops.drop_last() =~= ops_f);
    assert(ops.last() == (OpModel::Copy {
        from: backup_path_of(label, r),
        to: dest_path_of(home, r),
    }));
    let fs_f = apply_ops(fs, ops_f);
    assert(apply_ops(fs, ops) == apply_op_last(fs_f, r, label, home));

    // No replay writes at any backup location, so the source of the last
    // copy is still exactly what the backup holds.
    assert forall|i: int|
        0 <= i < front.len() implies dest_path_of(home, #[trigger] front[i]) != backup_path_of(
        label,
        r,
    ) by {
        lemma_families_disjoint(home, label, front[i], r);
    }
    lemma_revert_ops_no_write(front, label, home, backup_path_of(label, r));
    lemma_ops_frame(fs, ops_f, backup_path_of(label, r));

    let fs2 = apply_ops(fs, ops);
    assert(fs2 == fs_f.insert(dest_path_of(home, r), fs[backup_path_of(label, r)]));
    assert forall|i: int|
        0 <= i < rels.len() implies fs2.dom().contains(dest_path_of(home, #[trigger] rels[i]))
        && fs2[dest_path_of(home, rels[i])] == fs[backup_path_of(label, rels[i])] by {
        if i < rels.len() - 1 {
            assert(rels[i] == front[i]);
            if dest_path_of(home, rels[i]) == dest_path_of(home, r) {
                lemma_dest_path_injective(home, rels[i], r);
            }
        } else {
            assert(rels[i] == r);
        }
    }
}

/// The effect of the one copy the last replayed path compiles to.
spec fn apply_op_last(
    fs: Map<Seq<char>, Seq<u8>>,
    r: Seq<char>,
    label: Seq<char>,
    home: Seq<char>,
) -> Map<Seq<char>, Seq<u8>> {
    crate::model::apply_op(
        fs,
        OpModel::Copy { from: backup_path_of(label, r), to: dest_path_of(home, r) },
    )
}

/// Reverting immediately after a restore restores every overwritten
/// destination to its pre-restore content, and leaves a destination that
/// had not existed with the restored content (there was nothing to put
/// back). `rels` must hold exactly the relative paths the restore backed
/// up, in any order and each once — which is what enumerating the fresh
/// backup root yields.
pub proof fn lemma_revert_undoes_restore(
    fs: Map<Seq<char>, Seq<u8>>,
    plan: Seq<ActionModel>,
    rels: Seq<Seq<char>>,
    home: Seq<char>,
    label: Seq<char>,
)
    requires
        restore_pre(fs, plan, home, label),
        forall|i: int, j: int|
            0 <= i < rels.len() && 0 <= j < rels.len() && i != j ==> #[trigger] rels[i]
                != #[trigger] rels[j],
        forall|k: int|
            0 <= k < rels.len() ==> exists|i: int|
                0 <= i < plan.len() && (#[trigger] plan[i]).present && plan[i].rel
                    == #[trigger] rels[k],
        forall|i: int|
            0 <= i < plan.len() && (#[trigger] plan[i]).present ==> exists|k: int|
                0 <= k < rels.len() && #[trigger] rels[k] == plan[i].rel,
    ensures
        ({
            let fs1 = apply_ops(fs, restore_ops_model(plan));
            let fs2 = apply_ops(fs1, revert_ops_model(rels, label, home));
            forall|i: int|
                0 <= i < plan.len() ==> ({
                    let a = #[trigger] plan[i];
                    &&& fs2.dom().contains(a.dest)
                    &&& (a.present ==> fs2[a.dest] == fs[a.dest])
                    &&& (!a.present ==> fs2[a.dest] == fs[a.staged])
                })
        }),
{
    lemma_restore_effect(fs, plan, home, label);
    let fs1 = apply_ops(fs, restore_ops_model(plan));
    let fs2 = apply_ops(fs1, revert_ops_model(rels, label, home));

    assert forall|k: int|
        0 <= k < rels.len() implies fs1.dom().contains(
        backup_path_of(label, #[trigger] rels[k]),
    ) by {
        let i = choose|i: int|
            0 <= i < plan.len() && (#[trigger] plan[i]).present && plan[i].rel == rels[k];
        assert(restore_entry_post(fs, fs1, plan[i]));
        assert(plan[i].backup == backup_path_of(label, rels[k]));
    }
    lemma_revert_effect(fs1, rels, label, home);

    assert forall|i: int|
        0 <= i < plan.len() implies ({
        let a = #[trigger] plan[i];
        &&& fs2.dom().contains(a.dest)
        &&& (a.present ==> fs2[a.dest] == fs[a.dest])
        &&& (!a.present ==> fs2[a.dest] == fs[a.staged])
    }) by {
        let a = plan[i];
        assert(restore_entry_post(fs, fs1, a));
        if a.present {
            let k = choose|k: int| 0 <= k < rels.len() && #[trigger] rels[k] == a.rel;
            assert(dest_path_of(home, rels[k]) == a.dest);
            assert(backup_path_of(label, rels[k]) == a.backup);
            assert(fs2[a.dest] == fs1[a.backup]);
        } else {
            assert forall|k: int|
                0 <= k < rels.len() implies dest_path_of(home, #[trigger] rels[k]) != a.dest by {
                if dest_path_of(home, rels[k]) == a.dest {
                    lemma_dest_path_injective(home, rels[k], a.rel);
                    let j = choose|j: int|
                        0 <= j < plan.len() && (#[trigger] plan[j]).present && plan[j].rel
                            == rels[k];
                    assert(plan[j].rel == plan[i].rel);
                    assert(j == i);
                }
            }
            lemma_revert_ops_no_write(rels, label, home, a.dest);
            lemma_ops_frame(fs1, revert_ops_model(rels, label, home), a.dest);
        }
    }
}

} // verus!
