use vstd::prelude::*;

use crate::config::{ConfigItem, ItemModel};
use crate::paths::{resolve_path, tilde_expanded};

verus! {

/// One raw target definition as the configuration file lists it: a
/// display name and a path that may still carry a leading `~`.
pub struct TargetEntry {
    pub name: String,
    pub path: String,
}

/// Mathematical image of a [`TargetEntry`].
pub struct TargetModel {
    pub name: Seq<char>,
    pub path: Seq<char>,
}

impl View for TargetEntry {
    type V = TargetModel;

    open spec fn view(&self) -> TargetModel {
        TargetModel { name: self.name@, path: self.path@ }
    }
}

/// The entries that survive scanning: each existing target, with its
/// path resolved against home and its selection flag set.
pub open spec fn targets_model(
    entries: Seq<TargetModel>,
    found: Seq<bool>,
    home: Seq<char>,
) -> Seq<ItemModel>
    decreases entries.len(),
{
    if entries.len() == 0 {
        Seq::empty()
    } else {
        targets_model(entries.drop_last(), found.drop_last(), home) + (if found[entries.len()
            - 1] {
            seq![
                ItemModel {
                    name: entries.last().name,
                    path: tilde_expanded(entries.last().path, home),
                    selected: true,
                },
            ]
        } else {
            Seq::empty()
        })
    }
}

/// Turn the raw target definitions into selectable entries: resolve each
/// path against home, keep exactly the targets whose resolved path
/// exists, and start every kept entry selected. `found[i]` is the
/// passive existence probe of entry `i`'s resolved path.
pub fn build_targets(entries: &Vec<TargetEntry>, found: &Vec<bool>, home: &str) -> (r: Vec<
    ConfigItem,
>)
    requires
        found@.len() == entries@.len(),
    ensures
        r@.map_values(|it: ConfigItem| it@) =~= targets_model(
            entries@.map_values(|e: TargetEntry| e@),
            found@,
            home@,
        ),
{
    let ghost em = entries@.map_values(|e: TargetEntry| e@);
    let mut items: Vec<ConfigItem> = Vec::new();
    let n = entries.len();
    let mut i: usize = 0;
    while i < n
        invariant
            0 <= i <= n,
            n == entries@.len(),
            found@.len() == entries@.len(),
            em == entries@.map_values(|e: TargetEntry| e@),
            items@.map_values(|it: ConfigItem| it@) =~= targets_model(
                em.take(i as int),
                found@.take(i as int),
                home@,
            ),
        decreases n - i,
    {
        proof {
            assert(em.take(i as int + 1).drop_last() =~= em.take(i as int));
            assert(found@.take(i as int + 1).drop_last() =~= found@.take(i as int));
            assert(em.take(i as int + 1).last() == em[i as int]);
            assert(em[i as int] == entries@[i as int]@);
        }
        if found[i] {
            let resolved = resolve_path(entries[i].path.as_str(), home);
            items.push(
                ConfigItem { name: entries[i].name.clone(), path: resolved, selected: true },
            );
        }
        i += 1;
    }
    proof {
        assert(em.take(n as int) =~= em);
        assert(found@.take(n as int) =~= found@);
    }
    items
}

} // verus!
