use vstd::prelude::*;

use crate::config::{ConfigItem, ItemModel};
use crate::paths::{home_rel, home_rel_of, resolve_path, tilde_expanded};

verus! {

/// One addition to the container: the resolved source path on disk and
/// the home-relative location the content is stored under.
pub struct AddEntry {
    pub source: String,
    pub rel: String,
}

/// Mathematical image of an [`AddEntry`].
pub struct AddModel {
    pub source: Seq<char>,
    pub rel: Seq<char>,
}

impl View for AddEntry {
    type V = AddModel;

    open spec fn view(&self) -> AddModel {
        AddModel { source: self.source@, rel: self.rel@ }
    }
}

/// Everything one packaging run will write: the container additions and
/// the two output files, both inside the fixed output directory.
pub struct PackagePlan {
    pub adds: Vec<AddEntry>,
    pub archive_path: String,
    pub manifest_path: String,
}

/// The outcome of validating a packaging request. Packaging is
/// all-or-nothing: any entry whose resolved source is gone, or which the
/// home-relative convention cannot place, stops the whole run, and every
/// offending entry is named, not just the first.
pub enum PackageOutcome {
    NothingSelected,
    MissingSources(Vec<String>),
    OutsideHome(Vec<String>),
    Ready(PackagePlan),
}

/// The resolved source path of one entry.
pub open spec fn source_of(item: ItemModel, home: Seq<char>) -> Seq<char> {
    tilde_expanded(item.path, home)
}

/// The names of the entries whose resolved source does not exist, in
/// selection order. `found` carries the existence probes.
pub open spec fn missing_names(items: Seq<ItemModel>, found: Seq<bool>) -> Seq<Seq<char>>
    decreases items.len(),
{
    if items.len() == 0 {
        Seq::empty()
    } else {
        missing_names(items.drop_last(), found.drop_last()) + (if !found[items.len() - 1] {
            seq![items.last().name]
        } else {
            Seq::empty()
        })
    }
}

/// The names of the entries whose resolved source lies outside the home
/// directory, in selection order.
pub open spec fn outside_home_names(items: Seq<ItemModel>, home: Seq<char>) -> Seq<Seq<char>>
    decreases items.len(),
{
    if items.len() == 0 {
        Seq::empty()
    } else {
        outside_home_names(items.drop_last(), home) + (if home_rel_of(
            source_of(items.last(), home),
            home,
        ) is None {
            seq![items.last().name]
        } else {
            Seq::empty()
        })
    }
}

/// The container additions: every entry's content goes in at its
/// home-relative path.
pub open spec fn adds_model(items: Seq<ItemModel>, home: Seq<char>) -> Seq<AddModel> {
    Seq::new(
        items.len(),
        |i: int|
            AddModel {
                source: source_of(items[i], home),
                rel: home_rel_of(source_of(items[i], home), home)->Some_0,
            },
    )
}

/// The container file written for `archive_name`.
pub open spec fn archive_path_of(archive_name: Seq<char>) -> Seq<char> {
    "outputs/"@ + archive_name + ".tar.gz"@
}

/// The manifest sidecar written for `archive_name`.
pub open spec fn manifest_path_of(archive_name: Seq<char>) -> Seq<char> {
    "outputs/"@ + archive_name + ".manifest.toml"@
}

/// Validate a packaging request and compute what to write.
///
/// `items` are the selected entries, in selection order; `found[i]` is
/// the passive existence probe of entry `i`'s resolved source path.
/// With nothing selected there is nothing to do; with any resolved
/// source missing, or any entry outside the home directory, the run is
/// refused and all offending names are reported together; otherwise the
/// plan lists every addition in order, plus the two output paths.
pub fn plan_package(
    items: &Vec<ConfigItem>,
    found: &Vec<bool>,
    home: &str,
    archive_name: &str,
) -> (r: PackageOutcome)
    requires
        found@.len() == items@.len(),
    ensures
        (r is NothingSelected <==> items@.len() == 0),
        (r is MissingSources <==> (items@.len() > 0 && exists|i: int|
            0 <= i < items@.len() && !found@[i])),
        (r matches PackageOutcome::MissingSources(names) ==> names@.map_values(|n: String| n@)
            =~= missing_names(items@.map_values(|it: ConfigItem| it@), found@)),
        (r is OutsideHome <==> (items@.len() > 0 && (forall|i: int|
            0 <= i < items@.len() ==> found@[i]) && exists|i: int|
            0 <= i < items@.len() && home_rel_of(
                source_of((#[trigger] items@[i])@, home@),
                home@,
            ) is None)),
        (r matches PackageOutcome::OutsideHome(names) ==> names@.map_values(|n: String| n@)
            =~= outside_home_names(items@.map_values(|it: ConfigItem| it@), home@)),
        (r matches PackageOutcome::Ready(plan) ==> {
            &&& items@.len() > 0
            &&& forall|i: int| 0 <= i < items@.len() ==> found@[i]
            &&& forall|i: int|
                0 <= i < items@.len() ==> home_rel_of(
                    source_of((#[trigger] items@[i])@, home@),
                    home@,
                ) is Some
            &&& plan.adds@.map_values(|a: AddEntry| a@) =~= adds_model(
                items@.map_values(|it: ConfigItem| it@),
                home@,
            )
            &&& plan.archive_path@ == archive_path_of(archive_name@)
            &&& plan.manifest_path@ == manifest_path_of(archive_name@)
        }),
{
    let ghost im = items@.map_values(|it: ConfigItem| it@);
    proof {
        assert(forall|j: int| 0 <= j < items@.len() ==> #[trigger] im[j] == items@[j]@);
    }
    let n = items.len();
    if n == 0 {
        return PackageOutcome::NothingSelected;
    }
    let mut missing: Vec<String> = Vec::new();
    let mut i: usize = 0;
    while i < n
        invariant
            0 <= i <= n,
            n == items@.len(),
            found@.len() == items@.len(),
            im == items@.map_values(|it: ConfigItem| it@),
            missing@.map_values(|s: String| s@) =~= missing_names(
                im.take(i as int),
                found@.take(i as int),
            ),
            (missing@.len() == 0) <==> (forall|j: int| 0 <= j < i ==> found@[j]),
        decreases n - i,
    {
        proof {
            assert(im.take(i as int + 1).drop_last() =~= im.take(i as int));
            assert(found@.take(i as int + 1).drop_last() =~= found@.take(i as int));
            assert(im.take(i as int + 1).last() == im[i as int]);
            assert(im[i as int] == items@[i as int]@);
        }
        if !found[i] {
            missing.push(items[i].name.clone());
        }
        i += 1;
    }
    proof {
        assert(im.take(n as int) =~= im);
        assert(found@.take(n as int) =~= found@);
    }
    if missing.len() > 0 {
        return PackageOutcome::MissingSources(missing);
    }

    let mut adds: Vec<AddEntry> = Vec::new();
    let mut outside: Vec<String> = Vec::new();
    let mut i: usize = 0;
    while i < n
        invariant
            0 <= i <= n,
            n == items@.len(),
            im == items@.map_values(|it: ConfigItem| it@),
            outside@.map_values(|s: String| s@) =~= outside_home_names(im.take(i as int), home@),
            (outside@.len() == 0) <==> (forall|j: int|
                0 <= j < i ==> home_rel_of(source_of(#[trigger] im[j], home@), home@) is Some),
            outside@.len() == 0 ==> adds@.len() == i,
            outside@.len() == 0 ==> forall|j: int|
                0 <= j < i ==> (#[trigger] adds@[j])@ == adds_model(im, home@)[j],
        decreases n - i,
    {
        proof {
            assert(im.take(i as int + 1).drop_last() =~= im.take(i as int));
            assert(im.take(i as int + 1).last() == im[i as int]);
            assert(im[i as int] == items@[i as int]@);
        }
        let source = resolve_path(items[i].path.as_str(), home);
        match home_rel(source.as_str(), home) {
            Some(rel) => {
                if outside.len() == 0 {
                    adds.push(AddEntry { source, rel });
                }
            },
            None => {
                outside.push(items[i].name.clone());
            },
        }
        i += 1;
    }
    proof {
        assert(im.take(n as int) =~= im);
    }
    if outside.len() > 0 {
        proof {
            let w = choose|j: int|
                0 <= j < n && !(home_rel_of(source_of(#[trigger] im[j], home@), home@) is Some);
            assert(home_rel_of(source_of(items@[w]@, home@), home@) is None);
        }
        return PackageOutcome::OutsideHome(outside);
    }
    proof {
        assert forall|j: int|
            0 <= j < items@.len() implies home_rel_of(
            source_of((#[trigger] items@[j])@, home@),
            home@,
        ) is Some by {
            assert(home_rel_of(source_of(im[j], home@), home@) is Some);
        }
        assert(adds@.map_values(|a: AddEntry| a@) =~= adds_model(im, home@));
    }

    let mut archive_path = String::from_str("outputs/");
    archive_path.append(archive_name);
    archive_path.append(".tar.gz");
    let mut manifest_path = String::from_str("outputs/");
    manifest_path.append(archive_name);
    manifest_path.append(".manifest.toml");
    proof {
        assert(archive_path@ =~= archive_path_of(archive_name@));
        assert(manifest_path@ =~= manifest_path_of(archive_name@));
    }
    PackageOutcome::Ready(PackagePlan { adds, archive_path, manifest_path })
}

} // verus!
