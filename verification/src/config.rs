use vstd::prelude::*;

verus! {

/// One named, path-addressed configuration target.
///
/// `path` is meant to be an absolute filesystem path (possibly still
/// holding a leading `~` before resolution); `selected` is the transient
/// flag the interactive pickers toggle, meaningful only while choosing.
pub struct ConfigItem {
    pub name: String,
    pub path: String,
    pub selected: bool,
}

/// Mathematical image of a [`ConfigItem`]: both strings as character
/// sequences, so contracts can speak about their content.
pub struct ItemModel {
    pub name: Seq<char>,
    pub path: Seq<char>,
    pub selected: bool,
}

impl View for ConfigItem {
    type V = ItemModel;

    open spec fn view(&self) -> ItemModel {
        ItemModel { name: self.name@, path: self.path@, selected: self.selected }
    }
}

impl ConfigItem {
    /// An explicit, verified copy; a derived `Clone` would tell the
    /// verifier nothing about the result.
    pub fn duplicate(&self) -> (r: ConfigItem)
        ensures
            r@ == self@,
    {
        ConfigItem { name: self.name.clone(), path: self.path.clone(), selected: self.selected }
    }
}

/// Set every entry's selection flag, touching nothing else: the state a
/// manifest's entries re-enter when they are read back for a restore.
pub fn select_all(items: &mut Vec<ConfigItem>)
    ensures
        final(items)@.len() == old(items)@.len(),
        forall|j: int|
            0 <= j < old(items)@.len() ==> (#[trigger] final(items)@[j])@ == (ItemModel {
                selected: true,
                ..(old(items)@[j])@
            }),
{
    let n = items.len();
    let mut i: usize = 0;
    while i < n
        invariant
            0 <= i <= n,
            n == items@.len(),
            items@.len() == old(items)@.len(),
            forall|j: int|
                0 <= j < i ==> (#[trigger] items@[j])@ == (ItemModel {
                    selected: true,
                    ..(old(items)@[j])@
                }),
            forall|j: int| i <= j < n ==> #[trigger] items@[j] == old(items)@[j],
        decreases n - i,
    {
        items[i].selected = true;
        i += 1;
    }
}

/// An ordered collection of entries describing one snapshot. Restore and
/// revert process entries in this order.
pub struct ConfigManifest {
    pub items: Vec<ConfigItem>,
}

impl View for ConfigManifest {
    type V = Seq<ItemModel>;

    open spec fn view(&self) -> Seq<ItemModel> {
        self.items@.map_values(|it: ConfigItem| it@)
    }
}

} // verus!
