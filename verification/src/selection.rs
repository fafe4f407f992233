use vstd::prelude::*;

use crate::config::{ConfigItem, ItemModel};

verus! {

/// A key press, reduced to what the single-list pickers react to.
#[derive(Clone, Copy, PartialEq, Eq, Structural)]
pub enum UiKey {
    Up,
    Down,
    Toggle,
    Accept,
    Cancel,
    Other,
}

/// What a picker step decides: keep browsing, run with the selection, or
/// leave without doing anything.
#[derive(Clone, Copy, PartialEq, Eq, Structural, Debug)]
pub enum UiOutcome {
    Continue,
    Accepted,
    Cancelled,
}

/// The cursor position after moving down, wrapping at the end.
pub open spec fn next_of(i: int, len: int) -> int {
    if i + 1 == len {
        0
    } else {
        i + 1
    }
}

/// The cursor position after moving up, wrapping at the start.
pub open spec fn prev_of(i: int, len: int) -> int {
    if i == 0 {
        len - 1
    } else {
        i - 1
    }
}

/// One step of a picker: move the cursor with wraparound, flip the
/// selection flag under the cursor, accept, or cancel. Nothing but the
/// flag under the cursor is ever touched.
pub fn ui_step(items: &mut Vec<ConfigItem>, cursor: usize, key: UiKey) -> (r: (usize, UiOutcome))
    requires
        old(items)@.len() > 0,
        cursor < old(items)@.len(),
    ensures
        final(items)@.len() == old(items)@.len(),
        r.0 < final(items)@.len(),
        (key is Down ==> final(items)@ == old(items)@ && r.0 == next_of(
            cursor as int,
            old(items)@.len() as int,
        ) && r.1 is Continue),
        (key is Up ==> final(items)@ == old(items)@ && r.0 == prev_of(
            cursor as int,
            old(items)@.len() as int,
        ) && r.1 is Continue),
        (key is Toggle ==> r.0 == cursor && r.1 is Continue && (final(items)@[cursor as int])@
            == (ItemModel {
            selected: !(old(items)@[cursor as int])@.selected,
            ..(old(items)@[cursor as int])@
        }) && (forall|j: int|
            0 <= j < old(items)@.len() && j != cursor ==> final(items)@[j] == old(items)@[j])),
        (key is Accept ==> final(items)@ == old(items)@ && r.0 == cursor && r.1 is Accepted),
        (key is Cancel ==> final(items)@ == old(items)@ && r.0 == cursor && r.1 is Cancelled),
        (key is Other ==> final(items)@ == old(items)@ && r.0 == cursor && r.1 is Continue),
{
    match key {
        UiKey::Down => {
            let len = items.len();
            let next = if cursor >= len - 1 {
                0
            } else {
                cursor + 1
            };
            (next, UiOutcome::Continue)
        },
        UiKey::Up => {
            let len = items.len();
            let prev = if cursor == 0 {
                len - 1
            } else {
                cursor - 1
            };
            (prev, UiOutcome::Continue)
        },
        UiKey::Toggle => {
            let flipped = !items[cursor].selected;
            items[cursor].selected = flipped;
            (cursor, UiOutcome::Continue)
        },
        UiKey::Accept => (cursor, UiOutcome::Accepted),
        UiKey::Cancel => (cursor, UiOutcome::Cancelled),
        UiKey::Other => (cursor, UiOutcome::Continue),
    }
}

/// The entries that stay selected, in order.
pub open spec fn selected_model(items: Seq<ItemModel>) -> Seq<ItemModel>
    decreases items.len(),
{
    if items.len() == 0 {
        Seq::empty()
    } else {
        selected_model(items.drop_last()) + (if items.last().selected {
            seq![items.last()]
        } else {
            Seq::empty()
        })
    }
}

/// Keep only the entries whose selection flag is set.
pub fn selected_only(items: &Vec<ConfigItem>) -> (r: Vec<ConfigItem>)
    ensures
        r@.map_values(|it: ConfigItem| it@) =~= selected_model(
            items@.map_values(|it: ConfigItem| it@),
        ),
{
    let ghost im = items@.map_values(|it: ConfigItem| it@);
    let mut kept: Vec<ConfigItem> = Vec::new();
    let n = items.len();
    let mut i: usize = 0;
    while i < n
        invariant
            0 <= i <= n,
            n == items@.len(),
            im == items@.map_values(|it: ConfigItem| it@),
            kept@.map_values(|it: ConfigItem| it@) =~= selected_model(im.take(i as int)),
        decreases n - i,
    {
        proof {
            assert(im.take(i as int + 1).drop_last() =~= im.take(i as int));
            assert(im.take(i as int + 1).last() == im[i as int]);
            assert(im[i as int] == items@[i as int]@);
        }
        if items[i].selected {
            let copy = items[i].duplicate();
            kept.push(copy);
        }
        i += 1;
    }
    proof {
        assert(im.take(n as int) =~= im);
    }
    kept
}

} // verus!
