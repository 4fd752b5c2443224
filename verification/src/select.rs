//! Selection of the records that become documents: one record per name,
//! minions only, identifiers without the prefix of the core set.

use vstd::prelude::*;
use vstd::string::*;
use crate::item::{CollectionItem, ItemView};
use crate::records::items_view;

verus! {

/// The type of the cards that are kept.
pub const MINION_TAG: &'static str = "MINION";

/// The prefix that marks the identifier of a card of the core set.
pub const CORE_PREFIX: &'static str = "CORE_";

/// `id` without one leading core prefix.
pub open spec fn strip_core_spec(id: Seq<char>) -> Seq<char> {
    if CORE_PREFIX@.is_prefix_of(id) {
        id.subrange(CORE_PREFIX@.len() as int, id.len() as int)
    } else {
        id
    }
}

/// Removes one leading core prefix from `id`, where it has one.
pub fn strip_core_prefix(id: &str) -> (out: String)
    ensures
        out@ == strip_core_spec(id@),
{
    let n: usize = id.unicode_len();
    let p: usize = CORE_PREFIX.unicode_len();
    if n < p {
        return String::from_str(id);
    }
    let mut i: usize = 0;
    while i < p
        invariant
            i <= p <= n,
            n == id@.len(),
            p == CORE_PREFIX@.len(),
            forall|k: int| 0 <= k < i ==> id@[k] == CORE_PREFIX@[k],
        decreases p - i,
    {
        if id.get_char(i) != CORE_PREFIX.get_char(i) {
            proof {
                if CORE_PREFIX@.is_prefix_of(id@) {
                    assert(id@.subrange(0, p as int)[i as int] == CORE_PREFIX@[i as int]);
                }
            }
            return String::from_str(id);
        }
        i += 1;
    }
    assert(CORE_PREFIX@ =~= id@.subrange(0, p as int));
    String::from_str(id.substring_char(p, n))
}

/// Some record of `items` has the name `name`.
pub open spec fn has_name(items: Seq<ItemView>, name: Seq<char>) -> bool {
    exists|i: int| 0 <= i < items.len() && (#[trigger] items[i]).name == name
}

/// The records of `items` without those whose name an earlier record has:
/// of the records of one name the first stays, and the order is kept.
pub open spec fn dedup_spec(items: Seq<ItemView>) -> Seq<ItemView>
    decreases items.len(),
{
    if items.len() == 0 {
        Seq::empty()
    } else {
        let kept = dedup_spec(items.drop_last());
        if has_name(kept, items.last().name) {
            kept
        } else {
            kept.push(items.last())
        }
    }
}

/// Tells whether a record of `items` has the name `name`.
pub fn name_known(items: &Vec<CollectionItem>, name: &String) -> (known: bool)
    ensures
        known == has_name(items_view(items@), name@),
{
    let mut i: usize = 0;
    while i < items.len()
        invariant
            i <= items.len(),
            forall|k: int| 0 <= k < i ==> (#[trigger] items_view(items@)[k]).name != name@,
        decreases items.len() - i,
    {
        if items[i].name == *name {
            assert(items_view(items@)[i as int].name == name@);
            return true;
        }
        i += 1;
    }
    false
}

impl CollectionItem {
    /// A copy of this record.
    pub fn duplicate(&self) -> (copy: CollectionItem)
        ensures
            copy@ == self@,
    {
        CollectionItem {
            id: self.id.clone(),
            name: self.name.clone(),
            text: match &self.text {
                Some(t) => Some(t.clone()),
                None => None,
            },
            card_type: self.card_type.clone(),
        }
    }

    /// Tells whether this record is a minion.
    pub fn is_minion(&self) -> (yes: bool)
        ensures
            yes == (self@.card_type == MINION_TAG@),
    {
        let tag = String::from_str(MINION_TAG);
        self.card_type == tag
    }
}

/// Keeps of the records of one name the first.
pub fn dedup_by_name(items: &Vec<CollectionItem>) -> (kept: Vec<CollectionItem>)
    ensures
        items_view(kept@) == dedup_spec(items_view(items@)),
{
    let mut kept: Vec<CollectionItem> = Vec::new();
    let mut i: usize = 0;
    assert(items_view(kept@) =~= Seq::<ItemView>::empty());
    assert(items_view(items@).take(0).len() == 0);
    while i < items.len()
        invariant
            i <= items.len(),
            items_view(kept@) == dedup_spec(items_view(items@).take(i as int)),
        decreases items.len() - i,
    {
        proof {
            let all = items_view(items@);
            assert(all.take(i + 1).drop_last() =~= all.take(i as int));
            assert(all.take(i + 1).last() == items@[i as int]@);
        }
        if !name_known(&kept, &items[i].name) {
            let ghost before = items_view(kept@);
            let copy = items[i].duplicate();
            kept.push(copy);
            assert(items_view(kept@) =~= before.push(copy@));
        }
        i += 1;
    }
    proof {
        let all = items_view(items@);
        assert(all.take(all.len() as int) =~= all);
    }
    kept
}

/// The record `item` with its identifier freed of the core prefix.
pub open spec fn normalized(item: ItemView) -> ItemView {
    ItemView { id: strip_core_spec(item.id), ..item }
}

/// The minions among `items`, each normalized, in their order.
pub open spec fn minions_spec(items: Seq<ItemView>) -> Seq<ItemView>
    decreases items.len(),
{
    if items.len() == 0 {
        Seq::empty()
    } else {
        let kept = minions_spec(items.drop_last());
        if items.last().card_type == MINION_TAG@ {
            kept.push(normalized(items.last()))
        } else {
            kept
        }
    }
}

/// Keeps the minions among `items` and normalizes their identifiers.
pub fn select_minions(items: &Vec<CollectionItem>) -> (kept: Vec<CollectionItem>)
    ensures
        items_view(kept@) == minions_spec(items_view(items@)),
{
    let mut kept: Vec<CollectionItem> = Vec::new();
    let mut i: usize = 0;
    assert(items_view(kept@) =~= Seq::<ItemView>::empty());
    assert(items_view(items@).take(0).len() == 0);
    while i < items.len()
        invariant
            i <= items.len(),
            items_view(kept@) == minions_spec(items_view(items@).take(i as int)),
        decreases items.len() - i,
    {
        proof {
            let all = items_view(items@);
            assert(all.take(i + 1).drop_last() =~= all.take(i as int));
            assert(all.take(i + 1).last() == items@[i as int]@);
        }
        if items[i].is_minion() {
            let ghost before = items_view(kept@);
            let mut copy = items[i].duplicate();
            copy.id = strip_core_prefix(items[i].id.as_str());
            kept.push(copy);
            assert(items_view(kept@) =~= before.push(copy@));
        }
        i += 1;
    }
    proof {
        let all = items_view(items@);
        assert(all.take(all.len() as int) =~= all);
    }
    kept
}

/// After deduplication no two records share a name, and every record kept
/// is one of the records given.
pub proof fn dedup_keeps_one_per_name(items: Seq<ItemView>)
    ensures
        forall|a: int, b: int|
            0 <= a < b < dedup_spec(items).len() ==> dedup_spec(items)[a].name != dedup_spec(
                items,
            )[b].name,
        forall|k: int|
            0 <= k < dedup_spec(items).len() ==> items.contains(#[trigger] dedup_spec(items)[k]),
        forall|j: int| 0 <= j < items.len() ==> has_name(dedup_spec(items), (#[trigger] items[j]).name),
    decreases items.len(),
{
    if items.len() > 0 {
        let front = items.drop_last();
        dedup_keeps_one_per_name(front);
        let kept = dedup_spec(front);
        let out = dedup_spec(items);
        assert forall|k: int| 0 <= k < out.len() implies items.contains(#[trigger] out[k]) by {
            if k < kept.len() {
                assert(front.contains(kept[k]));
                let j = choose|j: int| 0 <= j < front.len() && front[j] == kept[k];
                assert(items[j] == kept[k]);
            } else {
                assert(items[items.len() - 1] == out[k]);
            }
        }
        assert forall|j: int| 0 <= j < items.len() implies has_name(
            out,
            (#[trigger] items[j]).name,
        ) by {
            if j < front.len() {
                assert(front[j] == items[j]);
                assert(has_name(kept, front[j].name));
                let k = choose|k: int| 0 <= k < kept.len() && kept[k].name == front[j].name;
                assert(out[k].name == items[j].name);
            } else if has_name(kept, items.last().name) {
            } else {
                assert(out[out.len() - 1].name == items[j].name);
            }
        }
    }
}

/// Every record selected is a minion, and is the normalized form of a minion
/// among the records given.
pub proof fn minions_are_minions(items: Seq<ItemView>)
    ensures
        forall|k: int|
            0 <= k < minions_spec(items).len() ==> (#[trigger] minions_spec(items)[k]).card_type
                == MINION_TAG@,
        forall|k: int|
            0 <= k < minions_spec(items).len() ==> exists|j: int|
                0 <= j < items.len() && items[j].card_type == MINION_TAG@ && normalized(items[j])
                    == #[trigger] minions_spec(items)[k],
    decreases items.len(),
{
    if items.len() > 0 {
        let front = items.drop_last();
        minions_are_minions(front);
        let kept = minions_spec(front);
        let out = minions_spec(items);
        assert forall|k: int| 0 <= k < out.len() implies exists|j: int|
            0 <= j < items.len() && items[j].card_type == MINION_TAG@ && normalized(items[j])
                == #[trigger] out[k] by {
            if k < kept.len() {
                let j = choose|j: int|
                    0 <= j < front.len() && front[j].card_type == MINION_TAG@ && normalized(
                        front[j],
                    ) == kept[k];
                assert(items[j] == front[j]);
            } else {
                let j = items.len() - 1;
                assert(normalized(items[j]) == out[k]);
            }
        }
    }
}

/// Selecting the minions keeps the records' order: where the names of the
/// records differ pairwise, so do the names of those selected.
pub proof fn minions_keep_order(items: Seq<ItemView>)
    requires
        forall|a: int, b: int| 0 <= a < b < items.len() ==> items[a].name != items[b].name,
    ensures
        forall|a: int, b: int|
            0 <= a < b < minions_spec(items).len() ==> minions_spec(items)[a].name
                != minions_spec(items)[b].name,
        forall|k: int|
            0 <= k < minions_spec(items).len() ==> has_name(
                items,
                (#[trigger] minions_spec(items)[k]).name,
            ),
    decreases items.len(),
{
    if items.len() > 0 {
        let front = items.drop_last();
        assert forall|a: int, b: int| 0 <= a < b < front.len() implies front[a].name
            != front[b].name by {
            assert(front[a] == items[a] && front[b] == items[b]);
        }
        minions_keep_order(front);
        let kept = minions_spec(front);
        let out = minions_spec(items);
        assert forall|k: int| 0 <= k < out.len() implies has_name(items, (#[trigger] out[k]).name) by {
            if k < kept.len() {
                assert(has_name(front, kept[k].name));
                let j = choose|j: int| 0 <= j < front.len() && front[j].name == kept[k].name;
                assert(items[j].name == out[k].name);
            } else {
                assert(items[items.len() - 1].name == out[k].name);
            }
        }
        assert forall|a: int, b: int| 0 <= a < b < out.len() implies out[a].name
            != out[b].name by {
            if b >= kept.len() {
                assert(has_name(front, kept[a].name));
                let j = choose|j: int| 0 <= j < front.len() && front[j].name == kept[a].name;
                assert(items[j].name != items[items.len() - 1].name);
            }
        }
    }
}

/// Where no record is a minion, nothing is selected.
pub proof fn no_minion_no_selection(items: Seq<ItemView>)
    requires
        forall|j: int| 0 <= j < items.len() ==> (#[trigger] items[j]).card_type != MINION_TAG@,
    ensures
        minions_spec(items).len() == 0,
    decreases items.len(),
{
    if items.len() > 0 {
        let front = items.drop_last();
        assert forall|j: int| 0 <= j < front.len() implies (#[trigger] front[j]).card_type
            != MINION_TAG@ by {
            assert(front[j] == items[j]);
        }
        no_minion_no_selection(front);
        assert(items.last() == items[items.len() - 1]);
    }
}

/// An identifier that does not begin with the core prefix twice over no
/// longer begins with it once it is stripped.
pub proof fn stripped_id_has_no_core_prefix(id: Seq<char>)
    requires
        !"CORE_CORE_"@.is_prefix_of(id),
    ensures
        !CORE_PREFIX@.is_prefix_of(strip_core_spec(id)),
{
    reveal_strlit("CORE_");
    reveal_strlit("CORE_CORE_");
    let core = CORE_PREFIX@;
    let twice = "CORE_CORE_"@;
    if core.is_prefix_of(id) {
        let rest = strip_core_spec(id);
        if core.is_prefix_of(rest) {
            assert(twice =~= core + core);
            assert(id.subrange(0, 5) == core);
            assert(rest.subrange(0, 5) == core);
            assert forall|k: int| 0 <= k < 10 implies id.subrange(0, 10)[k] == twice[k] by {
                if k < 5 {
                    assert(id.subrange(0, 5)[k] == core[k]);
                } else {
                    assert(rest.subrange(0, 5)[k - 5] == core[k - 5]);
                }
            }
            assert(twice =~= id.subrange(0, 10));
        }
    }
}

} // verus!
