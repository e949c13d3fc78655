//! Proved laws of the scan pipeline: a successful scan is complete and
//! order-preserving, and a failed payload fetch is isolated to its own
//! (item, type) pair.

use vstd::prelude::*;
use crate::scan::ItemModel;
use crate::scan::fetched_record;
use crate::scan::item_records;
use crate::scan::pair_records;
use crate::scan::scan_records;
use crate::scan::RecordModel;
use crate::scan::PairModel;

verus! {

/// The number of (item, type) pairs a scanned clipboard offers in all.
pub open spec fn total_pairs(items: Seq<ItemModel>) -> nat
    decreases items.len(),
{
    if items.len() == 0 {
        0
    } else {
        items[0].len() + total_pairs(items.drop_first())
    }
}

/// The number of pairs offered by the items before item `i`: the flat
/// position at which item `i`'s records start in a fully successful scan.
pub open spec fn pairs_before(items: Seq<ItemModel>, i: int) -> nat
    decreases i,
{
    if i <= 0 {
        0
    } else {
        pairs_before(items, i - 1) + items[i - 1].len()
    }
}

/// Every offered pair's payload was fetched successfully.
pub open spec fn all_fetched(items: Seq<ItemModel>) -> bool {
    forall|i: int, j: int|
        0 <= i < items.len() && 0 <= j < items[i].len() ==> (#[trigger] items[i][j]).payload
            is Some
}

/// An item all of whose payloads were fetched contributes one record per
/// offered type, in offer order.
proof fn lemma_item_records_all_fetched(item: ItemModel)
    requires
        forall|j: int| 0 <= j < item.len() ==> (#[trigger] item[j]).payload is Some,
    ensures
        item_records(item).len() == item.len(),
        forall|j: int|
            0 <= j < item.len() ==> item_records(item)[j] == fetched_record(#[trigger] item[j]),
    decreases item.len(),
{
    if item.len() == 0 {
    } else {
        let rest = item.drop_first();
        assert forall|j: int| 0 <= j < rest.len() implies (#[trigger] rest[j]).payload is Some by {
            assert(rest[j] == item[j + 1]);
        }
        lemma_item_records_all_fetched(rest);
        assert(item[0].payload is Some);
        assert(pair_records(item[0]) == seq![fetched_record(item[0])]);
        assert(item_records(item) == pair_records(item[0]) + item_records(rest));
        assert forall|j: int|
            0 <= j < item.len() implies item_records(item)[j] == fetched_record(
            #[trigger] item[j],
        ) by {
            if j == 0 {
                assert(item_records(item)[0] == pair_records(item[0])[0]);
            } else {
                assert(item_records(item)[j] == item_records(rest)[j - 1]);
                assert(rest[j - 1] == item[j]);
            }
        }
    }
}

/// Splitting off the first item: the pairs before position `i` are the first
/// item's pairs plus the pairs before position `i - 1` in the rest.
proof fn lemma_pairs_before_drop_first(items: Seq<ItemModel>, i: int)
    requires
        1 <= i <= items.len(),
    ensures
        pairs_before(items, i) == items[0].len() + pairs_before(items.drop_first(), i - 1),
    decreases i,
{
    if i == 1 {
        assert(pairs_before(items, 0) == 0);
        assert(pairs_before(items.drop_first(), 0) == 0);
    } else {
        lemma_pairs_before_drop_first(items, i - 1);
        assert(items.drop_first()[i - 2] == items[i - 1]);
    }
}

/// Every flat position addressed by a pair (i, j) lies within the total
/// pair count.
proof fn lemma_pairs_before_bound(items: Seq<ItemModel>, i: int)
    requires
        0 <= i < items.len(),
    ensures
        pairs_before(items, i) + items[i].len() <= total_pairs(items),
    decreases items.len(),
{
    if i == 0 {
        assert(pairs_before(items, 0) == 0);
        assert(total_pairs(items) == items[0].len() + total_pairs(items.drop_first()));
    } else {
        let rest = items.drop_first();
        lemma_pairs_before_bound(rest, i - 1);
        lemma_pairs_before_drop_first(items, i);
        assert(rest[i - 1] == items[i]);
        assert(total_pairs(items) == items[0].len() + total_pairs(rest));
    }
}

/// A fully successful scan is complete and order-preserving: over N items
/// offering T₀ … T₍N₋₁₎ types it yields exactly T₀ + … + T₍N₋₁₎ records, and
/// the record of pair (i, j) stands at flat position
/// `pairs_before(items, i) + j` — records follow (item order, type order).
pub proof fn lemma_scan_complete_and_ordered(items: Seq<ItemModel>)
    requires
        all_fetched(items),
    ensures
        scan_records(items).len() == total_pairs(items),
        forall|i: int, j: int|
            0 <= i < items.len() && 0 <= j < items[i].len() ==> scan_records(items)[pairs_before(
                items,
                i,
            ) + j] == fetched_record(#[trigger] items[i][j]),
    decreases items.len(),
{
    if items.len() == 0 {
    } else {
        let rest = items.drop_first();
        assert forall|i: int, j: int|
            0 <= i < rest.len() && 0 <= j < rest[i].len() implies (#[trigger] rest[i][j]).payload
            is Some by {
            assert(rest[i] == items[i + 1]);
            assert(items[i + 1][j].payload is Some);
        }
        lemma_scan_complete_and_ordered(rest);
        assert forall|j: int| 0 <= j < items[0].len() implies (#[trigger] items[0][j]).payload
            is Some by {
            assert(items[0][j].payload is Some);
        }
        lemma_item_records_all_fetched(items[0]);
        assert(scan_records(items) == item_records(items[0]) + scan_records(rest));
        assert(total_pairs(items) == items[0].len() + total_pairs(rest));
        assert forall|i: int, j: int|
            0 <= i < items.len() && 0 <= j < items[i].len() implies scan_records(
            items,
        )[pairs_before(items, i) + j] == fetched_record(#[trigger] items[i][j]) by {
            if i == 0 {
                assert(pairs_before(items, 0) == 0);
                assert(scan_records(items)[j] == item_records(items[0])[j]);
            } else {
                lemma_pairs_before_drop_first(items, i);
                lemma_pairs_before_bound(rest, i - 1);
                let k = pairs_before(items, i) + j;
                assert(k == items[0].len() + (pairs_before(rest, i - 1) + j));
                assert(pairs_before(rest, i - 1) + j < total_pairs(rest));
                assert(scan_records(items)[k] == scan_records(rest)[pairs_before(rest, i - 1) + j]);
                assert(rest[i - 1] == items[i]);
                assert(scan_records(rest)[pairs_before(rest, i - 1) + j] == fetched_record(
                    rest[i - 1][j],
                ));
            }
        }
    }
}

/// Within one item, a pair whose payload fetch failed contributes nothing:
/// the item's records equal those of the item with that pair removed.
proof fn lemma_item_records_remove_failed(item: ItemModel, j: int)
    requires
        0 <= j < item.len(),
        item[j].payload is None,
    ensures
        item_records(item) == item_records(item.remove(j)),
    decreases item.len(),
{
    if j == 0 {
        assert(pair_records(item[0]) =~= Seq::<RecordModel>::empty());
        assert(item.remove(0) =~= item.drop_first());
        assert(item_records(item) == pair_records(item[0]) + item_records(item.drop_first()));
        assert(Seq::<RecordModel>::empty() + item_records(item.drop_first()) =~= item_records(
            item.drop_first(),
        ));
    } else {
        lemma_item_records_remove_failed(item.drop_first(), j - 1);
        assert(item.drop_first()[j - 1] == item[j]);
        assert(item.remove(j).drop_first() =~= item.drop_first().remove(j - 1));
        assert(item.remove(j)[0] == item[0]);
        assert(item.remove(j).len() != 0);
        assert(item_records(item) == pair_records(item[0]) + item_records(item.drop_first()));
        assert(item_records(item.remove(j)) == pair_records(item.remove(j)[0]) + item_records(
            item.remove(j).drop_first(),
        ));
    }
}

/// Replacing one item changes the total pair count by the difference of the
/// two items' type counts.
proof fn lemma_total_pairs_update(items: Seq<ItemModel>, i: int, it: ItemModel)
    requires
        0 <= i < items.len(),
    ensures
        total_pairs(items.update(i, it)) == total_pairs(items) - items[i].len() + it.len(),
    decreases items.len(),
{
    if i == 0 {
        assert(items.update(0, it)[0] == it);
        assert(items.update(0, it).drop_first() =~= items.drop_first());
        assert(total_pairs(items) == items[0].len() + total_pairs(items.drop_first()));
        assert(total_pairs(items.update(0, it)) == it.len() + total_pairs(
            items.update(0, it).drop_first(),
        ));
    } else {
        lemma_total_pairs_update(items.drop_first(), i - 1, it);
        assert(items.update(i, it)[0] == items[0]);
        assert(items.update(i, it).drop_first() =~= items.drop_first().update(i - 1, it));
        assert(items.drop_first()[i - 1] == items[i]);
        assert(total_pairs(items) == items[0].len() + total_pairs(items.drop_first()));
        assert(total_pairs(items.update(i, it)) == items[0].len() + total_pairs(
            items.update(i, it).drop_first(),
        ));
    }
}

/// Failure isolation: a pair whose payload fetch failed is skipped and
/// nothing else changes — the scan result equals, record for record, the
/// result of scanning the same clipboard with that one pair removed, over
/// one fewer offered pair.
pub proof fn lemma_failed_pair_dropped(items: Seq<ItemModel>, i: int, j: int)
    requires
        0 <= i < items.len(),
        0 <= j < items[i].len(),
        items[i][j].payload is None,
    ensures
        scan_records(items) == scan_records(items.update(i, items[i].remove(j))),
        total_pairs(items.update(i, items[i].remove(j))) == total_pairs(items) - 1,
    decreases items.len(),
{
    let pruned = items.update(i, items[i].remove(j));
    lemma_total_pairs_update(items, i, items[i].remove(j));
    if i == 0 {
        lemma_item_records_remove_failed(items[0], j);
        assert(pruned[0] == items[0].remove(j));
        assert(pruned.drop_first() =~= items.drop_first());
        assert(scan_records(items) == item_records(items[0]) + scan_records(items.drop_first()));
        assert(scan_records(pruned) == item_records(pruned[0]) + scan_records(pruned.drop_first()));
    } else {
        let rest = items.drop_first();
        assert(rest[i - 1] == items[i]);
        lemma_failed_pair_dropped(rest, i - 1, j);
        assert(pruned[0] == items[0]);
        assert(pruned.drop_first() =~= rest.update(i - 1, items[i].remove(j)));
        assert(scan_records(items) == item_records(items[0]) + scan_records(rest));
        assert(scan_records(pruned) == item_records(pruned[0]) + scan_records(pruned.drop_first()));
    }
}

/// If exactly one (item, type) pair's payload fetch fails, the scan yields
/// one record fewer than the offered pair count: every other pair still
/// contributes its record, unaltered and in order.
pub proof fn lemma_one_failure_count(items: Seq<ItemModel>, i: int, j: int)
    requires
        0 <= i < items.len(),
        0 <= j < items[i].len(),
        items[i][j].payload is None,
        forall|a: int, b: int|
            0 <= a < items.len() && 0 <= b < items[a].len() && !(a == i && b == j) ==> (
            #[trigger] items[a][b]).payload is Some,
    ensures
        scan_records(items).len() == total_pairs(items) - 1,
{
    let pruned = items.update(i, items[i].remove(j));
    lemma_failed_pair_dropped(items, i, j);
    assert forall|a: int, b: int|
        0 <= a < pruned.len() && 0 <= b < pruned[a].len() implies (#[trigger] pruned[a][b]).payload
        is Some by {
        if a == i {
            items[i].remove_ensures(j);
            if b < j {
                assert(pruned[a][b] == items[i][b]);
                assert(items[i][b].payload is Some);
            } else {
                assert(pruned[a][b] == items[i][b + 1]);
                assert(items[i][b + 1].payload is Some);
            }
        } else {
            assert(pruned[a] == items[a]);
            assert(items[a][b].payload is Some);
        }
    }
    lemma_scan_complete_and_ordered(pruned);
}

} // verus!
