//! Pages of items in the order of their ids: what lies behind a place in two
//! scans, merged, and cut at a limit.

use vstd::prelude::*;
use std::collections::VecDeque;
use crate::merge::{
    ascending_by, compares_by, decides, lemma_merge_ascending, lemma_merge_contains,
    lemma_merge_len, merge_by, ordered_by, IterMerge,
};
use crate::state::Keyed;

verus! {

/// The id of an item as an integer.
pub open spec fn key_of<T: Keyed>() -> spec_fn(T) -> int {
    |item: T| item.key() as int
}

/// The order of the ids: the item with the lower or equal id comes first.
pub open spec fn key_order<T: Keyed>() -> spec_fn(T, T) -> bool {
    |x: T, y: T| x.key() <= y.key()
}

/// Says whether the first item's id is lower than or equal to the second's.
pub fn comes_first<T: Keyed>(x: &T, y: &T) -> (r: bool)
    ensures
        r == key_order::<T>()(*x, *y),
{
    x.primary_key() <= y.primary_key()
}

/// Whether an item lies behind the place at which a listing starts.
pub open spec fn is_after<T: Keyed>(after: Option<u64>) -> spec_fn(T) -> bool {
    |item: T|
        match after {
            Some(id) => item.key() > id,
            None => true,
        }
}

/// The items of a scan that lie behind `after`, in their order.
pub open spec fn scan_after<T: Keyed>(scan: Seq<T>, after: Option<u64>) -> Seq<T> {
    scan.filter(is_after::<T>(after))
}

/// The first `limit` items of a sequence, or all of them if there are fewer.
pub open spec fn first_items<T>(items: Seq<T>, limit: nat) -> Seq<T> {
    if items.len() <= limit {
        items
    } else {
        items.take(limit as int)
    }
}

/// One page of the items of two scans: those behind `after`, merged in the
/// order of their ids, and of these the first `limit`.
pub open spec fn listed<T: Keyed>(
    index_a_scan: Seq<T>,
    index_b_scan: Seq<T>,
    after: Option<u64>,
    limit: u32,
) -> Seq<T> {
    first_items(
        merge_by(
            scan_after(index_a_scan, after),
            scan_after(index_b_scan, after),
            key_order::<T>(),
        ),
        limit as nat,
    )
}

/// Keeping the wanted items of a sequence is keeping the head if it is
/// wanted, and the wanted items of the rest.
pub proof fn lemma_filter_head<T>(head: T, rest: Seq<T>, wanted: spec_fn(T) -> bool)
    ensures
        (seq![head] + rest).filter(wanted) == if wanted(head) {
            seq![head] + rest.filter(wanted)
        } else {
            rest.filter(wanted)
        },
{
    reveal_with_fuel(Seq::filter, 2);
}

/// The items kept from a scan are those of the scan that are wanted.
pub proof fn lemma_kept_contains<T>(scan: Seq<T>, wanted: spec_fn(T) -> bool, item: T)
    ensures
        scan.filter(wanted).contains(item) <==> scan.contains(item) && wanted(item),
    decreases scan.len(),
{
    reveal(Seq::filter);
    if scan.len() > 0 {
        let front = scan.drop_last();
        lemma_kept_contains(front, wanted, item);
        if scan.contains(item) {
            let i = choose|i: int| 0 <= i < scan.len() && scan[i] == item;
        }
        if front.contains(item) {
            let i = choose|i: int| 0 <= i < front.len() && front[i] == item;
        }
        if wanted(scan.last()) {
            let kept = front.filter(wanted).push(scan.last());
            if kept.contains(item) {
                let i = choose|i: int| 0 <= i < kept.len() && kept[i] == item;
            }
            if front.filter(wanted).contains(item) {
                let i = choose|i: int|
                    0 <= i < front.filter(wanted).len() && front.filter(wanted)[i] == item;
            }
        }
    }
}

/// The items kept from an ascending scan are ascending.
pub proof fn lemma_kept_ascending<T: Keyed>(scan: Seq<T>, wanted: spec_fn(T) -> bool)
    requires
        ascending_by(scan, key_of::<T>()),
    ensures
        ascending_by(scan.filter(wanted), key_of::<T>()),
    decreases scan.len(),
{
    reveal(Seq::filter);
    let key = key_of::<T>();
    if scan.len() > 0 {
        let front = scan.drop_last();
        lemma_kept_ascending(front, wanted);
        if wanted(scan.last()) {
            let kept = front.filter(wanted).push(scan.last());
            assert forall|i: int, j: int| 0 <= i < j < kept.len() implies key(kept[i]) < key(
                kept[j],
            ) by {
                if j == kept.len() - 1 {
                    let item = front.filter(wanted)[i];
                    lemma_kept_contains(front, wanted, item);
                }
            }
        }
    }
}

/// With no place to start behind, a listing starts at the first item.
pub proof fn lemma_scan_from_start<T: Keyed>(scan: Seq<T>)
    ensures
        scan_after(scan, None) == scan,
    decreases scan.len(),
{
    reveal(Seq::filter);
    if scan.len() > 0 {
        lemma_scan_from_start(scan.drop_last());
    }
}

/// The ids on a page go up: given two scans with ascending ids that share
/// no id, no id occurs twice on the page and the lower id comes first.
pub proof fn lemma_list_ascends<T: Keyed>(
    index_a_scan: Seq<T>,
    index_b_scan: Seq<T>,
    after: Option<u64>,
    limit: u32,
)
    requires
        ascending_by(index_a_scan, key_of::<T>()),
        ascending_by(index_b_scan, key_of::<T>()),
        forall|i: int, j: int|
            0 <= i < index_a_scan.len() && 0 <= j < index_b_scan.len() ==> index_a_scan[i].key()
                != index_b_scan[j].key(),
    ensures
        ascending_by(
            merge_by(
                scan_after(index_a_scan, after),
                scan_after(index_b_scan, after),
                key_order::<T>(),
            ),
            key_of::<T>(),
        ),
        ascending_by(listed(index_a_scan, index_b_scan, after, limit), key_of::<T>()),
{
    let a = scan_after(index_a_scan, after);
    let b = scan_after(index_b_scan, after);
    let order = key_order::<T>();
    let key = key_of::<T>();
    lemma_kept_ascending(index_a_scan, is_after::<T>(after));
    lemma_kept_ascending(index_b_scan, is_after::<T>(after));
    assert forall|i: int, j: int| 0 <= i < a.len() && 0 <= j < b.len() implies key(a[i]) != key(
        b[j],
    ) by {
        lemma_kept_contains(index_a_scan, is_after::<T>(after), a[i]);
        lemma_kept_contains(index_b_scan, is_after::<T>(after), b[j]);
    }
    lemma_merge_ascending(a, b, order, key);
}

/// A page that the limit does not cut is the union of the two scans behind
/// `after`, in the order of the ids: given two scans with ascending ids that
/// share no id, the ids on the page are ascending, and an item is on the
/// page if and only if it is in one of the scans and its id is higher than
/// `after`.
pub proof fn lemma_list_is_sorted_union<T: Keyed>(
    index_a_scan: Seq<T>,
    index_b_scan: Seq<T>,
    after: Option<u64>,
    limit: u32,
)
    requires
        ascending_by(index_a_scan, key_of::<T>()),
        ascending_by(index_b_scan, key_of::<T>()),
        forall|i: int, j: int|
            0 <= i < index_a_scan.len() && 0 <= j < index_b_scan.len() ==> index_a_scan[i].key()
                != index_b_scan[j].key(),
        index_a_scan.len() + index_b_scan.len() <= limit,
    ensures
        ascending_by(listed(index_a_scan, index_b_scan, after, limit), key_of::<T>()),
        forall|item: T|
            listed(index_a_scan, index_b_scan, after, limit).contains(item) <==> (
            index_a_scan.contains(item) || index_b_scan.contains(item)) && match after {
                Some(id) => item.key() > id,
                None => true,
            },
{
    let a = scan_after(index_a_scan, after);
    let b = scan_after(index_b_scan, after);
    let order = key_order::<T>();
    let merged = merge_by(a, b, order);
    lemma_merge_len(a, b, order);
    lemma_list_ascends(index_a_scan, index_b_scan, after, limit);
    assert forall|item: T|
        merged.contains(item) <==> (index_a_scan.contains(item) || index_b_scan.contains(item))
            && match after {
            Some(id) => item.key() > id,
            None => true,
        } by {
        lemma_merge_contains(a, b, order, item);
        lemma_kept_contains(index_a_scan, is_after::<T>(after), item);
        lemma_kept_contains(index_b_scan, is_after::<T>(after), item);
    }
}

/// Where every item is wanted, all are kept.
pub proof fn lemma_all_kept<T>(scan: Seq<T>, wanted: spec_fn(T) -> bool)
    requires
        forall|i: int| 0 <= i < scan.len() ==> wanted(#[trigger] scan[i]),
    ensures
        scan.filter(wanted) == scan,
    decreases scan.len(),
{
    reveal(Seq::filter);
    if scan.len() > 0 {
        let front = scan.drop_last();
        lemma_all_kept(front, wanted);
    }
}

/// The first of the items kept from an ordered scan has no lower key than
/// the first of the scan.
proof fn lemma_first_kept<K>(scan: Seq<K>, key: spec_fn(K) -> int, wanted: spec_fn(K) -> bool)
    requires
        ordered_by(scan, key),
        scan.filter(wanted).len() > 0,
    ensures
        scan.len() > 0,
        key(scan[0]) <= key(scan.filter(wanted)[0]),
{
    let first = scan.filter(wanted)[0];
    lemma_kept_contains(scan, wanted, first);
}

/// Keeping the wanted items of a merge is merging the wanted items of the
/// two scans, where the scans are ordered by the key by which they are
/// merged.
pub proof fn lemma_merge_of_kept<K>(
    a: Seq<K>,
    b: Seq<K>,
    first_wins: spec_fn(K, K) -> bool,
    key: spec_fn(K) -> int,
    wanted: spec_fn(K) -> bool,
)
    requires
        compares_by(first_wins, key),
        ordered_by(a, key),
        ordered_by(b, key),
    ensures
        merge_by(a, b, first_wins).filter(wanted) == merge_by(
            a.filter(wanted),
            b.filter(wanted),
            first_wins,
        ),
    decreases a.len() + b.len(),
{
    let kept_a = a.filter(wanted);
    let kept_b = b.filter(wanted);
    if a.len() == 0 {
    } else if b.len() == 0 {
    } else if first_wins(a[0], b[0]) {
        let rest = a.skip(1);
        lemma_merge_of_kept(rest, b, first_wins, key, wanted);
        assert(seq![a[0]] + rest =~= a);
        lemma_filter_head(a[0], rest, wanted);
        if wanted(a[0]) {
            assert(kept_a.skip(1) =~= rest.filter(wanted));
            if kept_b.len() > 0 {
                lemma_first_kept(b, key, wanted);
            }
        }
    } else {
        let rest = b.skip(1);
        lemma_merge_of_kept(a, rest, first_wins, key, wanted);
        assert(seq![b[0]] + rest =~= b);
        lemma_filter_head(b[0], rest, wanted);
        if wanted(b[0]) {
            assert(kept_b.skip(1) =~= rest.filter(wanted));
            if kept_a.len() > 0 {
                lemma_first_kept(a, key, wanted);
            }
        }
    }
}

/// The first items of a merge are found in the first items of the two
/// scans: to take `limit` items from a merge, no scan is needed beyond its
/// first `limit` items.
pub proof fn lemma_merge_of_prefixes<K>(
    a: Seq<K>,
    b: Seq<K>,
    first_wins: spec_fn(K, K) -> bool,
    of_a: nat,
    of_b: nat,
    limit: nat,
)
    requires
        limit <= of_a,
        limit <= of_b,
    ensures
        first_items(
            merge_by(first_items(a, of_a), first_items(b, of_b), first_wins),
            limit,
        ) == first_items(merge_by(a, b, first_wins), limit),
    decreases limit,
{
    let short_a = first_items(a, of_a);
    let short_b = first_items(b, of_b);
    let merged = merge_by(a, b, first_wins);
    if limit == 0 {
    } else if a.len() == 0 {
    } else if b.len() == 0 {
    } else if first_wins(a[0], b[0]) {
        let rest = merge_by(a.skip(1), b, first_wins);
        lemma_merge_of_prefixes(a.skip(1), b, first_wins, (of_a - 1) as nat, of_b, (limit - 1) as nat);
        assert(short_a.skip(1) =~= first_items(a.skip(1), (of_a - 1) as nat));
        assert(first_items(merged, limit) =~= seq![a[0]] + first_items(rest, (limit - 1) as nat));
    } else {
        let rest = merge_by(a, b.skip(1), first_wins);
        lemma_merge_of_prefixes(a, b.skip(1), first_wins, of_a, (of_b - 1) as nat, (limit - 1) as nat);
        assert(short_b.skip(1) =~= first_items(b.skip(1), (of_b - 1) as nat));
        assert(first_items(merged, limit) =~= seq![b[0]] + first_items(rest, (limit - 1) as nat));
    }
}

/// A page needs no scan beyond the first `limit` items that lie behind
/// `after`: the page made from these is the page made from the whole scans.
pub proof fn lemma_page_needs_only_prefixes<T: Keyed>(
    index_a_scan: Seq<T>,
    index_b_scan: Seq<T>,
    after: Option<u64>,
    limit: u32,
)
    ensures
        listed(
            first_items(scan_after(index_a_scan, after), limit as nat),
            first_items(scan_after(index_b_scan, after), limit as nat),
            after,
            limit,
        ) == listed(index_a_scan, index_b_scan, after, limit),
{
    let wanted = is_after::<T>(after);
    let a = scan_after(index_a_scan, after);
    let b = scan_after(index_b_scan, after);
    let short_a = first_items(a, limit as nat);
    let short_b = first_items(b, limit as nat);
    lemma_all_kept(short_a, wanted);
    lemma_all_kept(short_b, wanted);
    lemma_merge_of_prefixes(a, b, key_order::<T>(), limit as nat, limit as nat, limit as nat);
}

/// What the references of a page point to.
pub open spec fn items_of<T>(page: Seq<&T>) -> Seq<T> {
    page.map_values(|item: &T| *item)
}

/// Keeping the wanted references is keeping the references to the wanted
/// items.
pub proof fn lemma_items_of_filter<T>(
    page: Seq<&T>,
    wanted_ref: spec_fn(&T) -> bool,
    wanted: spec_fn(T) -> bool,
)
    requires
        forall|item: &T| #[trigger] wanted_ref(item) == wanted(*item),
    ensures
        items_of(page.filter(wanted_ref)) == items_of(page).filter(wanted),
    decreases page.len(),
{
    reveal(Seq::filter);
    if page.len() > 0 {
        lemma_items_of_filter(page.drop_last(), wanted_ref, wanted);
        assert(items_of(page).drop_last() =~= items_of(page.drop_last()));
    }
}

/// Merging references by the ids is merging the items by the ids.
pub proof fn lemma_items_of_merge<T: Keyed>(a: Seq<&T>, b: Seq<&T>)
    ensures
        items_of(merge_by(a, b, key_order::<&T>())) == merge_by(
            items_of(a),
            items_of(b),
            key_order::<T>(),
        ),
    decreases a.len() + b.len(),
{
    if a.len() == 0 {
    } else if b.len() == 0 {
    } else if key_order::<&T>()(a[0], b[0]) {
        lemma_items_of_merge(a.skip(1), b);
        assert(items_of(a).skip(1) =~= items_of(a.skip(1)));
    } else {
        lemma_items_of_merge(a, b.skip(1));
        assert(items_of(b).skip(1) =~= items_of(b.skip(1)));
    }
}

/// A page of references points to the page of the items.
pub proof fn lemma_items_of_listed<T: Keyed>(
    index_a_scan: Seq<&T>,
    index_b_scan: Seq<&T>,
    after: Option<u64>,
    limit: u32,
)
    ensures
        items_of(listed(index_a_scan, index_b_scan, after, limit)) == listed(
            items_of(index_a_scan),
            items_of(index_b_scan),
            after,
            limit,
        ),
{
    lemma_items_of_filter(index_a_scan, is_after::<&T>(after), is_after::<T>(after));
    lemma_items_of_filter(index_b_scan, is_after::<&T>(after), is_after::<T>(after));
    lemma_items_of_merge(scan_after(index_a_scan, after), scan_after(index_b_scan, after));
    let merged = merge_by(
        scan_after(index_a_scan, after),
        scan_after(index_b_scan, after),
        key_order::<&T>(),
    );
}

/// Moves the items of a scan that lie behind `after` into a queue.
pub(crate) fn queue_after<T: Keyed>(scan: Vec<T>, after: Option<u64>) -> (queue: VecDeque<T>)
    ensures
        queue@ == scan_after(scan@, after),
{
    let mut rest = scan;
    let mut queue: VecDeque<T> = VecDeque::new();
    let ghost wanted = is_after::<T>(after);
    let ghost mut seen = Seq::<T>::empty();
    loop
        invariant
            wanted == is_after::<T>(after),
            rest@ + seen == scan@,
            queue@ == seen.filter(wanted),
        decreases rest.len(),
    {
        match rest.pop() {
            Some(item) => {
                proof {
                    lemma_filter_head(item, seen, wanted);
                    seen = seq![item] + seen;
                }
                let keep = match after {
                    Some(id) => item.primary_key() > id,
                    None => true,
                };
                if keep {
                    queue.push_front(item);
                }
            },
            None => {
                return queue;
            },
        }
    }
}

/// Lists one page of the items of two scans: those whose id is higher than
/// `after`, merged in the order of their ids, and of these the first `limit`.
pub fn list<T: Keyed>(
    index_a_scan: Vec<T>,
    index_b_scan: Vec<T>,
    after: Option<u64>,
    limit: u32,
) -> (page: Vec<T>)
    ensures
        page@ == listed(index_a_scan@, index_b_scan@, after, limit),
{
    let first = queue_after(index_a_scan, after);
    let second = queue_after(index_b_scan, after);
    let mut merge = IterMerge::of_queues(first, second, comes_first::<T>);
    proof {
        assert(decides::<T, _>(merge.predicate(), key_order::<T>()));
        lemma_merge_len(merge.first(), merge.second(), key_order::<T>());
    }
    merge.take(limit as usize)
}

} // verus!
