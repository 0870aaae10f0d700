//! Merging two ordered scans into one, item by item.

use vstd::prelude::*;
use std::collections::VecDeque;

verus! {

/// The predicate can be called on every pair of items.
pub open spec fn always_callable<K, F: Fn(&K, &K) -> bool>(f: F) -> bool {
    forall|x: K, y: K| call_requires(f, (&x, &y))
}

/// The predicate computes the relation: whatever a call of it on two items
/// returns is what the relation says of them.
pub open spec fn decides<K, F: Fn(&K, &K) -> bool>(f: F, first_wins: spec_fn(K, K) -> bool) -> bool {
    forall|x: K, y: K, r: bool| call_ensures(f, (&x, &y), r) ==> r == first_wins(x, y)
}

/// The merge of two sequences: at each step the head of the first is emitted
/// if `first_wins` holds of the two heads, else the head of the second; when
/// one sequence is used up, the rest of the other follows.
pub open spec fn merge_by<K>(a: Seq<K>, b: Seq<K>, first_wins: spec_fn(K, K) -> bool) -> Seq<K>
    decreases a.len() + b.len(),
{
    if a.len() == 0 {
        b
    } else if b.len() == 0 {
        a
    } else if first_wins(a[0], b[0]) {
        seq![a[0]] + merge_by(a.skip(1), b, first_wins)
    } else {
        seq![b[0]] + merge_by(a, b.skip(1), first_wins)
    }
}

/// The keys of the items never go down along the sequence.
pub open spec fn ordered_by<K>(s: Seq<K>, key: spec_fn(K) -> int) -> bool {
    forall|i: int, j: int| 0 <= i <= j < s.len() ==> key(s[i]) <= key(s[j])
}

/// The keys of the items go up along the sequence, so no key occurs twice.
pub open spec fn ascending_by<K>(s: Seq<K>, key: spec_fn(K) -> int) -> bool {
    forall|i: int, j: int| 0 <= i < j < s.len() ==> key(s[i]) < key(s[j])
}

/// The relation compares items by their keys, the lower or equal key first.
pub open spec fn compares_by<K>(first_wins: spec_fn(K, K) -> bool, key: spec_fn(K) -> int) -> bool {
    forall|x: K, y: K| #[trigger] first_wins(x, y) <==> key(x) <= key(y)
}

/// A merge holds as many items as the two sequences together.
pub proof fn lemma_merge_len<K>(a: Seq<K>, b: Seq<K>, first_wins: spec_fn(K, K) -> bool)
    ensures
        merge_by(a, b, first_wins).len() == a.len() + b.len(),
    decreases a.len() + b.len(),
{
    if a.len() > 0 && b.len() > 0 {
        lemma_merge_len(a.skip(1), b, first_wins);
        lemma_merge_len(a, b.skip(1), first_wins);
    }
}

/// An item is in a sequence where it is the head or in the rest.
proof fn lemma_contains_head_or_rest<K>(s: Seq<K>, x: K)
    requires
        s.len() > 0,
    ensures
        s.contains(x) <==> (x == s[0] || s.skip(1).contains(x)),
{
    if s.contains(x) {
        let i = choose|i: int| 0 <= i < s.len() && s[i] == x;
        if i > 0 {
            assert(s.skip(1)[i - 1] == x);
        }
    }
}

/// A merge holds exactly the items of the two sequences.
pub proof fn lemma_merge_contains<K>(a: Seq<K>, b: Seq<K>, first_wins: spec_fn(K, K) -> bool, x: K)
    ensures
        merge_by(a, b, first_wins).contains(x) <==> (a.contains(x) || b.contains(x)),
    decreases a.len() + b.len(),
{
    let merged = merge_by(a, b, first_wins);
    if a.len() == 0 {
    } else if b.len() == 0 {
    } else if first_wins(a[0], b[0]) {
        let rest = merge_by(a.skip(1), b, first_wins);
        lemma_merge_contains(a.skip(1), b, first_wins, x);
        lemma_contains_head_or_rest(a, x);
        lemma_contains_head_or_rest(merged, x);
        assert(merged.skip(1) =~= rest);
    } else {
        let rest = merge_by(a, b.skip(1), first_wins);
        lemma_merge_contains(a, b.skip(1), first_wins, x);
        lemma_contains_head_or_rest(b, x);
        lemma_contains_head_or_rest(merged, x);
        assert(merged.skip(1) =~= rest);
    }
}

/// In an ordered sequence no item has a lower key than the head.
proof fn lemma_head_is_lowest<K>(s: Seq<K>, key: spec_fn(K) -> int, x: K)
    requires
        ordered_by(s, key),
        s.contains(x),
    ensures
        key(s[0]) <= key(x),
{
}

/// The merge of two ordered sequences by their keys is ordered.
pub proof fn lemma_merge_ordered<K>(
    a: Seq<K>,
    b: Seq<K>,
    first_wins: spec_fn(K, K) -> bool,
    key: spec_fn(K) -> int,
)
    requires
        compares_by(first_wins, key),
        ordered_by(a, key),
        ordered_by(b, key),
    ensures
        ordered_by(merge_by(a, b, first_wins), key),
    decreases a.len() + b.len(),
{
    let merged = merge_by(a, b, first_wins);
    if a.len() > 0 && b.len() > 0 {
        let first = first_wins(a[0], b[0]);
        let a_rest = if first { a.skip(1) } else { a };
        let b_rest = if first { b } else { b.skip(1) };
        let rest = merge_by(a_rest, b_rest, first_wins);
        lemma_merge_ordered(a_rest, b_rest, first_wins, key);
        assert forall|i: int, j: int| 0 <= i <= j < merged.len() implies key(merged[i]) <= key(
            merged[j],
        ) by {
            if i == 0 && j > 0 {
                let x = rest[j - 1];
                lemma_merge_contains(a_rest, b_rest, first_wins, x);
                if a_rest.contains(x) {
                    lemma_contains_head_or_rest(a, x);
                    lemma_head_is_lowest(a, key, x);
                } else {
                    lemma_contains_head_or_rest(b, x);
                    lemma_head_is_lowest(b, key, x);
                }
            }
        }
    }
}

/// The merge of two ascending sequences that share no key is ascending: it
/// is the two sequences' union in the order of the keys.
pub proof fn lemma_merge_ascending<K>(
    a: Seq<K>,
    b: Seq<K>,
    first_wins: spec_fn(K, K) -> bool,
    key: spec_fn(K) -> int,
)
    requires
        compares_by(first_wins, key),
        ascending_by(a, key),
        ascending_by(b, key),
        forall|i: int, j: int| 0 <= i < a.len() && 0 <= j < b.len() ==> key(a[i]) != key(b[j]),
    ensures
        ascending_by(merge_by(a, b, first_wins), key),
    decreases a.len() + b.len(),
{
    let merged = merge_by(a, b, first_wins);
    if a.len() > 0 && b.len() > 0 {
        let first = first_wins(a[0], b[0]);
        let a_rest = if first { a.skip(1) } else { a };
        let b_rest = if first { b } else { b.skip(1) };
        let rest = merge_by(a_rest, b_rest, first_wins);
        lemma_merge_ascending(a_rest, b_rest, first_wins, key);
        assert forall|i: int, j: int| 0 <= i < j < merged.len() implies key(merged[i]) < key(
            merged[j],
        ) by {
            if i == 0 {
                let x = rest[j - 1];
                lemma_merge_contains(a_rest, b_rest, first_wins, x);
            }
        }
    }
}

/// Moves the items of a vector into a queue, in the same order.
pub(crate) fn queue_of<K>(items: Vec<K>) -> (queue: VecDeque<K>)
    ensures
        queue@ == items@,
{
    let mut rest = items;
    let mut queue: VecDeque<K> = VecDeque::new();
    loop
        invariant
            rest@ + queue@ == items@,
        decreases rest.len(),
    {
        match rest.pop() {
            Some(item) => {
                queue.push_front(item);
            },
            None => {
                return queue;
            },
        }
    }
}

/// Merges two scans lazily by a predicate that answers `true` where the head
/// of the first scan is to come before the head of the second.
pub fn merge_iters<K, F: Fn(&K, &K) -> bool>(iter1: Vec<K>, iter2: Vec<K>, is_less_than: F) -> (merge:
    IterMerge<K, F>)
    requires
        always_callable::<K, F>(is_less_than),
    ensures
        merge.wf(),
        merge.first() == iter1@,
        merge.second() == iter2@,
        merge.predicate() == is_less_than,
{
    IterMerge { iter1: queue_of(iter1), iter2: queue_of(iter2), is_less_than }
}

/// Two scans that are merged lazily: each call of `next` takes one item from
/// the head of one of them.
pub struct IterMerge<K, F: Fn(&K, &K) -> bool> {
    iter1: VecDeque<K>,
    iter2: VecDeque<K>,
    // answers true to emit the head of the first scan, false for the second
    is_less_than: F,
}

impl<K, F: Fn(&K, &K) -> bool> IterMerge<K, F> {
    /// A merge of what two queues hold.
    pub(crate) fn of_queues(iter1: VecDeque<K>, iter2: VecDeque<K>, is_less_than: F) -> (merge:
        IterMerge<K, F>)
        requires
            always_callable::<K, F>(is_less_than),
        ensures
            merge.wf(),
            merge.first() == iter1@,
            merge.second() == iter2@,
            merge.predicate() == is_less_than,
    {
        IterMerge { iter1, iter2, is_less_than }
    }

    /// The predicate of this merge can be called on every pair of items.
    pub closed spec fn wf(self) -> bool {
        always_callable::<K, F>(self.is_less_than)
    }

    /// What is left of the first scan.
    pub closed spec fn first(self) -> Seq<K> {
        self.iter1@
    }

    /// What is left of the second scan.
    pub closed spec fn second(self) -> Seq<K> {
        self.iter2@
    }

    /// The predicate by which the heads are compared.
    pub closed spec fn predicate(self) -> F {
        self.is_less_than
    }

    /// Everything that is left, merged by the given relation.
    pub open spec fn remaining_by(self, first_wins: spec_fn(K, K) -> bool) -> Seq<K> {
        merge_by(self.first(), self.second(), first_wins)
    }

    /// `item` is the head of the first scan, and `next` is this merge
    /// without it.
    pub open spec fn takes_first(self, item: Option<K>, next: Self) -> bool {
        &&& self.first().len() > 0
        &&& item == Some(self.first()[0])
        &&& next.first() == self.first().skip(1)
        &&& next.second() == self.second()
    }

    /// `item` is the head of the second scan, and `next` is this merge
    /// without it.
    pub open spec fn takes_second(self, item: Option<K>, next: Self) -> bool {
        &&& self.second().len() > 0
        &&& item == Some(self.second()[0])
        &&& next.first() == self.first()
        &&& next.second() == self.second().skip(1)
    }

    /// One step of the merge: with both scans used up nothing is taken; with
    /// one used up the head of the other is taken; else the predicate is
    /// called on the two heads, and the head of the first scan is taken if
    /// it returned `true`, the head of the second if it returned `false`.
    pub open spec fn steps_to(self, item: Option<K>, next: Self) -> bool {
        &&& next.predicate() == self.predicate()
        &&& if self.first().len() == 0 && self.second().len() == 0 {
            item is None && next.first() == self.first() && next.second() == self.second()
        } else if self.second().len() == 0 {
            self.takes_first(item, next)
        } else if self.first().len() == 0 {
            self.takes_second(item, next)
        } else {
            ||| call_ensures(self.predicate(), (&self.first()[0], &self.second()[0]), true)
                && self.takes_first(item, next)
            ||| call_ensures(self.predicate(), (&self.first()[0], &self.second()[0]), false)
                && self.takes_second(item, next)
        }
    }

    /// A step takes the head of what is left, merged by any relation that
    /// the predicate computes.
    pub proof fn lemma_step(self, item: Option<K>, next: Self, first_wins: spec_fn(K, K) -> bool)
        requires
            self.steps_to(item, next),
            decides::<K, F>(self.predicate(), first_wins),
        ensures
            self.remaining_by(first_wins).len() == 0 ==> item is None && next.remaining_by(first_wins)
                == self.remaining_by(first_wins),
            self.remaining_by(first_wins).len() > 0 ==> item == Some(
                self.remaining_by(first_wins)[0],
            ) && next.remaining_by(first_wins) == self.remaining_by(first_wins).skip(1),
    {
    }

    /// Takes the next item of the merge, or `None` when both scans are used up.
    pub fn next(&mut self) -> (item: Option<K>)
        requires
            old(self).wf(),
        ensures
            final(self).wf(),
            old(self).steps_to(item, *final(self)),
    {
        let take_first = if self.iter1.len() == 0 {
            false
        } else if self.iter2.len() == 0 {
            true
        } else {
            (self.is_less_than)(&self.iter1[0], &self.iter2[0])
        };
        if take_first {
            self.iter1.pop_front()
        } else {
            self.iter2.pop_front()
        }
    }

    /// Takes the items of the merge that are left, at most `limit` of them.
    ///
    /// For any relation that the predicate computes, these are the first
    /// items of what is left, merged by the relation.
    pub fn take(&mut self, limit: usize) -> (items: Vec<K>)
        requires
            old(self).wf(),
        ensures
            final(self).wf(),
            final(self).predicate() == old(self).predicate(),
            items@.len() == if old(self).first().len() + old(self).second().len() < limit {
                old(self).first().len() + old(self).second().len()
            } else {
                limit as nat
            },
            forall|first_wins: spec_fn(K, K) -> bool| #[trigger]
                decides::<K, F>(old(self).predicate(), first_wins) ==> items@ == old(
                    self,
                ).remaining_by(first_wins).take(items@.len() as int) && final(self).remaining_by(
                    first_wins,
                ) == old(self).remaining_by(first_wins).skip(items@.len() as int),
    {
        let mut items: Vec<K> = Vec::new();
        while items.len() < limit
            invariant
                self.wf(),
                self.predicate() == old(self).predicate(),
                items@.len() <= limit,
                items@.len() + self.first().len() + self.second().len() == old(self).first().len()
                    + old(self).second().len(),
                forall|first_wins: spec_fn(K, K) -> bool| #[trigger]
                    decides::<K, F>(old(self).predicate(), first_wins) ==> items@ == old(
                        self,
                    ).remaining_by(first_wins).take(items@.len() as int) && self.remaining_by(
                        first_wins,
                    ) == old(self).remaining_by(first_wins).skip(items@.len() as int),
            decreases self.first().len() + self.second().len(),
        {
            let ghost before = *self;
            match self.next() {
                Some(item) => {
                    items.push(item);
                    proof {
                        assert forall|first_wins: spec_fn(K, K) -> bool| #[trigger]
                            decides::<K, F>(old(self).predicate(), first_wins) implies items@
                            == old(self).remaining_by(first_wins).take(items@.len() as int)
                            && self.remaining_by(first_wins) == old(self).remaining_by(
                            first_wins,
                        ).skip(items@.len() as int) by {
                            before.lemma_step(Some(item), *self, first_wins);
                            lemma_merge_len(old(self).first(), old(self).second(), first_wins);
                        }
                    }
                },
                None => {
                    return items;
                },
            }
        }
        items
    }

    /// Takes all the items of the merge that are left.
    ///
    /// For any relation that the predicate computes, these are what is left
    /// of the two scans, merged by the relation.
    pub fn collect(self) -> (items: Vec<K>)
        requires
            self.wf(),
        ensures
            items@.len() == self.first().len() + self.second().len(),
            forall|first_wins: spec_fn(K, K) -> bool| #[trigger]
                decides::<K, F>(self.predicate(), first_wins) ==> items@ == self.remaining_by(
                    first_wins,
                ),
    {
        let mut merge = self;
        let mut items: Vec<K> = Vec::new();
        loop
            invariant
                merge.wf(),
                merge.predicate() == self.predicate(),
                items@.len() + merge.first().len() + merge.second().len() == self.first().len()
                    + self.second().len(),
                forall|first_wins: spec_fn(K, K) -> bool| #[trigger]
                    decides::<K, F>(self.predicate(), first_wins) ==> items@ + merge.remaining_by(
                        first_wins,
                    ) == self.remaining_by(first_wins),
            decreases merge.first().len() + merge.second().len(),
        {
            let ghost taken = items@;
            let item = merge.next();
            proof {
                assert forall|first_wins: spec_fn(K, K) -> bool| #[trigger]
                    decides::<K, F>(self.predicate(), first_wins) implies (item is None ==> taken
                    == self.remaining_by(first_wins)) && (item is Some ==> taken.push(
                    item.unwrap(),
                ) + merge.remaining_by(first_wins) == self.remaining_by(first_wins)) by {}
            }
            match item {
                Some(found) => {
                    items.push(found);
                },
                None => {
                    return items;
                },
            }
        }
    }
}

} // verus!
