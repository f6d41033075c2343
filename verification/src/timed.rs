use vstd::prelude::*;

verus! {

/// Something that is due at a time.
pub trait Timed: Sized {
    /// The time at which it is due.
    spec fn spec_time(&self) -> u64;

    /// The time at which it is due.
    fn time(&self) -> (t: u64)
        ensures
            t == self.spec_time(),
    ;
}

/// Holds of the items that are due at or before `time`.
pub open spec fn due_by<T: Timed>(time: u64) -> spec_fn(T) -> bool {
    |e: T| e.spec_time() <= time
}

/// Holds of the items that are due after `time`.
pub open spec fn due_after<T: Timed>(time: u64) -> spec_fn(T) -> bool {
    |e: T| e.spec_time() > time
}

/// Holds of the items that are due exactly at `time`.
pub open spec fn due_at<T: Timed>(time: u64) -> spec_fn(T) -> bool {
    |e: T| e.spec_time() == time
}

/// No item of `s` stands before an earlier one.
pub open spec fn is_time_ordered<T: Timed>(s: Seq<T>) -> bool {
    forall|i: int, j: int| 0 <= i <= j < s.len() ==> s[i].spec_time() <= s[j].spec_time()
}

/// `sorted` holds the items of `unsorted` in ascending order of time, and the
/// items that share a time stand in the order they have in `unsorted`.
pub open spec fn is_stable_sort_of<T: Timed>(sorted: Seq<T>, unsorted: Seq<T>) -> bool {
    &&& sorted.len() == unsorted.len()
    &&& is_time_ordered(sorted)
    &&& forall|t: u64| #[trigger] sorted.filter(due_at::<T>(t)) == unsorted.filter(due_at::<T>(t))
}

/// `s` with `e` put behind the items that are due by the time of `e`.
pub open spec fn insert_by_time<T: Timed>(s: Seq<T>, e: T) -> Seq<T> {
    s.insert(s.filter(due_by::<T>(e.spec_time())).len() as int, e)
}

/// The items of `s` in ascending order of time, those of one time in the
/// order they have in `s`.
pub open spec fn sort_by_time<T: Timed>(s: Seq<T>) -> Seq<T>
    decreases s.len(),
{
    if s.len() == 0 {
        Seq::<T>::empty()
    } else {
        insert_by_time(sort_by_time(s.drop_last()), s.last())
    }
}

/// Puts `items` in ascending order of time. Items that share a time keep
/// their order.
pub fn stable_sort<T: Timed + Copy>(items: &mut Vec<T>)
    ensures
        final(items)@ == sort_by_time(old(items)@),
        is_stable_sort_of(final(items)@, old(items)@),
{
    let mut sorted: Vec<T> = Vec::new();
    let n: usize = items.len();
    let mut i: usize = 0;
    proof {
        assert(items@.subrange(0, 0) =~= Seq::<T>::empty());
    }
    while i < n
        invariant
            n == items.len(),
            i <= n,
            items@ == old(items)@,
            sorted.len() == i,
            sorted@ == sort_by_time(items@.subrange(0, i as int)),
        decreases n - i,
    {
        let e = items[i];
        let time = e.time();
        let mut p: usize = sorted.len();
        while p > 0 && sorted[p - 1].time() > time
            invariant
                p <= sorted.len(),
                time == e.spec_time(),
                forall|k: int| p <= k < sorted.len() ==> (#[trigger] sorted[k]).spec_time() > time,
            decreases p,
        {
            p -= 1;
        }
        proof {
            let prefix = items@.subrange(0, i as int);
            lemma_sort_by_time(prefix);
            lemma_insert_place(sorted@, p as int, time);
            assert(items@.subrange(0, i + 1).drop_last() =~= prefix);
        }
        sorted.insert(p, e);
        i += 1;
    }
    proof {
        assert(items@.subrange(0, n as int) =~= items@);
        lemma_sort_by_time(items@);
    }
    *items = sorted;
}

/// `sort_by_time` is a stable sort.
pub proof fn lemma_sort_by_time<T: Timed>(s: Seq<T>)
    ensures
        is_stable_sort_of(sort_by_time(s), s),
    decreases s.len(),
{
    if s.len() == 0 {
        assert(sort_by_time(s) =~= s);
    } else {
        let rest = s.drop_last();
        let e = s.last();
        let sorted = sort_by_time(rest);
        lemma_sort_by_time(rest);
        lemma_due_count(sorted, e.spec_time());
        let place = sorted.filter(due_by::<T>(e.spec_time())).len() as int;
        assert(rest.push(e) =~= s);
        assert forall|t: u64| #[trigger]
            sort_by_time(s).filter(due_at::<T>(t)) == s.filter(due_at::<T>(t)) by {
            lemma_insert_after_equals(sorted, place, e, t);
            lemma_filter_push::<T>(rest, e, due_at::<T>(t));
            assert(sorted.filter(due_at::<T>(t)) == rest.filter(due_at::<T>(t)));
        }
        lemma_insert_after_equals(sorted, place, e, 0);
    }
}

/// A stable sort holds exactly the items of what it sorts.
pub proof fn lemma_stable_sort_same_items<T: Timed>(sorted: Seq<T>, unsorted: Seq<T>, e: T)
    requires
        is_stable_sort_of(sorted, unsorted),
    ensures
        sorted.contains(e) <==> unsorted.contains(e),
{
    let pred = due_at::<T>(e.spec_time());
    assert(sorted.filter(pred) == unsorted.filter(pred));
    if sorted.contains(e) {
        let i = choose|i: int| 0 <= i < sorted.len() && sorted[i] == e;
        sorted.lemma_filter_contains(pred, i);
        unsorted.lemma_filter_contains_rev(pred, e);
    }
    if unsorted.contains(e) {
        let i = choose|i: int| 0 <= i < unsorted.len() && unsorted[i] == e;
        unsorted.lemma_filter_contains(pred, i);
        sorted.lemma_filter_contains_rev(pred, e);
    }
}

/// In a sequence in order of time, the items due by `time` are its front and
/// the items due after `time` are what follows.
pub proof fn lemma_ordered_splits<T: Timed>(s: Seq<T>, time: u64)
    requires
        is_time_ordered(s),
    ensures
        s.filter(due_by::<T>(time)).len() <= s.len(),
        s.filter(due_by::<T>(time)) == s.subrange(0, s.filter(due_by::<T>(time)).len() as int),
        s.filter(due_after::<T>(time)) == s.subrange(
            s.filter(due_by::<T>(time)).len() as int,
            s.len() as int,
        ),
    decreases s.len(),
{
    let early = due_by::<T>(time);
    let late = due_after::<T>(time);
    s.lemma_filter_len(early);
    if s.len() > 0 {
        let rest = s.drop_last();
        let x = s.last();
        lemma_ordered_front(s);
        lemma_ordered_splits(rest, time);
        assert(rest.push(x) =~= s);
        lemma_filter_push::<T>(rest, x, early);
        lemma_filter_push::<T>(rest, x, late);
        let k = rest.filter(early).len() as int;
        if x.spec_time() <= time {
            assert forall|i: int| 0 <= i < rest.len() implies early(#[trigger] rest[i]) by {}
            lemma_filter_all(rest, early);
            assert(s.filter(early) =~= s.subrange(0, s.len() as int));
            assert(s.filter(late) =~= s.subrange(s.len() as int, s.len() as int));
        } else {
            assert(s.filter(early) =~= s.subrange(0, k));
            assert(s.filter(late) =~= s.subrange(k, s.len() as int));
        }
    } else {
        assert(s =~= Seq::<T>::empty());
        lemma_filter_of_empty::<T>(early);
        lemma_filter_of_empty::<T>(late);
        assert(s.filter(early) =~= s.subrange(0, 0));
        assert(s.filter(late) =~= s.subrange(0, 0));
    }
}

/// In a sequence in order of time, the number of items due by `time` is the
/// place behind the last of them.
pub proof fn lemma_due_count<T: Timed>(s: Seq<T>, time: u64)
    requires
        is_time_ordered(s),
    ensures
        s.filter(due_by::<T>(time)).len() <= s.len(),
        forall|k: int|
            0 <= k < s.filter(due_by::<T>(time)).len() ==> (#[trigger] s[k]).spec_time() <= time,
        forall|k: int|
            s.filter(due_by::<T>(time)).len() <= k < s.len() ==> (#[trigger] s[k]).spec_time()
                > time,
{
    let early = due_by::<T>(time);
    let late = due_after::<T>(time);
    let count = s.filter(early).len() as int;
    lemma_ordered_splits(s, time);
    assert forall|k: int| 0 <= k < count implies (#[trigger] s[k]).spec_time() <= time by {
        s.lemma_filter_pred(early, k);
        assert(s.filter(early)[k] == s.subrange(0, count)[k]);
    }
    assert forall|k: int| count <= k < s.len() implies (#[trigger] s[k]).spec_time() > time by {
        s.lemma_filter_pred(late, k - count);
        assert(s.filter(late)[k - count] == s.subrange(count, s.len() as int)[k - count]);
    }
}

/// In a sequence in order of time, with `time` the time after `before`: the
/// items that are due at `time` stand between those due by `before` and
/// those due after `time`.
pub proof fn lemma_due_in_turn<T: Timed>(s: Seq<T>, before: u64, time: u64)
    requires
        is_time_ordered(s),
        time == before + 1,
    ensures
        s.filter(due_by::<T>(before)).len() <= s.filter(due_by::<T>(time)).len() <= s.len(),
        s.filter(due_at::<T>(time)) == s.subrange(
            s.filter(due_by::<T>(before)).len() as int,
            s.filter(due_by::<T>(time)).len() as int,
        ),
    decreases s.len(),
{
    let k1 = s.filter(due_by::<T>(before)).len() as int;
    let k2 = s.filter(due_by::<T>(time)).len() as int;
    let now = due_at::<T>(time);
    lemma_due_count(s, before);
    lemma_due_count(s, time);
    if k2 < k1 {
        assert(s[k2].spec_time() <= before);
        assert(s[k2].spec_time() > time);
    }
    if s.len() == 0 {
        lemma_filter_of_empty::<T>(now);
        assert(s =~= Seq::<T>::empty());
        assert(s.filter(now) =~= s.subrange(k1, k2));
    } else {
        let rest = s.drop_last();
        let x = s.last();
        assert(rest.push(x) =~= s);
        lemma_ordered_front(s);
        lemma_due_in_turn(rest, before, time);
        lemma_due_count(rest, before);
        lemma_due_count(rest, time);
        lemma_filter_push::<T>(rest, x, now);
        lemma_filter_push::<T>(rest, x, due_by::<T>(before));
        lemma_filter_push::<T>(rest, x, due_by::<T>(time));
        let r1 = rest.filter(due_by::<T>(before)).len() as int;
        let r2 = rest.filter(due_by::<T>(time)).len() as int;
        assert(rest.subrange(r1, r2) =~= s.subrange(r1, r2));
        if x.spec_time() == time {
            assert(k1 == r1 && k2 == r2 + 1);
            if r2 < rest.len() {
                assert(rest[r2].spec_time() > time);
                assert(s[r2].spec_time() <= s[s.len() - 1].spec_time());
            }
            assert(s.subrange(r1, r2).push(x) =~= s.subrange(k1, k2));
        } else if x.spec_time() <= before {
            assert(k1 == r1 + 1 && k2 == r2 + 1);
            if r1 < rest.len() {
                assert(rest[r1].spec_time() > before);
                assert(s[r1].spec_time() <= s[s.len() - 1].spec_time());
            }
            assert(r1 == rest.len() && r2 == rest.len());
            assert(s.subrange(r1, r2) =~= s.subrange(k1, k2));
        }
    }
}

/// Where every item from `place` on is due after `time` and the item before
/// `place` is not, `place` items of a sequence in order of time are due by
/// `time`.
pub proof fn lemma_insert_place<T: Timed>(s: Seq<T>, place: int, time: u64)
    requires
        is_time_ordered(s),
        0 <= place <= s.len(),
        place > 0 ==> s[place - 1].spec_time() <= time,
        forall|k: int| place <= k < s.len() ==> (#[trigger] s[k]).spec_time() > time,
    ensures
        s.filter(due_by::<T>(time)).len() == place,
{
    lemma_due_count(s, time);
    let count = s.filter(due_by::<T>(time)).len() as int;
    if count < place {
        assert(s[count].spec_time() > time);
        assert(s[count].spec_time() <= s[place - 1].spec_time());
    } else if count > place {
        assert(s[place].spec_time() <= time);
    }
}

/// Inserting `e` behind every item that is not due later than `e`, into a
/// sequence in order of time, keeps that order, and adds `e` at the end of the
/// items that are due when `e` is.
pub proof fn lemma_insert_after_equals<T: Timed>(s: Seq<T>, p: int, e: T, t: u64)
    requires
        is_time_ordered(s),
        0 <= p <= s.len(),
        p > 0 ==> s[p - 1].spec_time() <= e.spec_time(),
        forall|k: int| p <= k < s.len() ==> s[k].spec_time() > e.spec_time(),
    ensures
        is_time_ordered(s.insert(p, e)),
        s.insert(p, e).filter(due_at::<T>(t)) == if e.spec_time() == t {
            s.filter(due_at::<T>(t)).push(e)
        } else {
            s.filter(due_at::<T>(t))
        },
{
    let head = s.subrange(0, p);
    let tail = s.subrange(p, s.len() as int);
    let pred = due_at::<T>(t);
    assert(s =~= head + tail);
    assert(s.insert(p, e) =~= head.push(e) + tail);
    Seq::filter_distributes_over_add(head, tail, pred);
    Seq::filter_distributes_over_add(head.push(e), tail, pred);
    lemma_filter_push::<T>(head, e, pred);
    if e.spec_time() == t {
        tail.lemma_all_neg_filter_empty(pred);
        assert(tail.filter(pred) =~= Seq::<T>::empty());
        assert(head.filter(pred).push(e) + tail.filter(pred) =~= (head.filter(pred) + tail.filter(
            pred,
        )).push(e));
    }
    let r = s.insert(p, e);
    assert forall|i: int, j: int| 0 <= i <= j < r.len() implies r[i].spec_time()
        <= r[j].spec_time() by {
        if i < p && j == p {
            assert(s[i].spec_time() <= s[p - 1].spec_time());
        } else if i < p && j > p {
            assert(r[j] == s[j - 1]);
        } else if i == p && j > p {
            assert(r[j] == s[j - 1]);
        } else if i > p {
            assert(r[i] == s[i - 1]);
            assert(r[j] == s[j - 1]);
        }
    }
}

/// What stands before the last item of a sequence in order of time is in
/// order of time, and is due no later than the last item.
pub proof fn lemma_ordered_front<T: Timed>(s: Seq<T>)
    requires
        is_time_ordered(s),
        s.len() > 0,
    ensures
        is_time_ordered(s.drop_last()),
        forall|i: int|
            0 <= i < s.drop_last().len() ==> (#[trigger] s.drop_last()[i]).spec_time()
                <= s.last().spec_time(),
{
    let rest = s.drop_last();
    assert forall|i: int, j: int| 0 <= i <= j < rest.len() implies rest[i].spec_time()
        <= rest[j].spec_time() by {
        assert(rest[i] == s[i] && rest[j] == s[j]);
    }
    assert forall|i: int| 0 <= i < rest.len() implies (#[trigger] rest[i]).spec_time()
        <= s.last().spec_time() by {
        assert(rest[i] == s[i]);
        assert(s[i].spec_time() <= s[s.len() - 1].spec_time());
    }
}

/// A filter keeps the order of time.
pub proof fn lemma_filter_keeps_order<T: Timed>(s: Seq<T>, pred: spec_fn(T) -> bool)
    requires
        is_time_ordered(s),
    ensures
        is_time_ordered(s.filter(pred)),
    decreases s.len(),
{
    reveal(Seq::filter);
    if s.len() > 0 {
        let rest = s.drop_last();
        let x = s.last();
        lemma_filter_keeps_order(rest, pred);
        let f = rest.filter(pred);
        if pred(x) {
            assert forall|i: int, j: int| 0 <= i <= j < f.push(x).len() implies f.push(x)[i].spec_time()
                <= f.push(x)[j].spec_time() by {
                if j == f.len() && i < f.len() {
                    rest.lemma_filter_contains_rev(pred, f[i]);
                    let k = choose|k: int| 0 <= k < rest.len() && rest[k] == f[i];
                    assert(s[k] == f[i]);
                }
            }
        }
    }
}

/// Filtering a sequence that ends in `x` filters the rest and keeps `x` if it passes.
pub proof fn lemma_filter_push<T>(s: Seq<T>, x: T, pred: spec_fn(T) -> bool)
    ensures
        s.push(x).filter(pred) == if pred(x) {
            s.filter(pred).push(x)
        } else {
            s.filter(pred)
        },
{
    reveal(Seq::filter);
    assert(s.push(x).drop_last() =~= s);
}

/// Nothing passes a filter of the empty sequence.
pub proof fn lemma_filter_of_empty<T>(pred: spec_fn(T) -> bool)
    ensures
        Seq::<T>::empty().filter(pred) == Seq::<T>::empty(),
{
    reveal(Seq::filter);
}

/// A filter that every item passes changes nothing.
pub proof fn lemma_filter_all<T>(s: Seq<T>, pred: spec_fn(T) -> bool)
    requires
        forall|i: int| 0 <= i < s.len() ==> pred(#[trigger] s[i]),
    ensures
        s.filter(pred) == s,
    decreases s.len(),
{
    reveal(Seq::filter);
    if s.len() > 0 {
        let rest = s.drop_last();
        assert forall|i: int| 0 <= i < rest.len() implies pred(#[trigger] rest[i]) by {
            assert(rest[i] == s[i]);
        }
        lemma_filter_all(rest, pred);
        assert(rest.push(s.last()) =~= s);
    } else {
        assert(s.filter(pred) =~= s);
    }
}

/// The items that are due by the first time are those due at it.
pub proof fn lemma_due_at_first<T: Timed>(s: Seq<T>)
    ensures
        s.filter(due_at::<T>(0)) == s.filter(due_by::<T>(0)),
    decreases s.len(),
{
    reveal(Seq::filter);
    if s.len() > 0 {
        lemma_due_at_first(s.drop_last());
    }
}

/// Filters that pass the same items leave the same sequence.
pub proof fn lemma_filter_same<T>(s: Seq<T>, first: spec_fn(T) -> bool, second: spec_fn(T) -> bool)
    requires
        forall|e: T| #[trigger] first(e) == second(e),
    ensures
        s.filter(first) == s.filter(second),
    decreases s.len(),
{
    reveal(Seq::filter);
    if s.len() > 0 {
        lemma_filter_same(s.drop_last(), first, second);
    }
}

/// Where each item that passes `both` passes one of `first` and `second`
/// and no other does, as many pass `both` as pass the two together.
pub proof fn lemma_filter_count<T>(
    s: Seq<T>,
    first: spec_fn(T) -> bool,
    second: spec_fn(T) -> bool,
    both: spec_fn(T) -> bool,
)
    requires
        forall|e: T| #[trigger] both(e) == (first(e) || second(e)),
        forall|e: T| !(#[trigger] first(e) && second(e)),
    ensures
        s.filter(both).len() == s.filter(first).len() + s.filter(second).len(),
    decreases s.len(),
{
    if s.len() > 0 {
        let rest = s.drop_last();
        let x = s.last();
        lemma_filter_count(rest, first, second, both);
        assert(rest.push(x) =~= s);
        lemma_filter_push(rest, x, first);
        lemma_filter_push(rest, x, second);
        lemma_filter_push(rest, x, both);
        assert(both(x) == (first(x) || second(x)));
        assert(!(first(x) && second(x)));
    } else {
        assert(s =~= Seq::<T>::empty());
        lemma_filter_of_empty(first);
        lemma_filter_of_empty(second);
        lemma_filter_of_empty(both);
    }
}

/// Filtering twice, the second time by a predicate that implies the first,
/// is filtering by the second predicate alone.
pub proof fn lemma_filter_narrower<T>(
    s: Seq<T>,
    wide: spec_fn(T) -> bool,
    narrow: spec_fn(T) -> bool,
)
    requires
        forall|e: T| #[trigger] narrow(e) ==> wide(e),
    ensures
        s.filter(wide).filter(narrow) == s.filter(narrow),
    decreases s.len(),
{
    reveal(Seq::filter);
    if s.len() > 0 {
        let rest = s.drop_last();
        let x = s.last();
        lemma_filter_narrower(rest, wide, narrow);
        assert(rest.push(x) =~= s);
        lemma_filter_push::<T>(rest, x, wide);
        lemma_filter_push::<T>(rest, x, narrow);
        if wide(x) {
            lemma_filter_push::<T>(rest.filter(wide), x, narrow);
        }
    }
}

/// Filtering twice by predicates that exclude each other leaves nothing.
pub proof fn lemma_filter_disjoint<T>(
    s: Seq<T>,
    first: spec_fn(T) -> bool,
    second: spec_fn(T) -> bool,
)
    requires
        forall|e: T| #[trigger] first(e) ==> !second(e),
    ensures
        s.filter(first).filter(second) == Seq::<T>::empty(),
{
    let f = s.filter(first);
    assert forall|i: int| 0 <= i < f.len() implies !second(#[trigger] f[i]) by {
        s.lemma_filter_pred(first, i);
    }
    f.lemma_all_neg_filter_empty(second);
    assert(f.filter(second) =~= Seq::<T>::empty());
}

} // verus!
