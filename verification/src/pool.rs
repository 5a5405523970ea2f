//! A shared work queue with a slot for each result.
//!
//! The workers of a parallel map take items from the queue and hand the results
//! back, in whatever order they get done; the results come out in the order of
//! the items.

use std::collections::VecDeque;
use vstd::prelude::*;

verus! {

/// The items that nobody has taken yet, each with its place, and the results
/// that have been handed back.
pub struct Pool<T, R> {
    queue: VecDeque<(usize, T)>,
    results: Vec<Option<R>>,
}

/// The mathematical counterpart of [`Pool`].
#[verifier::ext_equal]
pub struct PoolView<T, R> {
    pub queue: Seq<(int, T)>,
    pub results: Seq<Option<R>>,
}

/// The entries of the queue with mathematical places.
pub open spec fn entries<T>(queue: Seq<(usize, T)>) -> Seq<(int, T)> {
    queue.map_values(|e: (usize, T)| (e.0 as int, e.1))
}

/// The items with their places, from place `from` on.
pub open spec fn numbered<T>(items: Seq<T>, from: int) -> Seq<(int, T)> {
    Seq::new((items.len() - from) as nat, |k: int| (from + k, items[from + k]))
}

impl<T, R> View for Pool<T, R> {
    type V = PoolView<T, R>;

    closed spec fn view(&self) -> PoolView<T, R> {
        PoolView { queue: entries(self.queue@), results: self.results@ }
    }
}

impl<T, R> PoolView<T, R> {
    /// Every item waits, and no result is there.
    pub open spec fn fresh(items: Seq<T>) -> Self {
        PoolView {
            queue: numbered(items, 0),
            results: Seq::new(items.len(), |i: int| None),
        }
    }

    /// Every result is there.
    pub open spec fn is_complete(self) -> bool {
        forall|i: int| 0 <= i < self.results.len() ==> #[trigger] self.results[i] is Some
    }

    /// The pool when the first item of the queue has been taken.
    pub open spec fn taken(self) -> Self {
        if self.queue.len() > 0 {
            PoolView { queue: self.queue.drop_first(), ..self }
        } else {
            self
        }
    }

    /// The pool when a result has been handed back.
    pub open spec fn with(self, place: int, result: R) -> Self {
        PoolView { results: self.results.update(place, Some(result)), ..self }
    }
}

/// How many workers to start for `n` items: at most `jobs`, at least one, and
/// no more than there are items.
pub open spec fn workers(n: nat, jobs: nat) -> nat {
    if n == 0 {
        0
    } else if jobs == 0 {
        1
    } else if jobs < n {
        jobs
    } else {
        n
    }
}

/// How many workers to start for `n` items.
pub fn worker_count(n: usize, jobs: usize) -> (r: usize)
    ensures
        r == workers(n as nat, jobs as nat),
{
    if n == 0 {
        0
    } else if jobs == 0 {
        1
    } else if jobs < n {
        jobs
    } else {
        n
    }
}

impl<T, R> Pool<T, R> {
    /// A pool with all items waiting.
    pub fn new(items: Vec<T>) -> (r: Self)
        ensures
            r@ == PoolView::<T, R>::fresh(items@),
    {
        let ghost all = items@;
        let mut queue: VecDeque<(usize, T)> = VecDeque::new();
        let mut results: Vec<Option<R>> = Vec::new();
        let n = items.len();
        let mut i: usize = 0;
        for item in it: items.into_iter()
            invariant
                it.seq() == all,
                n == all.len(),
                i == it.index(),
                i <= n,
                entries(queue@) == numbered(all, 0).take(i as int),
                results@ == Seq::new(i as nat, |k: int| None::<R>),
        {
            let ghost before = queue@;
            queue.push_back((i, item));
            results.push(None);
            i = i + 1;
            proof {
                assert(entries(queue@) == entries(before).push((i - 1, item)));
            }
        }
        proof {
            assert(numbered(all, 0).take(i as int) == numbered(all, 0));
        }
        Pool { queue, results }
    }

    /// The next item to work on, with its place; `None` when all are taken.
    pub fn take(&mut self) -> (r: Option<(usize, T)>)
        ensures
            final(self)@ == old(self)@.taken(),
            match r {
                Some(e) => old(self)@.queue.len() > 0 && (e.0 as int, e.1) == old(self)@.queue[0],
                None => old(self)@.queue.len() == 0,
            },
    {
        let r = self.queue.pop_front();
        proof {
            if old(self).queue@.len() > 0 {
                assert(entries(self.queue@) == entries(old(self).queue@).drop_first());
            }
        }
        r
    }

    /// Hands back the result for the item at `place`.
    pub fn put(&mut self, place: usize, result: R)
        requires
            place < old(self)@.results.len(),
        ensures
            final(self)@ == old(self)@.with(place as int, result),
    {
        self.results[place] = Some(result);
    }

    /// The results, in the order of the items.
    pub fn finish(self) -> (r: Vec<R>)
        requires
            self@.is_complete(),
        ensures
            r@.len() == self@.results.len(),
            forall|i: int| 0 <= i < r@.len() ==> Some(#[trigger] r@[i]) == self@.results[i],
    {
        let mut out: Vec<R> = Vec::new();
        let ghost all = self@.results;
        for slot in it: self.results.into_iter()
            invariant
                it.seq() == all,
                forall|i: int| 0 <= i < all.len() ==> #[trigger] all[i] is Some,
                out@.len() == it.index(),
                forall|i: int| 0 <= i < out@.len() ==> Some(#[trigger] out@[i]) == all[i],
        {
            proof {
                assert(all[it.index()] is Some);
            }
            if let Some(result) = slot {
                out.push(result);
            }
        }
        out
    }
}

// ---------------------------------------------------------------------------
// What holds however the workers take turns
// ---------------------------------------------------------------------------

/// What a worker does to the pool: it takes the next item, or hands back the
/// result for a place.
pub enum Event<R> {
    Take,
    Put(int, R),
}

/// The pool after these events.
pub open spec fn pool_after<T, R>(items: Seq<T>, events: Seq<Event<R>>) -> PoolView<T, R>
    decreases events.len(),
{
    if events.len() == 0 {
        PoolView::fresh(items)
    } else {
        let before = pool_after(items, events.drop_last());
        match events.last() {
            Event::Take => before.taken(),
            Event::Put(place, result) => before.with(place, result),
        }
    }
}

/// How many of the events are takes.
pub open spec fn takes<R>(events: Seq<Event<R>>) -> nat
    decreases events.len(),
{
    if events.len() == 0 {
        0
    } else if events.last() is Take {
        takes(events.drop_last()) + 1
    } else {
        takes(events.drop_last())
    }
}

/// Every result handed back is that of `f` for the item at its place.
pub open spec fn work_is_done_by<T, R>(
    items: Seq<T>,
    events: Seq<Event<R>>,
    f: spec_fn(T) -> R,
) -> bool {
    forall|k: int|
        0 <= k < events.len() ==> (#[trigger] events[k] matches Event::Put(place, result) ==> 0
            <= place < items.len() && result == f(items[place]))
}

/// No more workers are started than are allowed or than there are items, and
/// where there are items, at least one is.
pub proof fn workers_are_bounded(n: nat, jobs: nat)
    ensures
        workers(n, jobs) <= n,
        jobs > 0 ==> workers(n, jobs) <= jobs,
        n > 0 ==> workers(n, jobs) >= 1,
{
}

/// The items are handed out in order, each once: after any number of takes,
/// just those that come later wait.
pub proof fn items_are_handed_out_once<T, R>(items: Seq<T>, events: Seq<Event<R>>)
    ensures
        takes(events) <= items.len() ==> pool_after(items, events).queue == numbered(
            items,
            takes(events) as int,
        ),
        takes(events) >= items.len() ==> pool_after(items, events).queue.len() == 0,
    decreases events.len(),
{
    if events.len() > 0 {
        items_are_handed_out_once(items, events.drop_last());
        let t = takes(events.drop_last()) as int;
        if t < items.len() && events.last() is Take {
            assert(numbered(items, t).drop_first() == numbered(items, t + 1));
        }
    }
}

/// Whatever the order in which the workers take items and hand results back,
/// each result stands at the place of its item; when all are there, the results
/// are those of mapping the items one by one.
pub proof fn results_are_in_order<T, R>(items: Seq<T>, events: Seq<Event<R>>, f: spec_fn(T) -> R)
    requires
        work_is_done_by(items, events, f),
    ensures
        pool_after(items, events).results.len() == items.len(),
        forall|i: int|
            0 <= i < items.len() ==> (#[trigger] pool_after(items, events).results[i] matches Some(
                r,
            ) ==> r == f(items[i])),
        pool_after(items, events).is_complete() ==> pool_after(items, events).results
            == items.map_values(|t: T| Some(f(t))),
    decreases events.len(),
{
    if events.len() > 0 {
        let fewer = events.drop_last();
        assert(work_is_done_by(items, fewer, f)) by {
            assert forall|k: int| 0 <= k < fewer.len() implies (#[trigger] fewer[k] matches Event::Put(
                place,
                result,
            ) ==> 0 <= place < items.len() && result == f(items[place])) by {
                assert(events[k] == fewer[k]);
            }
        }
        results_are_in_order(items, fewer, f);
        assert(events[events.len() - 1] == events.last());
    }
    let pool = pool_after(items, events);
    if pool.is_complete() {
        assert(pool.results =~= items.map_values(|t: T| Some(f(t))));
    }
}

/// A result for `place` has been handed back.
pub open spec fn handed_back<R>(events: Seq<Event<R>>, place: int) -> bool {
    exists|k: int| 0 <= k < events.len() && is_put_at(#[trigger] events[k], place)
}

/// The event is a result handed back for `place`.
pub open spec fn is_put_at<R>(event: Event<R>, place: int) -> bool {
    event matches Event::Put(p, _) && p == place
}

/// A slot is filled once a result for its place has been handed back, and stays so.
proof fn lemma_slot_is_filled<T, R>(
    items: Seq<T>,
    events: Seq<Event<R>>,
    f: spec_fn(T) -> R,
    place: int,
)
    requires
        work_is_done_by(items, events, f),
        0 <= place < items.len(),
        handed_back(events, place),
    ensures
        pool_after(items, events).results[place] is Some,
    decreases events.len(),
{
    let fewer = events.drop_last();
    assert(work_is_done_by(items, fewer, f)) by {
        assert forall|k: int| 0 <= k < fewer.len() implies (#[trigger] fewer[k] matches Event::Put(
            p,
            result,
        ) ==> 0 <= p < items.len() && result == f(items[p])) by {
            assert(events[k] == fewer[k]);
        }
    }
    results_are_in_order(items, fewer, f);
    let k = choose|k: int| 0 <= k < events.len() && is_put_at(#[trigger] events[k], place);
    assert(events[events.len() - 1] == events.last());
    if k < fewer.len() {
        assert(is_put_at(fewer[k], place));
        lemma_slot_is_filled(items, fewer, f, place);
    }
}

/// When a result has been handed back for every place, every slot is filled,
/// and the results are those of mapping the items one by one.
pub proof fn every_slot_is_filled<T, R>(items: Seq<T>, events: Seq<Event<R>>, f: spec_fn(T) -> R)
    requires
        work_is_done_by(items, events, f),
        forall|place: int| 0 <= place < items.len() ==> #[trigger] handed_back(events, place),
    ensures
        pool_after(items, events).is_complete(),
        pool_after(items, events).results == items.map_values(|t: T| Some(f(t))),
{
    results_are_in_order(items, events, f);
    let results = pool_after(items, events).results;
    assert forall|i: int| 0 <= i < results.len() implies #[trigger] results[i] is Some by {
        assert(handed_back(events, i));
        lemma_slot_is_filled(items, events, f, i);
    }
}

/// There are as many workers as are allowed, one where none is, but never more
/// than there are items.
pub proof fn workers_are_as_many_as_allowed(n: nat, jobs: nat)
    ensures
        jobs > 0 && jobs <= n ==> workers(n, jobs) == jobs,
        jobs > 0 && n <= jobs ==> workers(n, jobs) == n,
        jobs == 0 && n > 0 ==> workers(n, jobs) == 1,
        n == 0 ==> workers(n, jobs) == 0,
{
}

/// A fresh pool hands out the first item first; each further one follows when
/// those before it have been taken. Handing a result back changes its own slot
/// alone, and no item.
pub proof fn pool_changes_one_step_at_a_time<T, R>(
    items: Seq<T>,
    pool: PoolView<T, R>,
    place: int,
    result: R,
)
    requires
        0 <= place < pool.results.len(),
    ensures
        ({
            let fresh = PoolView::<T, R>::fresh(items);
            &&& fresh.queue.len() == items.len() && fresh.results.len() == items.len()
            &&& forall|k: int|
                0 <= k < items.len() ==> #[trigger] fresh.queue[k] == (k, items[k])
            &&& forall|k: int| 0 <= k < items.len() ==> #[trigger] fresh.results[k] is None
        }),
        pool.taken().results == pool.results,
        pool.queue.len() > 0 ==> pool.taken().queue == pool.queue.skip(1),
        pool.queue.len() == 0 ==> pool.taken().queue == pool.queue,
        pool.with(place, result).queue == pool.queue,
        pool.with(place, result).results.len() == pool.results.len(),
        pool.with(place, result).results[place] == Some(result),
        forall|k: int|
            0 <= k < pool.results.len() && k != place ==> #[trigger] pool.with(
                place,
                result,
            ).results[k] == pool.results[k],
        pool.is_complete() <==> forall|k: int|
            0 <= k < pool.results.len() ==> #[trigger] pool.results[k] is Some,
{
    if pool.queue.len() > 0 {
        assert(pool.queue.drop_first() =~= pool.queue.skip(1));
    }
}

} // verus!
