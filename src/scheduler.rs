//! One tick of the status line: every slot is polled in registration order,
//! failures fall back to the slot's last good text, and the shown texts are
//! joined into one line.

use vstd::prelude::*;

use crate::collector::BlockError;
use crate::text::{join, join_strings, texts};

verus! {

/// What a collector handed back on one tick.
pub type Produced = Result<Option<String>, BlockError>;

/// The text that sits between two neighbouring slots of the line.
pub open spec fn separator() -> Seq<char> {
    " | "@
}

/// What a slot shows on a tick: fresh text as it came, nothing for an empty
/// result, and after a failure whatever the cache holds for it.
pub open spec fn shown_text(o: Produced, cached: Option<Seq<char>>) -> Option<Seq<char>> {
    match o {
        Ok(Some(t)) => Some(t@),
        Ok(None) => None,
        Err(_) => cached,
    }
}

/// A slot's cache entry after a tick: only fresh text replaces it.
pub open spec fn cached_after(o: Produced, cached: Option<Seq<char>>) -> Option<Seq<char>> {
    match o {
        Ok(Some(t)) => Some(t@),
        _ => cached,
    }
}

/// The texts that the first `outs.len()` slots show, in slot order.
pub open spec fn shown_parts(outs: Seq<Produced>, cache: Seq<Option<Seq<char>>>) -> Seq<Seq<char>>
    decreases outs.len(),
{
    if outs.len() == 0 {
        Seq::empty()
    } else {
        let before = shown_parts(outs.drop_last(), cache);
        match shown_text(outs.last(), cache[outs.len() - 1]) {
            Some(t) => before.push(t),
            None => before,
        }
    }
}

/// The indices of the slots that show something, in slot order.
pub open spec fn shown_slots(outs: Seq<Produced>, cache: Seq<Option<Seq<char>>>) -> Seq<int>
    decreases outs.len(),
{
    if outs.len() == 0 {
        Seq::empty()
    } else {
        let before = shown_slots(outs.drop_last(), cache);
        if shown_text(outs.last(), cache[outs.len() - 1]) is Some {
            before.push(outs.len() - 1)
        } else {
            before
        }
    }
}

/// The joined line of a tick.
pub open spec fn line(outs: Seq<Produced>, cache: Seq<Option<Seq<char>>>) -> Seq<char> {
    join(shown_parts(outs, cache), separator())
}

/// The cache after a tick.
pub open spec fn next_cache(outs: Seq<Produced>, cache: Seq<Option<Seq<char>>>) -> Seq<
    Option<Seq<char>>,
> {
    Seq::new(
        cache.len(),
        |i: int|
            if i < outs.len() {
                cached_after(outs[i], cache[i])
            } else {
                cache[i]
            },
    )
}

/// The text of an optional string.
pub open spec fn opt_text(e: Option<String>) -> Option<Seq<char>> {
    match e {
        Some(t) => Some(t@),
        None => None,
    }
}

/// The last good text of each slot, keyed by the slot's index.
pub struct StaleCache {
    entries: Vec<Option<String>>,
}

impl View for StaleCache {
    type V = Seq<Option<Seq<char>>>;

    closed spec fn view(&self) -> Seq<Option<Seq<char>>> {
        self.entries@.map_values(|e: Option<String>| opt_text(e))
    }
}

impl StaleCache {
    /// A cache for `slots` slots, all empty.
    pub fn new(slots: usize) -> (r: StaleCache)
        ensures
            r@ == Seq::new(slots as nat, |i: int| None::<Seq<char>>),
    {
        let mut entries: Vec<Option<String>> = Vec::new();
        let mut i: usize = 0;
        while i < slots
            invariant
                i <= slots,
                entries@.len() == i,
                forall|j: int| 0 <= j < i ==> entries@[j] is None,
            decreases slots - i,
        {
            entries.push(None);
            i = i + 1;
        }
        let r = StaleCache { entries };
        assert(r@ =~= Seq::new(slots as nat, |i: int| None::<Seq<char>>));
        r
    }

    /// The number of slots.
    pub fn len(&self) -> (r: usize)
        ensures
            r == self@.len(),
    {
        self.entries.len()
    }

    /// The last good text of slot `i`, if it ever had one.
    pub fn get(&self, i: usize) -> (r: Option<String>)
        requires
            i < self@.len(),
        ensures
            opt_text(r) == self@[i as int],
    {
        match &self.entries[i] {
            Some(t) => Some(t.clone()),
            None => None,
        }
    }

    /// Remembers `t` as the last good text of slot `i`.
    pub fn record(&mut self, i: usize, t: String)
        requires
            i < old(self)@.len(),
        ensures
            final(self)@ == old(self)@.update(i as int, Some(t@)),
    {
        self.entries.set(i, Some(t));
        assert(self@ =~= old(self)@.update(i as int, Some(t@)));
    }
}

/// The polling loop's own state: its stale cache.
pub struct Scheduler {
    cache: StaleCache,
}

impl Scheduler {
    /// A scheduler for `slots` registered collectors, none of which has
    /// produced anything yet.
    pub fn new(slots: usize) -> (r: Scheduler)
        ensures
            r.cache_view() == Seq::new(slots as nat, |i: int| None::<Seq<char>>),
    {
        Scheduler { cache: StaleCache::new(slots) }
    }

    /// The stale cache, one entry per registered slot.
    pub closed spec fn cache_view(&self) -> Seq<Option<Seq<char>>> {
        self.cache@
    }

    /// The number of registered slots.
    pub fn slots(&self) -> (r: usize)
        ensures
            r == self.cache_view().len(),
    {
        self.cache.len()
    }

    /// The last good text of slot `i`.
    pub fn cached(&self, i: usize) -> (r: Option<String>)
        requires
            i < self.cache_view().len(),
        ensures
            opt_text(r) == self.cache_view()[i as int],
    {
        self.cache.get(i)
    }

    /// Runs one tick over what each slot's collector produced, in slot
    /// order, and returns the joined line.
    pub fn tick(&mut self, outs: &Vec<Produced>) -> (r: String)
        requires
            outs@.len() == old(self).cache_view().len(),
        ensures
            r@ == line(outs@, old(self).cache_view()),
            final(self).cache_view() == next_cache(outs@, old(self).cache_view()),
    {
        let ghost before = self.cache_view();
        let mut parts: Vec<String> = Vec::new();
        let mut i: usize = 0;
        while i < outs.len()
            invariant
                i <= outs@.len(),
                outs@.len() == before.len(),
                self.cache_view().len() == before.len(),
                texts(parts@) == shown_parts(outs@.take(i as int), before),
                forall|j: int|
                    0 <= j < i ==> self.cache_view()[j] == cached_after(outs@[j], before[j]),
                forall|j: int| i <= j < before.len() ==> self.cache_view()[j] == before[j],
            decreases outs@.len() - i,
        {
            proof {
                assert(outs@.take(i + 1).drop_last() =~= outs@.take(i as int));
            }
            match &outs[i] {
                Ok(Some(t)) => {
                    parts.push(t.clone());
                    self.cache.record(i, t.clone());
                },
                Ok(None) => {},
                Err(_) => {
                    match self.cache.get(i) {
                        Some(t) => parts.push(t),
                        None => {},
                    }
                },
            }
            proof {
                assert(texts(parts@) =~= shown_parts(outs@.take(i + 1), before));
            }
            i = i + 1;
        }
        proof {
            assert(outs@.take(i as int) =~= outs@);
            assert(self.cache_view() =~= next_cache(outs@, before));
        }
        join_strings(&parts, " | ")
    }
}

/// The cache after a run of ticks, the first tick first.
pub open spec fn cache_after_run(runs: Seq<Seq<Produced>>, cache: Seq<Option<Seq<char>>>) -> Seq<
    Option<Seq<char>>,
>
    decreases runs.len(),
{
    if runs.len() == 0 {
        cache
    } else {
        next_cache(runs.last(), cache_after_run(runs.drop_last(), cache))
    }
}

/// Whether `o` is fresh text equal to `x`.
pub open spec fn is_fresh(o: Produced, x: Seq<char>) -> bool {
    match o {
        Ok(Some(t)) => t@ == x,
        _ => false,
    }
}

/// Whether `o` is fresh text of any kind.
pub open spec fn is_any_fresh(o: Produced) -> bool {
    o matches Ok(Some(_))
}

/// The line never reorders slots: the slots that show something form a
/// strictly increasing run of slot indices, each part of the line is the
/// text of its slot, and a slot is among them exactly when it has
/// something to show.
pub proof fn lemma_slot_order_kept(outs: Seq<Produced>, cache: Seq<Option<Seq<char>>>)
    requires
        outs.len() == cache.len(),
    ensures
        shown_slots(outs, cache).len() == shown_parts(outs, cache).len(),
        forall|k: int|
            0 <= k < shown_slots(outs, cache).len() ==> 0 <= #[trigger] shown_slots(outs, cache)[k]
                < outs.len(),
        forall|k1: int, k2: int|
            0 <= k1 < k2 < shown_slots(outs, cache).len() ==> shown_slots(outs, cache)[k1]
                < shown_slots(outs, cache)[k2],
        forall|k: int|
            0 <= k < shown_slots(outs, cache).len() ==> shown_text(
                outs[#[trigger] shown_slots(outs, cache)[k]],
                cache[shown_slots(outs, cache)[k]],
            ) == Some(shown_parts(outs, cache)[k]),
        forall|i: int|
            0 <= i < outs.len() ==> (#[trigger] shown_text(outs[i], cache[i]) is Some
                <==> shown_slots(outs, cache).contains(i)),
{
    lemma_prefix_order(outs, cache, outs.len());
    assert(outs.take(outs.len() as int) =~= outs);
}

proof fn lemma_prefix_order(outs: Seq<Produced>, cache: Seq<Option<Seq<char>>>, n: nat)
    requires
        n <= outs.len() == cache.len(),
    ensures
        ({
            let p = outs.take(n as int);
            let slots = shown_slots(p, cache);
            let parts = shown_parts(p, cache);
            &&& slots.len() == parts.len()
            &&& forall|k: int| 0 <= k < slots.len() ==> 0 <= #[trigger] slots[k] < n
            &&& forall|k1: int, k2: int| 0 <= k1 < k2 < slots.len() ==> slots[k1] < slots[k2]
            &&& forall|k: int|
                0 <= k < slots.len() ==> shown_text(outs[#[trigger] slots[k]], cache[slots[k]])
                    == Some(parts[k])
            &&& forall|i: int|
                0 <= i < n ==> (#[trigger] shown_text(outs[i], cache[i]) is Some
                    <==> slots.contains(i))
        }),
    decreases n,
{
    let p = outs.take(n as int);
    if n > 0 {
        lemma_prefix_order(outs, cache, (n - 1) as nat);
        assert(p.drop_last() =~= outs.take(n - 1));
        let slots0 = shown_slots(outs.take(n - 1), cache);
        let slots = shown_slots(p, cache);
        if shown_text(outs[n - 1], cache[n - 1]) is Some {
            assert(slots == slots0.push(n - 1));
            assert forall|i: int| 0 <= i < n implies (#[trigger] shown_text(outs[i], cache[i]) is Some
                <==> slots.contains(i)) by {
                if i < n - 1 {
                    if slots.contains(i) {
                        let k = choose|k: int| 0 <= k < slots.len() && slots[k] == i;
                        assert(k < slots0.len());
                        assert(slots0.contains(i));
                    }
                    if slots0.contains(i) {
                        let k = choose|k: int| 0 <= k < slots0.len() && slots0[k] == i;
                        assert(slots[k] == i);
                    }
                } else {
                    assert(slots[slots.len() - 1] == i);
                }
            }
        } else {
            assert(slots == slots0);
            assert forall|i: int| 0 <= i < n implies (#[trigger] shown_text(outs[i], cache[i]) is Some
                <==> slots.contains(i)) by {
                if i == n - 1 && slots.contains(i) {
                    let k = choose|k: int| 0 <= k < slots.len() && slots[k] == i;
                }
            }
        }
    }
}

/// Fresh text is remembered for its slot and stays remembered through
/// every later tick that brings no fresh text for that slot; on each of
/// those ticks on which the slot's collector fails, the slot shows it.
pub proof fn lemma_fresh_text_survives_failures(
    first: Seq<Produced>,
    later: Seq<Seq<Produced>>,
    cache: Seq<Option<Seq<char>>>,
    i: int,
    x: Seq<char>,
)
    requires
        first.len() == cache.len(),
        forall|k: int| 0 <= k < later.len() ==> (#[trigger] later[k]).len() == cache.len(),
        0 <= i < cache.len(),
        is_fresh(first[i], x),
        forall|k: int| 0 <= k < later.len() ==> !is_any_fresh((#[trigger] later[k])[i]),
    ensures
        next_cache(first, cache)[i] == Some(x),
        forall|k: int|
            0 <= k < later.len() ==> cache_after_run(later.take(k), next_cache(first, cache))[i]
                == Some(x),
        forall|k: int|
            0 <= k < later.len() && (#[trigger] later[k][i]) is Err ==> shown_text(
                later[k][i],
                cache_after_run(later.take(k), next_cache(first, cache))[i],
            ) == Some(x),
        cache_after_run(later, next_cache(first, cache))[i] == Some(x),
{
    let c1 = next_cache(first, cache);
    lemma_failures_keep_entry(later, c1, i);
    assert forall|k: int| 0 <= k < later.len() implies cache_after_run(later.take(k), c1)[i]
        == Some(x) by {
        lemma_failures_keep_entry(later.take(k), c1, i);
    }
}

proof fn lemma_failures_keep_entry(runs: Seq<Seq<Produced>>, cache: Seq<Option<Seq<char>>>, i: int)
    requires
        forall|k: int| 0 <= k < runs.len() ==> (#[trigger] runs[k]).len() == cache.len(),
        0 <= i < cache.len(),
        forall|k: int| 0 <= k < runs.len() ==> !is_any_fresh((#[trigger] runs[k])[i]),
    ensures
        cache_after_run(runs, cache).len() == cache.len(),
        cache_after_run(runs, cache)[i] == cache[i],
    decreases runs.len(),
{
    if runs.len() > 0 {
        let r0 = runs.drop_last();
        assert forall|k: int| 0 <= k < r0.len() implies (#[trigger] r0[k]).len() == cache.len() by {
            assert(r0[k] == runs[k]);
        }
        assert forall|k: int| 0 <= k < r0.len() implies !is_any_fresh((#[trigger] r0[k])[i]) by {
            assert(r0[k] == runs[k]);
        }
        lemma_failures_keep_entry(r0, cache, i);
        assert(!is_any_fresh(runs[runs.len() - 1][i]));
    }
}

/// An empty result hides its slot on that tick without forgetting the
/// slot's last good text: a failure on the next tick shows that text again.
pub proof fn lemma_empty_keeps_fallback(
    prev: Seq<Produced>,
    empty: Seq<Produced>,
    failed: Seq<Produced>,
    cache: Seq<Option<Seq<char>>>,
    i: int,
    x: Seq<char>,
)
    requires
        prev.len() == cache.len(),
        empty.len() == cache.len(),
        failed.len() == cache.len(),
        0 <= i < cache.len(),
        is_fresh(prev[i], x),
        empty[i] matches Ok(None),
        failed[i] is Err,
    ensures
        shown_text(empty[i], next_cache(prev, cache)[i]) is None,
        !shown_slots(empty, next_cache(prev, cache)).contains(i),
        next_cache(empty, next_cache(prev, cache))[i] == Some(x),
        shown_text(failed[i], next_cache(empty, next_cache(prev, cache))[i]) == Some(x),
        shown_slots(failed, next_cache(empty, next_cache(prev, cache))).contains(i),
{
    let c1 = next_cache(prev, cache);
    let c2 = next_cache(empty, c1);
    lemma_slot_order_kept(empty, c1);
    lemma_slot_order_kept(failed, c2);
}

/// A slot whose collector has never produced fresh text since the cache
/// was empty shows nothing when it fails: no placeholder takes its place.
pub proof fn lemma_failure_without_history_shows_nothing(
    runs: Seq<Seq<Produced>>,
    outs: Seq<Produced>,
    slots: nat,
    i: int,
)
    requires
        forall|k: int| 0 <= k < runs.len() ==> (#[trigger] runs[k]).len() == slots,
        outs.len() == slots,
        0 <= i < slots,
        forall|k: int| 0 <= k < runs.len() ==> !is_any_fresh((#[trigger] runs[k])[i]),
        outs[i] is Err,
    ensures
        shown_text(outs[i], cache_after_run(runs, Seq::new(slots, |j: int| None::<Seq<char>>))[i])
            is None,
        !shown_slots(outs, cache_after_run(runs, Seq::new(slots, |j: int| None::<Seq<char>>))).contains(
            i,
        ),
{
    let empty = Seq::new(slots, |j: int| None::<Seq<char>>);
    lemma_failures_keep_entry(runs, empty, i);
    lemma_slot_order_kept(outs, cache_after_run(runs, empty));
}

} // verus!
