//! The completion candidate cache.
//!
//! A completion request fills the cache with the matches for the word being
//! typed; the editor then asks for entry 0, 1, 2, ... until it is told that
//! there is no further one. The backing buffer is kept between requests and
//! only ever grows.
//!
//! The cache holds text and hands out copies of it, so that an entry read
//! twice is the same entry and nothing is freed twice. The NUL-terminated
//! form in which the editor reads an entry is made where the entry leaves
//! the binding: see [`crate::cstring`].

use vstd::prelude::*;

verus! {

/// What a cache holds, as mathematics: the candidates of the request in
/// flight, in order, and the number of slots of the backing buffer.
pub struct CacheView {
    pub entries: Seq<Seq<char>>,
    pub capacity: nat,
}

impl CacheView {
    /// No more candidates than slots.
    pub open spec fn wf(self) -> bool {
        self.entries.len() <= self.capacity
    }

    /// No request is in flight.
    pub open spec fn idle(self) -> bool {
        self.entries.len() == 0
    }

    /// The cache after its candidates are dropped: the buffer stays.
    pub open spec fn cleared(self) -> CacheView {
        CacheView { entries: Seq::empty(), capacity: self.capacity }
    }

    /// The cache after a request has filled it with `candidates`: the buffer
    /// grows to their number where it was smaller, and never shrinks.
    pub open spec fn populate(self, candidates: Seq<Seq<char>>) -> CacheView {
        CacheView {
            entries: candidates,
            capacity: if candidates.len() > self.capacity {
                candidates.len()
            } else {
                self.capacity
            },
        }
    }

    /// The candidate at `index`, if the request in flight has one there.
    pub open spec fn entry(self, index: int) -> Option<Seq<char>> {
        if 0 <= index < self.entries.len() {
            Some(self.entries[index])
        } else {
            None
        }
    }

    /// The cache after `index` was asked for: unchanged where a candidate was
    /// handed out, cleared where the index ran past the last one.
    pub open spec fn after_read(self, index: int) -> CacheView {
        if 0 <= index < self.entries.len() {
            self
        } else {
            self.cleared()
        }
    }

    /// The cache after indices `0, 1, ..., count - 1` were asked for in turn.
    pub open spec fn after_reads(self, count: nat) -> CacheView
        decreases count,
    {
        if count == 0 {
            self
        } else {
            self.after_reads((count - 1) as nat).after_read(count - 1)
        }
    }

    /// What asking for indices `0, 1, ..., count - 1` in turn hands out, each
    /// read made on the cache as the read before left it.
    pub open spec fn reads(self, count: nat) -> Seq<Option<Seq<char>>>
        decreases count,
    {
        if count == 0 {
            Seq::empty()
        } else {
            self.reads((count - 1) as nat).push(
                self.after_reads((count - 1) as nat).entry(count - 1),
            )
        }
    }

    /// The cache after each of `requests` has filled it, one after the other.
    pub open spec fn after_requests(self, requests: Seq<Seq<Seq<char>>>) -> CacheView
        decreases requests.len(),
    {
        if requests.len() == 0 {
            self
        } else {
            self.after_requests(requests.drop_last()).populate(requests.last())
        }
    }
}

/// A growable buffer of owned strings, of which the first `length` are the
/// candidates of the request in flight. Slots from `length` on are stale.
pub struct CandidateCache {
    slots: Vec<String>,
    length: usize,
}

impl View for CandidateCache {
    type V = CacheView;

    closed spec fn view(&self) -> CacheView {
        CacheView {
            entries: Seq::new(self.length as nat, |i: int| self.slots@[i]@),
            capacity: self.slots@.len(),
        }
    }
}

impl CandidateCache {
    /// The populated slots lie inside the buffer.
    #[verifier::type_invariant]
    spec fn inv(self) -> bool {
        self.length <= self.slots@.len()
    }

    /// A cache with no buffer and no request in flight.
    pub fn new() -> (cache: Self)
        ensures
            cache@.entries == Seq::<Seq<char>>::empty(),
            cache@.capacity == 0,
    {
        CandidateCache { slots: Vec::new(), length: 0 }
    }

    /// Both counts of a cache's view are machine sizes.
    pub proof fn lemma_view_fits(&self)
        ensures
            self@.entries.len() <= usize::MAX,
            self@.capacity <= usize::MAX,
    {
        assert(self.slots@.len() == self.slots.len());
    }

    /// The number of candidates of the request in flight.
    pub fn len(&self) -> (n: usize)
        ensures
            n == self@.entries.len(),
    {
        self.length
    }

    /// The number of slots of the backing buffer.
    pub fn capacity(&self) -> (n: usize)
        ensures
            n == self@.capacity,
            self@.wf(),
    {
        proof {
            use_type_invariant(self);
        }
        self.slots.len()
    }
}

/// Drops the candidates of the request in flight. The strings stay where they
/// are, as stale slots, and the buffer keeps its size.
fn clear_compentries(cache: &mut CandidateCache)
    ensures
        final(cache)@ == old(cache)@.cleared(),
        final(cache).slots == old(cache).slots,
        final(cache).length == 0,
{
    cache.length = 0;
    assert(cache@.entries =~= Seq::<Seq<char>>::empty());
}

/// Makes room for `n` candidates in a cleared cache and counts the first `n`
/// slots as populated. The buffer grows to exactly `n` slots where it had
/// fewer; the slots it already had keep what they held.
fn alloc_compentries(cache: &mut CandidateCache, n: usize)
    requires
        old(cache).length == 0,
    ensures
        final(cache).length == n,
        final(cache).slots@.len() == if n > old(cache).slots@.len() {
            n as nat
        } else {
            old(cache).slots@.len()
        },
        forall|i: int|
            0 <= i < old(cache).slots@.len() ==> final(cache).slots@[i] == old(cache).slots@[i],
        forall|i: int|
            old(cache).slots@.len() <= i < n ==> final(cache).slots@[i]@ == Seq::<char>::empty(),
{
    let mut slots: Vec<String> = Vec::new();
    core::mem::swap(&mut cache.slots, &mut slots);
    while slots.len() < n
        invariant
            old(cache).slots@.len() <= slots@.len(),
            slots@.len() <= n || slots@.len() == old(cache).slots@.len(),
            forall|i: int| 0 <= i < old(cache).slots@.len() ==> slots@[i] == old(cache).slots@[i],
            forall|i: int|
                old(cache).slots@.len() <= i < slots@.len() ==> slots@[i]@ == Seq::<char>::empty(),
        decreases n - slots@.len(),
    {
        slots.push(String::new());
    }
    core::mem::swap(&mut cache.slots, &mut slots);
    cache.length = n;
}

/// Starts a completion request: the cache then holds a copy of each of
/// `entries`, in order, and nothing else.
pub fn set_compentries(cache: &mut CandidateCache, entries: Vec<String>)
    ensures
        final(cache)@ == old(cache)@.populate(entries.deep_view()),
        final(cache)@.wf(),
{
    clear_compentries(cache);
    alloc_compentries(cache, entries.len());
    let ghost capacity = cache.slots@.len();
    for i in 0..entries.len()
        invariant
            cache.length == entries@.len(),
            cache.slots@.len() == capacity,
            capacity >= entries@.len(),
            forall|j: int| 0 <= j < i ==> cache.slots@[j]@ == entries@[j]@,
    {
        cache.slots[i] = entries[i].clone();
    }
    assert(cache@.entries =~= entries.deep_view());
}

/// Hands out a copy of candidate `i` of the request in flight. An index past
/// the last candidate ends the request: the cache is cleared and there is no
/// value.
pub fn get_compentry(cache: &mut CandidateCache, i: usize) -> (entry: Option<String>)
    ensures
        entry.deep_view() == old(cache)@.entry(i as int),
        final(cache)@ == old(cache)@.after_read(i as int),
        final(cache)@.wf(),
{
    proof {
        use_type_invariant(&*cache);
    }
    if i >= cache.length {
        clear_compentries(cache);
        None
    } else {
        Some(cache.slots[i].clone())
    }
}

/// Reading a freshly filled cache index by index, from 0, leaves it as it is
/// and hands out the first `count` candidates in order.
proof fn lemma_reads_prefix(cache: CacheView, candidates: Seq<Seq<char>>, count: nat)
    requires
        count <= candidates.len(),
    ensures
        cache.populate(candidates).after_reads(count) == cache.populate(candidates),
        cache.populate(candidates).reads(count) == candidates.take(count as int).map_values(
            |c: Seq<char>| Some(c),
        ),
    decreases count,
{
    let filled = cache.populate(candidates);
    let wrap = |c: Seq<char>| Some(c);
    if count == 0 {
        assert(filled.reads(0) =~= candidates.take(0).map_values(wrap));
    } else {
        let before = (count - 1) as nat;
        lemma_reads_prefix(cache, candidates, before);
        assert(filled.entry(before as int) == Some(candidates[before as int]));
        assert(filled.reads(count) =~= candidates.take(count as int).map_values(wrap));
    }
}

/// A request's candidates come back exactly and in order: after the cache is
/// filled with `candidates`, asking for index 0, 1, ... up to their number
/// hands out each candidate in turn and then no value, and leaves no request
/// in flight.
pub proof fn lemma_drain_returns_candidates(cache: CacheView, candidates: Seq<Seq<char>>)
    ensures
        cache.populate(candidates).reads(candidates.len() + 1) == candidates.map_values(
            |c: Seq<char>| Some(c),
        ).push(None),
        cache.populate(candidates).after_reads(candidates.len() + 1).idle(),
        forall|i: int|
            0 <= i < candidates.len() ==> #[trigger] cache.populate(candidates).entry(i) == Some(
                candidates[i],
            ),
        cache.populate(candidates).entry(candidates.len() as int) is None,
{
    let filled = cache.populate(candidates);
    lemma_reads_prefix(cache, candidates, candidates.len());
    assert(candidates.take(candidates.len() as int) =~= candidates);
    assert(filled.after_reads(candidates.len() + 1) == filled.after_read(candidates.len() as int));
}

/// Once a read has found no value, no request is in flight: the next read of
/// index 0, and of any other index, finds no value either.
pub proof fn lemma_exhausted_stays_idle(cache: CacheView, index: int)
    requires
        cache.entry(index) is None,
    ensures
        cache.after_read(index).idle(),
        cache.after_read(index).entry(0) is None,
        forall|j: int| #[trigger] cache.after_read(index).entry(j) is None,
{
}

/// A shorter request hides what a longer one left behind: the buffer keeps
/// the size the longer one gave it, and every index from the new number of
/// candidates on has no value.
pub proof fn lemma_shorter_request_hides_stale(
    cache: CacheView,
    longer: Seq<Seq<char>>,
    shorter: Seq<Seq<char>>,
)
    requires
        shorter.len() < longer.len(),
    ensures
        cache.populate(longer).populate(shorter).entries == shorter,
        cache.populate(longer).populate(shorter).capacity >= longer.len(),
        cache.populate(longer).populate(shorter).entry(shorter.len() as int) is None,
        forall|i: int|
            i >= shorter.len() ==> #[trigger] cache.populate(longer).populate(shorter).entry(i)
                is None,
{
}

/// A request without candidates leaves nothing to read.
pub proof fn lemma_empty_request_has_no_entry(cache: CacheView)
    ensures
        cache.populate(Seq::empty()).idle(),
        cache.populate(Seq::empty()).entry(0) is None,
{
}

/// Requests of growing size keep every populated slot inside the buffer: after
/// each of them the buffer has exactly as many slots as the largest request so
/// far needed, or as it had before the first, whichever is more.
pub proof fn lemma_growth_stays_in_bounds(cache: CacheView, requests: Seq<Seq<Seq<char>>>)
    requires
        cache.wf(),
        forall|i: int, j: int|
            0 <= i <= j < requests.len() ==> requests[i].len() <= requests[j].len(),
    ensures
        cache.after_requests(requests).wf(),
        cache.after_requests(requests).capacity >= cache.capacity,
        requests.len() > 0 ==> cache.after_requests(requests).entries == requests.last(),
        requests.len() > 0 ==> cache.after_requests(requests).capacity == if requests.last().len()
            > cache.capacity {
            requests.last().len()
        } else {
            cache.capacity
        },
    decreases requests.len(),
{
    if requests.len() > 0 {
        let earlier = requests.drop_last();
        lemma_growth_stays_in_bounds(cache, earlier);
        if earlier.len() > 0 {
            assert(earlier.last() == requests[requests.len() - 2]);
        }
    }
}

} // verus!
