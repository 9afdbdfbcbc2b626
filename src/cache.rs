//! A bounded image cache that decodes each key at most once.
//!
//! Decoding runs outside the cache: a caller first claims a key (a pending
//! slot is recorded), decodes without holding the cache, then completes the
//! claim with the decoded value. Whoever finds a pending slot waits instead of
//! decoding again. Entries are kept from least to most recently used, and a
//! ready entry is evicted, oldest first, when room is needed.
use vstd::prelude::*;

verus! {

/// Identity of a file's decoded image: its path and a modification marker,
/// so that a changed file is not served from a stale entry.
#[derive(Debug)]
pub struct CacheKey {
    pub path: String,
    pub modified: u64,
}

pub type KeyView = (Seq<char>, u64);

impl View for CacheKey {
    type V = KeyView;

    open spec fn view(&self) -> KeyView {
        (self.path@, self.modified)
    }
}

impl CacheKey {
    /// A key that equals this one.
    pub fn duplicate(&self) -> (r: CacheKey)
        ensures
            r@ == self@,
    {
        CacheKey { path: self.path.clone(), modified: self.modified }
    }
}

/// The state of one cached key.
pub enum Slot<V> {
    /// A decode has been claimed and not yet completed.
    Pending,
    /// The decoded image.
    Ready(V),
}

pub struct CacheEntry<V> {
    pub key: CacheKey,
    pub slot: Slot<V>,
}

/// What a synchronous load has to do.
#[derive(Clone, Copy, PartialEq, Eq, Structural, Debug)]
pub enum LoadStep {
    /// The image is cached: read it with `get`.
    Hit,
    /// The caller holds the claim: decode, then `complete`.
    Decode,
    /// Another caller is decoding this key: wait for its `complete`.
    Wait,
    /// No room for a claim, every entry being pending: decode without caching.
    Uncached,
}

pub open spec fn index_of<V>(s: Seq<(KeyView, Slot<V>)>, k: KeyView) -> int {
    if exists|i: int| 0 <= i < s.len() && s[i].0 == k {
        choose|i: int| 0 <= i < s.len() && s[i].0 == k
    } else {
        -1
    }
}

pub open spec fn lookup<V>(s: Seq<(KeyView, Slot<V>)>, k: KeyView) -> Option<Slot<V>> {
    if index_of(s, k) >= 0 {
        Some(s[index_of(s, k)].1)
    } else {
        None
    }
}

pub open spec fn is_first_ready<V>(s: Seq<(KeyView, Slot<V>)>, i: int) -> bool {
    &&& 0 <= i < s.len()
    &&& s[i].1 is Ready
    &&& forall|j: int| 0 <= j < i ==> !(#[trigger] s[j].1 is Ready)
}

/// Index of the least recently used ready entry, or -1 if there is none.
pub open spec fn first_ready<V>(s: Seq<(KeyView, Slot<V>)>) -> int {
    if exists|i: int| is_first_ready(s, i) {
        choose|i: int| is_first_ready(s, i)
    } else {
        -1
    }
}

pub open spec fn keys_unique<V>(s: Seq<(KeyView, Slot<V>)>) -> bool {
    forall|i: int, j: int|
        #![trigger s[i], s[j]]
        0 <= i < s.len() && 0 <= j < s.len() && s[i].0 == s[j].0 ==> i == j
}

pub open spec fn cache_wf<V>(s: Seq<(KeyView, Slot<V>)>, capacity: nat) -> bool {
    &&& keys_unique(s)
    &&& s.len() <= capacity
    &&& capacity > 0
}

/// Makes room if needed and stores `slot` under `k` as the most recent entry.
pub open spec fn place<V>(s: Seq<(KeyView, Slot<V>)>, k: KeyView, slot: Slot<V>, capacity: nat) -> Option<
    Seq<(KeyView, Slot<V>)>,
> {
    if s.len() < capacity {
        Some(s.push((k, slot)))
    } else if first_ready(s) >= 0 {
        Some(s.remove(first_ready(s)).push((k, slot)))
    } else {
        None
    }
}

/// A synchronous load of `k`: what the caller does next, and the new entries.
pub open spec fn load_step<V>(s: Seq<(KeyView, Slot<V>)>, k: KeyView, capacity: nat) -> (
    LoadStep,
    Seq<(KeyView, Slot<V>)>,
) {
    let i = index_of(s, k);
    if i >= 0 {
        if s[i].1 is Ready {
            (LoadStep::Hit, s.remove(i).push(s[i]))
        } else {
            (LoadStep::Wait, s)
        }
    } else {
        match place(s, k, Slot::Pending, capacity) {
            Some(t) => (LoadStep::Decode, t),
            None => (LoadStep::Uncached, s),
        }
    }
}

/// A prefetch of `k`: whether the caller must schedule a decode, and the new entries.
pub open spec fn prefetch_step<V>(s: Seq<(KeyView, Slot<V>)>, k: KeyView, capacity: nat) -> (
    bool,
    Seq<(KeyView, Slot<V>)>,
) {
    if index_of(s, k) >= 0 {
        (false, s)
    } else {
        match place(s, k, Slot::Pending, capacity) {
            Some(t) => (true, t),
            None => (false, s),
        }
    }
}

/// Stores the decoded `v` under `k`, in place of its claim when there is one.
pub open spec fn complete_step<V>(
    s: Seq<(KeyView, Slot<V>)>,
    k: KeyView,
    v: V,
    capacity: nat,
) -> Seq<(KeyView, Slot<V>)> {
    let i = index_of(s, k);
    if i >= 0 {
        s.update(i, (k, Slot::Ready(v)))
    } else {
        match place(s, k, Slot::Ready(v), capacity) {
            Some(t) => t,
            None => s,
        }
    }
}

proof fn lemma_index_of<V>(s: Seq<(KeyView, Slot<V>)>, k: KeyView, i: int)
    requires
        keys_unique(s),
        0 <= i < s.len(),
        s[i].0 == k,
    ensures
        index_of(s, k) == i,
{
    assert(exists|j: int| 0 <= j < s.len() && s[j].0 == k);
    let c = index_of(s, k);
    assert(0 <= c < s.len() && s[c].0 == k);
}

proof fn lemma_absent<V>(s: Seq<(KeyView, Slot<V>)>, k: KeyView)
    requires
        index_of(s, k) < 0,
    ensures
        forall|j: int| 0 <= j < s.len() ==> #[trigger] s[j].0 != k,
{
    if exists|j: int| 0 <= j < s.len() && s[j].0 == k {
        let c = index_of(s, k);
        assert(0 <= c);
    }
}

proof fn lemma_present<V>(s: Seq<(KeyView, Slot<V>)>, k: KeyView)
    requires
        index_of(s, k) >= 0,
    ensures
        index_of(s, k) < s.len(),
        s[index_of(s, k)].0 == k,
{
}

proof fn lemma_push_unique<V>(s: Seq<(KeyView, Slot<V>)>, k: KeyView, slot: Slot<V>)
    requires
        keys_unique(s),
        forall|j: int| 0 <= j < s.len() ==> #[trigger] s[j].0 != k,
    ensures
        keys_unique(s.push((k, slot))),
{
    let t = s.push((k, slot));
    assert forall|i: int, j: int|
        0 <= i < t.len() && 0 <= j < t.len() && t[i].0 == t[j].0 implies i == j by {
        if i < s.len() && j < s.len() {
            assert(t[i] == s[i] && t[j] == s[j]);
        } else if i < s.len() {
            assert(t[i] == s[i]);
        } else if j < s.len() {
            assert(t[j] == s[j]);
        }
    }
}

proof fn lemma_remove_unique<V>(s: Seq<(KeyView, Slot<V>)>, r: int, k: KeyView)
    requires
        keys_unique(s),
        0 <= r < s.len(),
        forall|j: int| 0 <= j < s.len() ==> #[trigger] s[j].0 != k,
    ensures
        keys_unique(s.remove(r)),
        forall|j: int| 0 <= j < s.remove(r).len() ==> #[trigger] s.remove(r)[j].0 != k,
{
    let t = s.remove(r);
    assert forall|i: int, j: int|
        0 <= i < t.len() && 0 <= j < t.len() && t[i].0 == t[j].0 implies i == j by {
        let a = if i < r { i } else { i + 1 };
        let b = if j < r { j } else { j + 1 };
        assert(t[i] == s[a] && t[j] == s[b]);
    }
    assert forall|j: int| 0 <= j < t.len() implies #[trigger] t[j].0 != k by {
        let b = if j < r { j } else { j + 1 };
        assert(t[j] == s[b]);
    }
}

/// What placing under an absent key gives: a well-formed cache whose newest
/// entry is the new one.
proof fn lemma_place<V>(s: Seq<(KeyView, Slot<V>)>, k: KeyView, slot: Slot<V>, capacity: nat)
    requires
        cache_wf(s, capacity),
        index_of(s, k) < 0,
    ensures
        place(s, k, slot, capacity) is Some ==> {
            let t = place(s, k, slot, capacity)->Some_0;
            &&& cache_wf(t, capacity)
            &&& t.len() > 0
            &&& t[t.len() - 1] == (k, slot)
            &&& index_of(t, k) == t.len() - 1
        },
        place(s, k, slot, capacity) is None ==> s.len() == capacity && first_ready(s) < 0,
{
    lemma_absent(s, k);
    if s.len() < capacity {
        lemma_push_unique(s, k, slot);
        let t = s.push((k, slot));
        lemma_index_of(t, k, t.len() - 1);
    } else if first_ready(s) >= 0 {
        let r = first_ready(s);
        assert(is_first_ready(s, r));
        lemma_remove_unique(s, r, k);
        lemma_push_unique(s.remove(r), k, slot);
        let t = s.remove(r).push((k, slot));
        lemma_index_of(t, k, t.len() - 1);
    }
}

proof fn lemma_move_to_back_unique<V>(s: Seq<(KeyView, Slot<V>)>, i: int)
    requires
        keys_unique(s),
        0 <= i < s.len(),
    ensures
        keys_unique(s.remove(i).push(s[i])),
{
    let k = s[i].0;
    assert forall|j: int| 0 <= j < s.remove(i).len() implies #[trigger] s.remove(i)[j].0 != k by {
        let b = if j < i { j } else { j + 1 };
        assert(s.remove(i)[j] == s[b]);
    }
    let t = s.remove(i);
    assert forall|a: int, b: int|
        0 <= a < t.len() && 0 <= b < t.len() && t[a].0 == t[b].0 implies a == b by {
        let x = if a < i { a } else { a + 1 };
        let y = if b < i { b } else { b + 1 };
        assert(t[a] == s[x] && t[b] == s[y]);
    }
    lemma_push_unique(t, k, s[i].1);
}

/// Every step keeps the entries' keys distinct and their number within capacity.
pub proof fn lemma_steps_keep_wf<V>(s: Seq<(KeyView, Slot<V>)>, k: KeyView, v: V, capacity: nat)
    requires
        cache_wf(s, capacity),
    ensures
        cache_wf(load_step(s, k, capacity).1, capacity),
        cache_wf(prefetch_step(s, k, capacity).1, capacity),
        cache_wf(complete_step(s, k, v, capacity), capacity),
{
    if index_of(s, k) >= 0 {
        let i = index_of(s, k);
        lemma_present(s, k);
        lemma_move_to_back_unique(s, i);
        let t = s.update(i, (k, Slot::Ready(v)));
        assert forall|a: int, b: int|
            0 <= a < t.len() && 0 <= b < t.len() && t[a].0 == t[b].0 implies a == b by {
            assert(t[a].0 == s[a].0 && t[b].0 == s[b].0);
        }
    } else {
        lemma_place(s, k, Slot::Pending, capacity);
        lemma_place(s, k, Slot::Ready(v), capacity);
    }
}

/// Loading a key and, once any decode it asked for is complete, loading it
/// again finds it cached: the two loads cost at most one decode. Excluded is a
/// cache so full of pending claims that the first load could not claim a slot.
pub proof fn lemma_load_twice_decodes_once<V>(
    s: Seq<(KeyView, Slot<V>)>,
    k: KeyView,
    v: V,
    capacity: nat,
)
    requires
        cache_wf(s, capacity),
        load_step(s, k, capacity).0 == LoadStep::Hit || load_step(s, k, capacity).0
            == LoadStep::Decode,
    ensures
        ({
            let s1 = load_step(s, k, capacity).1;
            let s2 = if load_step(s, k, capacity).0 == LoadStep::Decode {
                complete_step(s1, k, v, capacity)
            } else {
                s1
            };
            load_step(s2, k, capacity).0 == LoadStep::Hit
        }),
{
    lemma_steps_keep_wf(s, k, v, capacity);
    let s1 = load_step(s, k, capacity).1;
    if load_step(s, k, capacity).0 == LoadStep::Decode {
        lemma_place(s, k, Slot::Pending, capacity);
        let i = index_of(s1, k);
        let s2 = complete_step(s1, k, v, capacity);
        assert(s2 == s1.update(i, (k, Slot::Ready(v))));
        lemma_steps_keep_wf(s1, k, v, capacity);
        lemma_index_of(s2, k, i);
    } else {
        let i = index_of(s, k);
        lemma_present(s, k);
        lemma_move_to_back_unique(s, i);
        lemma_index_of(s1, k, s1.len() - 1);
    }
}

/// `n` prefetches of one key in a row.
pub open spec fn prefetch_repeat<V>(s: Seq<(KeyView, Slot<V>)>, k: KeyView, capacity: nat, n: nat) -> (
    nat,
    Seq<(KeyView, Slot<V>)>,
)
    decreases n,
{
    if n == 0 {
        (0, s)
    } else {
        let prev = prefetch_repeat(s, k, capacity, (n - 1) as nat);
        let step = prefetch_step(prev.1, k, capacity);
        (if step.0 {
            prev.0 + 1
        } else {
            prev.0
        }, step.1)
    }
}

/// However many callers prefetch the same key, at most one of them is told to
/// decode, exactly one when the first could claim it; and once that decode is
/// complete, every caller finds the same cached image.
pub proof fn lemma_prefetch_decodes_once<V>(
    s: Seq<(KeyView, Slot<V>)>,
    k: KeyView,
    v: V,
    capacity: nat,
    n: nat,
)
    requires
        cache_wf(s, capacity),
        n > 0,
    ensures
        prefetch_repeat(s, k, capacity, n).0 == (if prefetch_step(s, k, capacity).0 {
            1nat
        } else {
            0nat
        }),
        cache_wf(prefetch_repeat(s, k, capacity, n).1, capacity),
        prefetch_step(s, k, capacity).0 ==> lookup(
            complete_step(prefetch_repeat(s, k, capacity, n).1, k, v, capacity),
            k,
        ) == Some(Slot::Ready(v)),
    decreases n,
{
    lemma_steps_keep_wf(s, k, v, capacity);
    if n == 1 {
        assert(prefetch_repeat(s, k, capacity, 0) == (0nat, s));
    } else {
        lemma_prefetch_decodes_once(s, k, v, capacity, (n - 1) as nat);
    }
    let prev = prefetch_repeat(s, k, capacity, (n - 1) as nat);
    let t = prefetch_repeat(s, k, capacity, n).1;
    if n > 1 {
        lemma_steps_keep_wf(prev.1, k, v, capacity);
        if prefetch_step(s, k, capacity).0 {
            lemma_place(s, k, Slot::Pending, capacity);
            lemma_prefetch_present(s, k, capacity, (n - 1) as nat);
        } else if index_of(s, k) >= 0 {
            lemma_prefetch_present(s, k, capacity, (n - 1) as nat);
        } else {
            lemma_prefetch_unplaced(s, k, capacity, (n - 1) as nat);
        }
    }
    if prefetch_step(s, k, capacity).0 {
        lemma_place(s, k, Slot::Pending, capacity);
        lemma_prefetch_present(s, k, capacity, n);
        lemma_steps_keep_wf(t, k, v, capacity);
        let i = index_of(t, k);
        lemma_present(t, k);
        let u = complete_step(t, k, v, capacity);
        lemma_index_of(u, k, i);
    }
}

/// Once a key is present, further prefetches of it change nothing.
proof fn lemma_prefetch_present<V>(s: Seq<(KeyView, Slot<V>)>, k: KeyView, capacity: nat, n: nat)
    requires
        cache_wf(s, capacity),
        index_of(prefetch_step(s, k, capacity).1, k) >= 0,
        n > 0,
    ensures
        prefetch_repeat(s, k, capacity, n).1 == prefetch_step(s, k, capacity).1,
    decreases n,
{
    if n > 1 {
        lemma_prefetch_present(s, k, capacity, (n - 1) as nat);
    } else {
        assert(prefetch_repeat(s, k, capacity, 0) == (0nat, s));
    }
}

/// A prefetch that could not claim a slot leaves the cache as it was, and so
/// does every one that follows it.
proof fn lemma_prefetch_unplaced<V>(s: Seq<(KeyView, Slot<V>)>, k: KeyView, capacity: nat, n: nat)
    requires
        cache_wf(s, capacity),
        index_of(s, k) < 0,
        !prefetch_step(s, k, capacity).0,
    ensures
        prefetch_repeat(s, k, capacity, n) == (0nat, s),
    decreases n,
{
    if n > 0 {
        lemma_prefetch_unplaced(s, k, capacity, (n - 1) as nat);
    }
}

/// A call made on the cache, for reasoning about sequences of calls.
pub ghost enum CacheOp<V> {
    Load(KeyView),
    Prefetch(KeyView),
    Complete(KeyView, V),
    Invalidate,
}

/// The entries after applying `ops` in order to `s`.
pub open spec fn run_cache_ops<V>(s: Seq<(KeyView, Slot<V>)>, capacity: nat, ops: Seq<CacheOp<V>>) -> Seq<
    (KeyView, Slot<V>),
>
    decreases ops.len(),
{
    if ops.len() == 0 {
        s
    } else {
        let prev = run_cache_ops(s, capacity, ops.drop_last());
        match ops.last() {
            CacheOp::Load(k) => load_step(prev, k, capacity).1,
            CacheOp::Prefetch(k) => prefetch_step(prev, k, capacity).1,
            CacheOp::Complete(k, v) => complete_step(prev, k, v, capacity),
            CacheOp::Invalidate => Seq::empty(),
        }
    }
}

/// After any sequence of loads, prefetches, completions and invalidations the
/// cache holds at most its capacity, each key at most once.
pub proof fn lemma_capacity_never_exceeded<V>(
    s: Seq<(KeyView, Slot<V>)>,
    capacity: nat,
    ops: Seq<CacheOp<V>>,
)
    requires
        cache_wf(s, capacity),
    ensures
        cache_wf(run_cache_ops(s, capacity, ops), capacity),
        run_cache_ops(s, capacity, ops).len() <= capacity,
    decreases ops.len(),
{
    if ops.len() > 0 {
        lemma_capacity_never_exceeded(s, capacity, ops.drop_last());
        let prev = run_cache_ops(s, capacity, ops.drop_last());
        match ops.last() {
            CacheOp::Load(k) => lemma_steps_keep_wf(prev, k, arbitrary::<V>(), capacity),
            CacheOp::Prefetch(k) => lemma_steps_keep_wf(prev, k, arbitrary::<V>(), capacity),
            CacheOp::Complete(k, v) => lemma_steps_keep_wf(prev, k, v, capacity),
            CacheOp::Invalidate => {},
        }
    }
}

pub open spec fn entry_view<V>(e: CacheEntry<V>) -> (KeyView, Slot<V>) {
    (e.key@, e.slot)
}

/// Decoded images by key, bounded by a capacity fixed at creation.
pub struct ImageCache<V> {
    entries: Vec<CacheEntry<V>>,
    capacity: usize,
}

impl<V> ImageCache<V> {
    /// The entries from least to most recently used.
    pub closed spec fn view(&self) -> Seq<(KeyView, Slot<V>)> {
        self.entries@.map_values(|e: CacheEntry<V>| entry_view(e))
    }

    pub closed spec fn capacity_spec(&self) -> nat {
        self.capacity as nat
    }

    pub open spec fn wf(&self) -> bool {
        cache_wf(self@, self.capacity_spec())
    }

    /// An empty cache that holds at most `capacity` entries.
    pub fn new(capacity: usize) -> (r: Self)
        requires
            capacity > 0,
        ensures
            r.wf(),
            r@ == Seq::<(KeyView, Slot<V>)>::empty(),
            r.capacity_spec() == capacity,
    {
        let r = ImageCache { entries: Vec::new(), capacity };
        assert(r@ =~= Seq::<(KeyView, Slot<V>)>::empty());
        r
    }

    /// The capacity given at creation.
    pub fn capacity(&self) -> (r: usize)
        ensures
            r == self.capacity_spec(),
    {
        self.capacity
    }

    /// The number of entries, pending ones included.
    pub fn len(&self) -> (r: usize)
        ensures
            r == self@.len(),
    {
        self.entries.len()
    }

    fn find(&self, key: &CacheKey) -> (r: Option<usize>)
        requires
            self.wf(),
        ensures
            match r {
                Some(i) => i == index_of(self@, key@) && 0 <= i < self@.len(),
                None => index_of(self@, key@) == -1,
            },
    {
        let mut i: usize = 0;
        while i < self.entries.len()
            invariant
                self.wf(),
                i <= self.entries@.len(),
                forall|j: int| 0 <= j < i ==> self@[j].0 != key@,
            decreases self.entries@.len() - i,
        {
            let e = &self.entries[i];
            if e.key.modified == key.modified && e.key.path == key.path {
                assert(self@[i as int].0 == key@);
                let ghost c = index_of(self@, key@);
                assert(0 <= c < self@.len() && self@[c].0 == key@);
                assert(c == i);
                return Some(i);
            }
            i += 1;
        }
        assert(!exists|j: int| 0 <= j < self@.len() && self@[j].0 == key@);
        None
    }

    fn find_first_ready(&self) -> (r: Option<usize>)
        ensures
            match r {
                Some(i) => i == first_ready(self@),
                None => first_ready(self@) == -1,
            },
    {
        let mut i: usize = 0;
        while i < self.entries.len()
            invariant
                i <= self.entries@.len(),
                forall|j: int| 0 <= j < i ==> !(#[trigger] self@[j].1 is Ready),
            decreases self.entries@.len() - i,
        {
            if let Slot::Ready(_) = &self.entries[i].slot {
                assert(is_first_ready(self@, i as int));
                return Some(i);
            }
            i += 1;
        }
        assert(!exists|j: int| is_first_ready(self@, j));
        None
    }
    /// Stores `slot` under the absent `key` as the most recent entry, evicting
    /// the least recently used ready entry when full; false if nothing could go.
    fn place_entry(&mut self, key: CacheKey, slot: Slot<V>) -> (r: bool)
        requires
            old(self).wf(),
            index_of(old(self)@, key@) < 0,
        ensures
            final(self).capacity_spec() == old(self).capacity_spec(),
            r == place(old(self)@, key@, slot, old(self).capacity_spec()) is Some,
            final(self)@ == match place(old(self)@, key@, slot, old(self).capacity_spec()) {
                Some(t) => t,
                None => old(self)@,
            },
    {
        proof {
            lemma_place(self@, key@, slot, self.capacity_spec());
        }
        let ghost s = self@;
        let ghost kv = key@;
        let ghost sl = slot;
        if self.entries.len() < self.capacity {
            self.entries.push(CacheEntry { key, slot });
            assert(self@ =~= s.push((kv, sl)));
            true
        } else {
            match self.find_first_ready() {
                Some(r) => {
                    self.entries.remove(r);
                    self.entries.push(CacheEntry { key, slot });
                    assert(self@ =~= s.remove(r as int).push((kv, sl)));
                    true
                },
                None => false,
            }
        }
    }

    /// A synchronous load of `key`: says whether the image is cached, must be
    /// decoded by the caller (who now holds the claim), is being decoded by
    /// someone else, or must be decoded without caching.
    pub fn load(&mut self, key: &CacheKey) -> (r: LoadStep)
        requires
            old(self).wf(),
        ensures
            final(self).wf(),
            final(self).capacity_spec() == old(self).capacity_spec(),
            (r, final(self)@) == load_step(old(self)@, key@, old(self).capacity_spec()),
    {
        proof {
            lemma_steps_keep_wf(self@, key@, arbitrary::<V>(), self.capacity_spec());
        }
        let ghost s = self@;
        match self.find(key) {
            Some(i) => {
                if let Slot::Ready(_) = &self.entries[i].slot {
                    let e = self.entries.remove(i);
                    self.entries.push(e);
                    assert(self@ =~= s.remove(i as int).push(s[i as int]));
                    LoadStep::Hit
                } else {
                    LoadStep::Wait
                }
            },
            None => {
                if self.place_entry(key.duplicate(), Slot::Pending) {
                    LoadStep::Decode
                } else {
                    LoadStep::Uncached
                }
            },
        }
    }

    /// A speculative load of `key`: true when the caller now holds the claim
    /// and must decode in the background; false when the key is cached or in
    /// flight already, or no room can be made.
    pub fn prefetch(&mut self, key: &CacheKey) -> (r: bool)
        requires
            old(self).wf(),
        ensures
            final(self).wf(),
            final(self).capacity_spec() == old(self).capacity_spec(),
            (r, final(self)@) == prefetch_step(old(self)@, key@, old(self).capacity_spec()),
    {
        proof {
            lemma_steps_keep_wf(self@, key@, arbitrary::<V>(), self.capacity_spec());
        }
        match self.find(key) {
            Some(_) => false,
            None => self.place_entry(key.duplicate(), Slot::Pending),
        }
    }

    /// Stores a decoded image under `key`, filling its claim if it has one.
    pub fn complete(&mut self, key: CacheKey, value: V)
        requires
            old(self).wf(),
        ensures
            final(self).wf(),
            final(self).capacity_spec() == old(self).capacity_spec(),
            final(self)@ == complete_step(old(self)@, key@, value, old(self).capacity_spec()),
    {
        proof {
            lemma_steps_keep_wf(self@, key@, value, self.capacity_spec());
        }
        let ghost s = self@;
        let ghost kv = key@;
        let ghost v = value;
        match self.find(&key) {
            Some(i) => {
                self.entries.set(i, CacheEntry { key, slot: Slot::Ready(value) });
                assert(self@ =~= s.update(i as int, (kv, Slot::Ready(v))));
            },
            None => {
                self.place_entry(key, Slot::Ready(value));
            },
        }
    }

    /// The cached image of `key`, if it is decoded.
    pub fn get(&self, key: &CacheKey) -> (r: Option<&V>)
        requires
            self.wf(),
        ensures
            match r {
                Some(v) => lookup(self@, key@) == Some(Slot::Ready(*v)),
                None => !(lookup(self@, key@) matches Some(Slot::Ready(_))),
            },
    {
        match self.find(key) {
            Some(i) => match &self.entries[i].slot {
                Slot::Ready(v) => Some(v),
                Slot::Pending => None,
            },
            None => None,
        }
    }

    /// Forgets every entry, as after a scan replaced the collection.
    pub fn invalidate(&mut self)
        requires
            old(self).wf(),
        ensures
            final(self).wf(),
            final(self).capacity_spec() == old(self).capacity_spec(),
            final(self)@ == Seq::<(KeyView, Slot<V>)>::empty(),
    {
        self.entries = Vec::new();
        assert(self@ =~= Seq::<(KeyView, Slot<V>)>::empty());
    }
}

} // verus!
