//! Memory cache for decoded frames: an LRU cache bounded both in entries and in bytes.

use vstd::prelude::*;
use crate::media::pixels::RgbaImage;
use lru::LruCache;

verus! {

/// The key under which frames sit in the LRU cache: source URI, frame index, width,
/// height.
pub type SlotKey = (String, usize, u16, u16);

/// A frame key as a plain value.
pub type SlotView = (Seq<char>, usize, u16, u16);

/// Key for frame cache
#[derive(Debug, Clone)]
pub struct FrameKey {
    /// Source URI
    pub uri: String,
    /// Frame index (0 for static images)
    pub frame_index: usize,
    /// Target width
    pub width: u16,
    /// Target height
    pub height: u16,
}

impl FrameKey {
    /// The key as a plain value.
    pub open spec fn slot(&self) -> SlotView {
        (self.uri@, self.frame_index, self.width, self.height)
    }
}

/// Cached frame data
#[derive(Debug)]
pub struct CachedFrame {
    /// Decoded RGBA image
    pub image: RgbaImage,
    /// Memory size in bytes
    pub size: usize,
}

#[verifier::external_type_specification]
#[verifier::external_body]
#[verifier::reject_recursive_types(K)]
#[verifier::reject_recursive_types(V)]
#[verifier::reject_recursive_types(S)]
pub struct ExLruCache<K, V, S>(LruCache<K, V, S>);

#[verifier::external_type_specification]
#[verifier::external_body]
pub struct ExLruHasher(lru::DefaultHasher);

/// The entries of an LRU cache of frames, from the least to the most recently used.
pub uninterp spec fn lru_entries(c: LruCache<SlotKey, CachedFrame>) -> Seq<(SlotView, CachedFrame)>;

/// The number of entries an LRU cache of frames was made to hold at most.
pub uninterp spec fn lru_capacity(c: LruCache<SlotKey, CachedFrame>) -> nat;

/// The position of the entry with key `k`, if any.
pub open spec fn slot_position(es: Seq<(SlotView, CachedFrame)>, k: SlotView) -> Option<int> {
    if exists|i: int| 0 <= i < es.len() && #[trigger] es[i].0 == k {
        Some(choose|i: int| 0 <= i < es.len() && #[trigger] es[i].0 == k)
    } else {
        None
    }
}

/// An empty LRU cache that holds at most `cap` entries (`LruCache::new`).
#[verifier::external_body]
fn lru_new(cap: usize) -> (r: LruCache<SlotKey, CachedFrame>)
    requires
        cap > 0,
    ensures
        lru_entries(r).len() == 0,
        lru_capacity(r) == cap,
{
    LruCache::new(std::num::NonZeroUsize::new(cap).unwrap())
}

/// Looks a key up (`LruCache::get`): the entry's value, which becomes the most recently
/// used; nothing, with the cache unchanged, where no entry has the key.
#[verifier::external_body]
fn lru_get<'a>(c: &'a mut LruCache<SlotKey, CachedFrame>, k: &SlotKey) -> (r: Option<&'a CachedFrame>)
    ensures
        lru_capacity(*final(c)) == lru_capacity(*old(c)),
        match slot_position(lru_entries(*old(c)), k@) {
            Some(i) => r == Some(&lru_entries(*old(c))[i].1)
                && lru_entries(*final(c)) == lru_entries(*old(c)).remove(i).push(lru_entries(*old(c))[i]),
            None => r is None && lru_entries(*final(c)) == lru_entries(*old(c)),
        },
{
    c.get(k)
}

/// Removes the least recently used entry (`LruCache::pop_lru`) and gives it; nothing when
/// the cache is empty.
#[verifier::external_body]
fn lru_pop(c: &mut LruCache<SlotKey, CachedFrame>) -> (r: Option<(SlotKey, CachedFrame)>)
    ensures
        lru_capacity(*final(c)) == lru_capacity(*old(c)),
        lru_entries(*old(c)).len() == 0 ==> r is None && lru_entries(*final(c)) == lru_entries(*old(c)),
        lru_entries(*old(c)).len() > 0 ==> (r matches Some(p) && p.0@ == lru_entries(*old(c))[0].0
            && p.1 == lru_entries(*old(c))[0].1
            && lru_entries(*final(c)) == lru_entries(*old(c)).drop_first()),
{
    c.pop_lru()
}

/// The entries after pushing `k` with `v` into a cache that holds at most `cap`.
pub open spec fn lru_pushed(es: Seq<(SlotView, CachedFrame)>, k: SlotView, v: CachedFrame, cap: nat) -> Seq<(SlotView, CachedFrame)> {
    match slot_position(es, k) {
        Some(i) => es.remove(i).push((k, v)),
        None => if es.len() >= cap && es.len() > 0 {
            es.drop_first().push((k, v))
        } else {
            es.push((k, v))
        },
    }
}

/// The value a push hands back: the old value under the key, or else the least recently
/// used entry where the cache was full.
pub open spec fn lru_push_returns(es: Seq<(SlotView, CachedFrame)>, k: SlotView, cap: nat) -> Option<CachedFrame> {
    match slot_position(es, k) {
        Some(i) => Some(es[i].1),
        None => if es.len() >= cap && es.len() > 0 { Some(es[0].1) } else { None },
    }
}

/// Pushes an entry (`LruCache::push`): it becomes the most recently used; an entry with
/// the same key is replaced and handed back, or else, where the cache is full, the least
/// recently used entry is evicted and handed back.
#[verifier::external_body]
fn lru_push(c: &mut LruCache<SlotKey, CachedFrame>, k: SlotKey, v: CachedFrame) -> (r: Option<(SlotKey, CachedFrame)>)
    requires
        lru_entries(*old(c)).len() <= lru_capacity(*old(c)),
    ensures
        lru_capacity(*final(c)) == lru_capacity(*old(c)),
        lru_entries(*final(c)) == lru_pushed(lru_entries(*old(c)), k@, v, lru_capacity(*old(c))),
        match lru_push_returns(lru_entries(*old(c)), k@, lru_capacity(*old(c))) {
            Some(x) => r matches Some(p) && p.1 == x,
            None => r is None,
        },
{
    c.push(k, v)
}

/// Empties the cache (`LruCache::clear`).
#[verifier::external_body]
fn lru_clear(c: &mut LruCache<SlotKey, CachedFrame>)
    ensures
        lru_capacity(*final(c)) == lru_capacity(*old(c)),
        lru_entries(*final(c)).len() == 0,
{
    c.clear()
}

/// The sum of the sizes of the entries.
pub open spec fn frames_size(es: Seq<(SlotView, CachedFrame)>) -> int
    decreases es.len(),
{
    if es.len() == 0 {
        0
    } else {
        frames_size(es.drop_last()) + es.last().1.size
    }
}

/// No two entries share a key.
pub open spec fn distinct_slots(es: Seq<(SlotView, CachedFrame)>) -> bool {
    forall|i: int, j: int| 0 <= i < es.len() && 0 <= j < es.len() && i != j ==> es[i].0 != es[j].0
}

/// The entries left when, before storing a frame of `size` bytes, least recently used
/// entries are evicted while the total would exceed `max`.
pub open spec fn evicted_for(es: Seq<(SlotView, CachedFrame)>, size: int, max: int) -> Seq<(SlotView, CachedFrame)>
    decreases es.len(),
{
    if frames_size(es) + size > max && es.len() > 0 {
        evicted_for(es.drop_first(), size, max)
    } else {
        es
    }
}

/// The most frames the cache holds.
pub const FRAME_CAPACITY: usize = 1000;

/// LRU cache for decoded frames
pub struct FrameCache {
    cache: LruCache<SlotKey, CachedFrame>,
    max_memory: usize,
    current_memory: usize,
}

impl FrameCache {
    /// The cached frames, from the least to the most recently used.
    pub closed spec fn frames(&self) -> Seq<(SlotView, CachedFrame)> {
        lru_entries(self.cache)
    }

    /// The memory limit in bytes.
    pub closed spec fn memory_limit(&self) -> int {
        self.max_memory as int
    }

    /// The counted memory is the sum of the frames' sizes, no key occurs twice, and there
    /// are at most as many frames as the capacity.
    pub closed spec fn wf(&self) -> bool {
        &&& self.current_memory == frames_size(lru_entries(self.cache))
        &&& distinct_slots(lru_entries(self.cache))
        &&& lru_capacity(self.cache) == FRAME_CAPACITY
        &&& lru_entries(self.cache).len() <= FRAME_CAPACITY
    }

    /// Create a new frame cache with maximum memory limit
    pub fn new(max_memory_mb: usize) -> (r: FrameCache)
        requires
            max_memory_mb * 1024 * 1024 <= usize::MAX,
        ensures
            r.wf(),
            r.frames().len() == 0,
            r.memory_limit() == max_memory_mb * 1024 * 1024,
    {
        FrameCache { cache: lru_new(FRAME_CAPACITY), max_memory: max_memory_mb * 1024 * 1024, current_memory: 0 }
    }

    /// Get a frame from cache; a frame found becomes the most recently used.
    pub fn get(&mut self, key: &FrameKey) -> (r: Option<&CachedFrame>)
        requires
            old(self).wf(),
        ensures
            final(self).wf(),
            final(self).memory_limit() == old(self).memory_limit(),
            match slot_position(old(self).frames(), key.slot()) {
                Some(i) => r == Some(&old(self).frames()[i].1)
                    && final(self).frames() == old(self).frames().remove(i).push(old(self).frames()[i]),
                None => r is None && final(self).frames() == old(self).frames(),
            },
    {
        let k: SlotKey = (key.uri.clone(), key.frame_index, key.width, key.height);
        let ghost es = lru_entries(self.cache);
        let r = lru_get(&mut self.cache, &k);
        proof {
            if let Some(i) = slot_position(es, k@) {
                lemma_remove_push(es, i);
            }
        }
        r
    }

    /// Put a frame in cache: least recently used frames are evicted while the frame would
    /// not fit in the memory limit, then the frame is stored as the most recently used,
    /// replacing one under the same key.
    pub fn put(&mut self, key: FrameKey, frame: CachedFrame)
        requires
            old(self).wf(),
            frames_size(old(self).frames()) + frame.size <= usize::MAX,
        ensures
            final(self).wf(),
            final(self).memory_limit() == old(self).memory_limit(),
            final(self).frames() == lru_pushed(
                evicted_for(old(self).frames(), frame.size as int, old(self).memory_limit()),
                key.slot(),
                frame,
                FRAME_CAPACITY as nat,
            ),
            frames_size(final(self).frames()) <= final(self).memory_limit()
                || final(self).frames() == seq![(key.slot(), frame)],
    {
        let size = frame.size;
        let ghost start = lru_entries(self.cache);
        let ghost max = self.max_memory as int;
        while self.current_memory + size > self.max_memory
            invariant
                self.wf(),
                max == self.max_memory,
                self.current_memory + size <= usize::MAX,
                evicted_for(start, size as int, max) == evicted_for(lru_entries(self.cache), size as int, max),
            ensures
                self.wf(),
                max == self.max_memory,
                self.current_memory + size <= usize::MAX,
                evicted_for(start, size as int, max) == evicted_for(lru_entries(self.cache), size as int, max),
                self.current_memory + size <= self.max_memory || lru_entries(self.cache).len() == 0,
            decreases lru_entries(self.cache).len(),
        {
            let ghost es = lru_entries(self.cache);
            match lru_pop(&mut self.cache) {
                Some(p) => {
                    proof {
                        lemma_size_drop_first(es);
                        lemma_size_nonneg(es.drop_first());
                        lemma_distinct_drop_first(es);
                    }
                    self.current_memory = self.current_memory - p.1.size;
                },
                None => {
                    break;
                },
            }
        }
        let ghost kept = lru_entries(self.cache);
        proof {
            assert(evicted_for(kept, size as int, max) == kept);
        }
        let k: SlotKey = (key.uri, key.frame_index, key.width, key.height);
        let ghost kv = k@;
        let ghost fv = frame;
        let replaced = lru_push(&mut self.cache, k, frame);
        proof {
            lemma_pushed(kept, kv, fv, FRAME_CAPACITY as nat);
        }
        match replaced {
            Some(p) => {
                self.current_memory = self.current_memory - p.1.size;
            },
            None => {},
        }
        self.current_memory = self.current_memory + size;
    }

    /// Clear the cache
    pub fn clear(&mut self)
        requires
            old(self).wf(),
        ensures
            final(self).wf(),
            final(self).memory_limit() == old(self).memory_limit(),
            final(self).frames().len() == 0,
    {
        lru_clear(&mut self.cache);
        self.current_memory = 0;
    }

    /// Get current memory usage
    pub fn memory_usage(&self) -> (r: usize)
        requires
            self.wf(),
        ensures
            r == frames_size(self.frames()),
    {
        self.current_memory
    }
}

proof fn lemma_size_nonneg(es: Seq<(SlotView, CachedFrame)>)
    ensures
        frames_size(es) >= 0,
    decreases es.len(),
{
    if es.len() > 0 {
        lemma_size_nonneg(es.drop_last());
    }
}

proof fn lemma_size_remove(es: Seq<(SlotView, CachedFrame)>, k: int)
    requires
        0 <= k < es.len(),
    ensures
        frames_size(es.remove(k)) == frames_size(es) - es[k].1.size,
    decreases es.len(),
{
    if k == es.len() - 1 {
        assert(es.remove(k) =~= es.drop_last());
    } else {
        lemma_size_remove(es.drop_last(), k);
        let r = es.remove(k);
        assert(r.drop_last() =~= es.drop_last().remove(k));
        assert(r.last() == es.last());
    }
}

proof fn lemma_size_drop_first(es: Seq<(SlotView, CachedFrame)>)
    requires
        es.len() > 0,
    ensures
        frames_size(es.drop_first()) == frames_size(es) - es[0].1.size,
{
    lemma_size_remove(es, 0);
    assert(es.remove(0) =~= es.drop_first());
}

proof fn lemma_distinct_drop_first(es: Seq<(SlotView, CachedFrame)>)
    requires
        distinct_slots(es),
        es.len() > 0,
    ensures
        distinct_slots(es.drop_first()),
{
    let d = es.drop_first();
    assert forall|i: int, j: int| 0 <= i < d.len() && 0 <= j < d.len() && i != j implies d[i].0 != d[j].0 by {
        assert(d[i] == es[i + 1]);
        assert(d[j] == es[j + 1]);
    }
}

proof fn lemma_remove_push(es: Seq<(SlotView, CachedFrame)>, i: int)
    requires
        0 <= i < es.len(),
        distinct_slots(es),
    ensures
        distinct_slots(es.remove(i).push(es[i])),
        frames_size(es.remove(i).push(es[i])) == frames_size(es),
        es.remove(i).push(es[i]).len() == es.len(),
{
    let r = es.remove(i);
    let p = r.push(es[i]);
    lemma_size_remove(es, i);
    assert(p.drop_last() =~= r);
    assert forall|a: int| 0 <= a < r.len() implies #[trigger] r[a] == if a < i { es[a] } else { es[a + 1] } by {}
    assert forall|a: int, b: int| 0 <= a < p.len() && 0 <= b < p.len() && a != b implies p[a].0 != p[b].0 by {
        if a < r.len() && b < r.len() {
            assert(p[a] == r[a]);
            assert(p[b] == r[b]);
        } else if a < r.len() {
            assert(p[a] == r[a]);
        } else {
            assert(p[b] == r[b]);
        }
    }
}

/// Lookup law: right after a frame is stored under a key, looking the key up finds that
/// frame, as the most recently used entry, whatever was evicted to make room.
pub proof fn law_put_then_get(es: Seq<(SlotView, CachedFrame)>, k: SlotView, v: CachedFrame, cap: nat)
    requires
        distinct_slots(es),
        es.len() <= cap,
        cap > 0,
    ensures
        ({
            let p = lru_pushed(es, k, v, cap);
            &&& slot_position(p, k) == Some(p.len() - 1)
            &&& p[p.len() - 1] == (k, v)
        }),
{
    lemma_pushed(es, k, v, cap);
    let p = lru_pushed(es, k, v, cap);
    assert(p.len() > 0 && p.last() == (k, v)) by {
        match slot_position(es, k) {
            Some(i) => {},
            None => {},
        }
    }
    let n = p.len() - 1;
    assert(p[n].0 == k);
    let c = choose|i: int| 0 <= i < p.len() && #[trigger] p[i].0 == k;
    assert(0 <= c < p.len() && p[c].0 == k);
    if c != n {
        assert(p[c].0 != p[n].0);
    }
}

/// What a push does to the counted size, the keys and the number of entries.
proof fn lemma_pushed(es: Seq<(SlotView, CachedFrame)>, k: SlotView, v: CachedFrame, cap: nat)
    requires
        distinct_slots(es),
        es.len() <= cap,
        cap > 0,
    ensures
        distinct_slots(lru_pushed(es, k, v, cap)),
        lru_pushed(es, k, v, cap).len() <= cap,
        frames_size(lru_pushed(es, k, v, cap)) == frames_size(es) + v.size - match lru_push_returns(es, k, cap) {
            Some(x) => x.size as int,
            None => 0int,
        },
        frames_size(lru_pushed(es, k, v, cap)) <= frames_size(es) + v.size,
        match lru_push_returns(es, k, cap) {
            Some(x) => x.size <= frames_size(es),
            None => true,
        },
        es.len() == 0 ==> lru_pushed(es, k, v, cap) == seq![(k, v)],
{
    lemma_size_nonneg(es);
    let p = lru_pushed(es, k, v, cap);
    match slot_position(es, k) {
        Some(i) => {
            let r = es.remove(i);
            lemma_size_remove(es, i);
            lemma_size_nonneg(r);
            assert(p.drop_last() =~= r);
            assert forall|a: int| 0 <= a < r.len() implies #[trigger] r[a] == if a < i { es[a] } else { es[a + 1] } by {}
            assert forall|a: int, b: int| 0 <= a < p.len() && 0 <= b < p.len() && a != b implies p[a].0 != p[b].0 by {
                if a < r.len() && b < r.len() {
                    assert(p[a] == r[a]);
                    assert(p[b] == r[b]);
                } else if a < r.len() {
                    assert(p[a] == r[a]);
                    if a < i {
                        assert(es[a].0 != es[i].0);
                    } else {
                        assert(es[a + 1].0 != es[i].0);
                    }
                } else {
                    assert(p[b] == r[b]);
                    if b < i {
                        assert(es[b].0 != es[i].0);
                    } else {
                        assert(es[b + 1].0 != es[i].0);
                    }
                }
            }
        },
        None => {
            assert(forall|a: int| 0 <= a < es.len() ==> #[trigger] es[a].0 != k);
            let base = if es.len() >= cap && es.len() > 0 { es.drop_first() } else { es };
            if es.len() >= cap && es.len() > 0 {
                lemma_size_drop_first(es);
                lemma_size_nonneg(es.drop_first());
                lemma_distinct_drop_first(es);
            }
            assert(p.drop_last() =~= base);
            assert forall|a: int| 0 <= a < base.len() implies #[trigger] base[a].0 != k by {
                if es.len() >= cap && es.len() > 0 {
                    assert(base[a] == es[a + 1]);
                }
            }
            assert forall|a: int, b: int| 0 <= a < p.len() && 0 <= b < p.len() && a != b implies p[a].0 != p[b].0 by {
                if a < base.len() && b < base.len() {
                    assert(p[a] == base[a]);
                    assert(p[b] == base[b]);
                } else if a < base.len() {
                    assert(p[a] == base[a]);
                } else {
                    assert(p[b] == base[b]);
                }
            }
            if es.len() == 0 {
                assert(p =~= seq![(k, v)]);
            }
        },
    }
}

} // verus!
