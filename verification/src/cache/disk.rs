//! The index of the disk cache for remote images: which files it holds, how large they
//! are, and which to evict when it grows past its limit.

use vstd::prelude::*;
use crate::state::Timestamp;
use crate::text::{str_concat, str_ends_with, str_eq, str_starts_with, str_to_string, substring, str_chars};

verus! {

/// The BLAKE3 hash of a string's UTF-8 bytes in lowercase hexadecimal.
pub uninterp spec fn blake3_hex(s: Seq<char>) -> Seq<char>;

/// A lowercase hexadecimal digit.
pub open spec fn is_hex_digit(c: char) -> bool {
    ('0' <= c <= '9') || ('a' <= c <= 'f')
}

/// Hashes a URI with BLAKE3 (`blake3::hash`, `Hash::to_hex`): 64 lowercase hex digits,
/// named `blake3_hex`.
#[verifier::external_body]
fn hash_uri(uri: &str) -> (r: String)
    ensures
        r@ == blake3_hex(uri@),
        r@.len() == 64,
        forall|i: int| 0 <= i < 64 ==> is_hex_digit(#[trigger] r@[i]),
{
    blake3::hash(uri.as_bytes()).to_hex().to_string()
}

/// Reads the system clock as the time elapsed since the Unix epoch (`SystemTime::elapsed`
/// on `UNIX_EPOCH`; zero if the clock is before it). Nothing is promised of the reading.
#[verifier::external_body]
pub(crate) fn system_now() -> (r: Timestamp) {
    let d = std::time::UNIX_EPOCH.elapsed().unwrap_or_default();
    Timestamp { secs: d.as_secs() as i64, nanos: d.subsec_nanos() }
}

/// `a` comes strictly before `b`: by seconds, then by nanoseconds.
pub open spec fn stamp_before(a: Timestamp, b: Timestamp) -> bool {
    a.secs < b.secs || (a.secs == b.secs && a.nanos < b.nanos)
}

/// Individual cache entry
#[derive(Debug, Clone)]
pub struct CacheEntry {
    /// Hash of the original URI
    pub uri_hash: String,
    /// Original URI
    pub original_uri: String,
    /// Path to cached file (relative to cache dir)
    pub file_path: String,
    /// File size in bytes
    pub size: u64,
    /// When the file was fetched
    pub fetched_at: Timestamp,
    /// Last access time
    pub last_accessed: Timestamp,
    /// HTTP ETag for conditional requests
    pub etag: Option<String>,
}

/// Sum of the sizes of the entries.
pub open spec fn total_of(es: Seq<CacheEntry>) -> int
    decreases es.len(),
{
    if es.len() == 0 {
        0
    } else {
        total_of(es.drop_last()) + es.last().size
    }
}

/// No two entries share a hash.
pub open spec fn unique_hashes(es: Seq<CacheEntry>) -> bool {
    forall|i: int, j: int| 0 <= i < es.len() && 0 <= j < es.len() && i != j ==> es[i].uri_hash@ != es[j].uri_hash@
}

/// Some entry has this hash.
pub open spec fn holds_hash(es: Seq<CacheEntry>, h: Seq<char>) -> bool {
    exists|i: int| 0 <= i < es.len() && #[trigger] es[i].uri_hash@ == h
}

/// Cache index stored on disk
#[derive(Debug)]
pub struct CacheIndex {
    pub entries: Vec<CacheEntry>,
    pub total_size: u64,
}

impl CacheIndex {
    /// Hashes are unique and the total is the sum of the sizes.
    pub open spec fn wf(&self) -> bool {
        &&& unique_hashes(self.entries@)
        &&& self.total_size == total_of(self.entries@)
    }

    /// An empty index.
    pub fn empty() -> (r: CacheIndex)
        ensures
            r.wf(),
            r.entries@.len() == 0,
            r.total_size == 0,
    {
        CacheIndex { entries: Vec::new(), total_size: 0 }
    }

    /// Whether an index read from disk is consistent: unique hashes, and a total that is
    /// the sum of the sizes.
    pub fn is_consistent(&self) -> (r: bool)
        ensures
            r == self.wf(),
    {
        let n = self.entries.len();
        let mut sum: u128 = 0;
        let mut i: usize = 0;
        while i < n
            invariant
                n == self.entries@.len(),
                i <= n,
                sum == total_of(self.entries@.take(i as int)),
                sum <= i * 0xffff_ffff_ffff_ffffu128,
                forall|a: int, b: int| 0 <= a < i && 0 <= b < n && a != b ==> self.entries@[a].uri_hash@ != self.entries@[b].uri_hash@,
            decreases n - i,
        {
            let mut j: usize = 0;
            while j < n
                invariant
                    n == self.entries@.len(),
                    i < n,
                    j <= n,
                    forall|b: int| 0 <= b < j && b != i ==> self.entries@[i as int].uri_hash@ != self.entries@[b].uri_hash@,
                decreases n - j,
            {
                if j != i && str_eq(self.entries[i].uri_hash.as_str(), self.entries[j].uri_hash.as_str()) {
                    return false;
                }
                j = j + 1;
            }
            proof {
                let t = self.entries@.take(i + 1);
                assert(t.drop_last() == self.entries@.take(i as int));
                assert(t.last() == self.entries@[i as int]);
            }
            sum = sum + self.entries[i].size as u128;
            i = i + 1;
        }
        proof {
            assert(self.entries@.take(n as int) == self.entries@);
        }
        sum == self.total_size as u128
    }
}

proof fn lemma_total_remove(es: Seq<CacheEntry>, k: int)
    requires
        0 <= k < es.len(),
    ensures
        total_of(es.remove(k)) == total_of(es) - es[k].size,
    decreases es.len(),
{
    if k == es.len() - 1 {
        assert(es.remove(k) == es.drop_last());
    } else {
        lemma_total_remove(es.drop_last(), k);
        let r = es.remove(k);
        assert(r.drop_last() =~= es.drop_last().remove(k));
        assert(r.last() == es.last());
    }
}

proof fn lemma_total_nonneg(es: Seq<CacheEntry>)
    ensures
        0 <= total_of(es),
        forall|i: int| 0 <= i < es.len() ==> es[i].size <= total_of(es),
    decreases es.len(),
{
    if es.len() > 0 {
        lemma_total_nonneg(es.drop_last());
        assert forall|i: int| 0 <= i < es.len() implies es[i].size <= total_of(es) by {
            if i < es.len() - 1 {
                assert(es[i] == es.drop_last()[i]);
            }
        }
    }
}

/// Entry `k` is the first of those with the oldest access time.
pub open spec fn is_oldest_at(es: Seq<CacheEntry>, k: int) -> bool {
    &&& 0 <= k < es.len()
    &&& forall|j: int| 0 <= j < es.len() ==> !stamp_before(#[trigger] es[j].last_accessed, es[k].last_accessed)
    &&& forall|j: int| 0 <= j < k ==> stamp_before(es[k].last_accessed, #[trigger] es[j].last_accessed)
}

/// The position of the least recently used entry: the first with the oldest access time.
pub open spec fn oldest_position(es: Seq<CacheEntry>) -> int {
    choose|k: int| is_oldest_at(es, k)
}

/// The entries left after evicting least recently used ones, oldest first, until the total
/// is within `max`.
pub open spec fn after_eviction(es: Seq<CacheEntry>, max: int) -> Seq<CacheEntry>
    decreases es.len(),
{
    if total_of(es) <= max || es.len() == 0 {
        es
    } else {
        proof {
            lemma_oldest_exists(es);
        }
        after_eviction(es.remove(oldest_position(es)), max)
    }
}

/// The entries evicted, in eviction order.
pub open spec fn evicted(es: Seq<CacheEntry>, max: int) -> Seq<CacheEntry>
    decreases es.len(),
{
    if total_of(es) <= max || es.len() == 0 {
        Seq::empty()
    } else {
        proof {
            lemma_oldest_exists(es);
        }
        seq![es[oldest_position(es)]] + evicted(es.remove(oldest_position(es)), max)
    }
}

/// A nonempty list of entries has a first oldest one.
pub proof fn lemma_oldest_exists(es: Seq<CacheEntry>)
    requires
        es.len() > 0,
    ensures
        is_oldest_at(es, oldest_position(es)),
    decreases es.len(),
{
    if es.len() == 1 {
        assert(is_oldest_at(es, 0));
    } else {
        let d = es.drop_last();
        lemma_oldest_exists(d);
        let k = oldest_position(d);
        let n = es.len() - 1;
        assert forall|j: int| 0 <= j < n implies #[trigger] es[j] == d[j] by {}
        if stamp_before(es[n].last_accessed, es[k].last_accessed) {
            assert forall|j: int| 0 <= j < n implies stamp_before(es[n].last_accessed, #[trigger] es[j].last_accessed) by {
                assert(es[j] == d[j]);
                assert(!stamp_before(d[j].last_accessed, d[k].last_accessed));
            }
            assert(is_oldest_at(es, n));
        } else {
            assert forall|j: int| 0 <= j < es.len() implies !stamp_before(#[trigger] es[j].last_accessed, es[k].last_accessed) by {
                if j < n {
                    assert(es[j] == d[j]);
                }
            }
            assert forall|j: int| 0 <= j < k implies stamp_before(es[k].last_accessed, #[trigger] es[j].last_accessed) by {
                assert(es[j] == d[j]);
            }
            assert(is_oldest_at(es, k));
        }
    }
}

proof fn lemma_oldest_position(es: Seq<CacheEntry>, k: int)
    requires
        is_oldest_at(es, k),
    ensures
        oldest_position(es) == k,
{
    let p = oldest_position(es);
    assert(is_oldest_at(es, p));
    if p < k {
        assert(stamp_before(es[k].last_accessed, es[p].last_accessed));
    } else if p > k {
        assert(stamp_before(es[p].last_accessed, es[k].last_accessed));
    }
}

/// Finds the first entry with the oldest access time.
fn find_oldest(es: &Vec<CacheEntry>) -> (k: usize)
    requires
        es@.len() > 0,
    ensures
        k == oldest_position(es@),
        k < es@.len(),
{
    let mut k: usize = 0;
    let mut i: usize = 1;
    while i < es.len()
        invariant
            1 <= i <= es@.len(),
            k < i,
            forall|j: int| 0 <= j < i ==> !stamp_before(#[trigger] es@[j].last_accessed, es@[k as int].last_accessed),
            forall|j: int| 0 <= j < k ==> stamp_before(es@[k as int].last_accessed, #[trigger] es@[j].last_accessed),
        decreases es.len() - i,
    {
        let a = es[i].last_accessed;
        let b = es[k].last_accessed;
        if a.secs < b.secs || (a.secs == b.secs && a.nanos < b.nanos) {
            k = i;
        }
        i = i + 1;
    }
    proof {
        lemma_oldest_position(es@, k as int);
    }
    k
}

/// Disk cache index for remote images
#[derive(Debug)]
pub struct DiskCache {
    /// Directory holding the cached files and the index
    pub cache_dir: String,
    /// Size limit in bytes
    pub max_size: u64,
    /// The index of cached files
    pub index: CacheIndex,
}

/// The position of the entry with hash `h`, if any.
fn position_of(es: &Vec<CacheEntry>, h: &str) -> (r: Option<usize>)
    ensures
        match r {
            Some(i) => i < es@.len() && es@[i as int].uri_hash@ == h@,
            None => !holds_hash(es@, h@),
        },
{
    let mut i: usize = 0;
    while i < es.len()
        invariant
            i <= es@.len(),
            forall|j: int| 0 <= j < i ==> es@[j].uri_hash@ != h@,
        decreases es.len() - i,
    {
        if str_eq(es[i].uri_hash.as_str(), h) {
            return Some(i);
        }
        i = i + 1;
    }
    None
}

/// The file a cached URI is stored in, relative to the cache directory:
/// the first two hex digits of its hash, then the hash.
pub open spec fn cache_file_path(h: Seq<char>) -> Seq<char> {
    h.take(2) + "/"@ + h
}

proof fn lemma_unique_remove(es: Seq<CacheEntry>, k: int)
    requires
        unique_hashes(es),
        0 <= k < es.len(),
    ensures
        unique_hashes(es.remove(k)),
        forall|h: Seq<char>| holds_hash(es.remove(k), h) <==> (holds_hash(es, h) && h != es[k].uri_hash@),
{
    let r = es.remove(k);
    assert forall|a: int| 0 <= a < r.len() implies #[trigger] r[a] == if a < k { es[a] } else { es[a + 1] } by {}
    assert forall|h: Seq<char>| holds_hash(r, h) <==> (holds_hash(es, h) && h != es[k].uri_hash@) by {
        if holds_hash(r, h) {
            let a = choose|a: int| 0 <= a < r.len() && #[trigger] r[a].uri_hash@ == h;
            let oa = if a < k { a } else { a + 1 };
            assert(es[oa].uri_hash@ == h);
        }
        if holds_hash(es, h) && h != es[k].uri_hash@ {
            let a = choose|a: int| 0 <= a < es.len() && #[trigger] es[a].uri_hash@ == h;
            let na = if a < k { a } else { a - 1 };
            assert(r[na].uri_hash@ == h);
        }
    }
}

/// The entries without the one with hash `h`.
pub open spec fn without_hash(es: Seq<CacheEntry>, h: Seq<char>) -> Seq<CacheEntry> {
    if holds_hash(es, h) {
        es.remove(choose|j: int| 0 <= j < es.len() && es[j].uri_hash@ == h)
    } else {
        es
    }
}

/// A path under a directory, as `Path::join` forms it: an absolute path stands alone,
/// else a separator goes between them unless the directory is empty or ends with one.
pub open spec fn join_path(dir: Seq<char>, rel: Seq<char>) -> Seq<char> {
    if "/"@.is_prefix_of(rel) {
        rel
    } else if dir.len() == 0 || "/"@.is_suffix_of(dir) {
        dir + rel
    } else {
        dir + "/"@ + rel
    }
}

/// `rel` under `dir`.
fn join_dir(dir: &str, rel: &str) -> (r: String)
    ensures
        r@ == join_path(dir@, rel@),
{
    if str_starts_with(rel, "/") {
        str_to_string(rel)
    } else if dir.is_empty() || str_ends_with(dir, "/") {
        str_concat(dir, rel)
    } else {
        let d = str_concat(dir, "/");
        str_concat(d.as_str(), rel)
    }
}

/// What a lookup of `uri` at `now` in a cache over `dir` gives and does: the entry's
/// file, with its access time set to `now`; or nothing, with the index unchanged, when no
/// entry has the hash.
pub open spec fn looked_up(dir: Seq<char>, before: CacheIndex, after: CacheIndex, uri: Seq<char>, now: Timestamp, r: Option<String>) -> bool {
    match r {
        Some(p) => exists|i: int| 0 <= i < before.entries@.len()
            && #[trigger] before.entries@[i].uri_hash@ == blake3_hex(uri)
            && p@ == join_path(dir, before.entries@[i].file_path@)
            && after.entries@ == before.entries@.update(i, CacheEntry { last_accessed: now, ..before.entries@[i] }),
        None => !holds_hash(before.entries@, blake3_hex(uri)) && after == before,
    }
}

/// What storing `size` bytes for `uri` at `now` does to entries `before` under limit `max`:
/// any earlier entry for the URI is replaced by a new one, accessed and fetched at `now`,
/// appended last; then least recently used entries are evicted, and `files` names their
/// files, in eviction order.
pub open spec fn stored(before: Seq<CacheEntry>, max: int, uri: Seq<char>, size: u64, etag: Option<String>, now: Timestamp, after: Seq<CacheEntry>, files: Seq<String>) -> bool {
    let h = blake3_hex(uri);
    let kept = without_hash(before, h);
    exists|e: CacheEntry| {
        &&& e.uri_hash@ == h
        &&& e.original_uri@ == uri
        &&& e.file_path@ == cache_file_path(h)
        &&& e.size == size
        &&& e.etag == etag
        &&& e.fetched_at == now
        &&& e.last_accessed == now
        &&& #[trigger] after_eviction(kept.push(e), max) == after
        &&& files.map_values(|s: String| s@) == evicted(kept.push(e), max).map_values(|x: CacheEntry| x.file_path@)
        &&& forall|a: int, b: int|
            0 <= a < evicted(kept.push(e), max).len() && 0 <= b < after.len() ==> !stamp_before(
                #[trigger] after[b].last_accessed,
                #[trigger] evicted(kept.push(e), max)[a].last_accessed,
            )
    }
}

/// Storing at `now` keeps the stored entry when it fits in the limit and no access
/// recorded before was later than `now`.
pub open spec fn kept_when_fits(before: Seq<CacheEntry>, max: int, uri: Seq<char>, size: u64, now: Timestamp, after: Seq<CacheEntry>) -> bool {
    size <= max && (forall|j: int| 0 <= j < before.len() ==> !stamp_before(now, #[trigger] before[j].last_accessed))
        ==> holds_hash(after, blake3_hex(uri))
}

/// The outcome of storing a file in the cache
#[derive(Debug)]
pub struct StoreOutcome {
    /// Where the file goes, relative to the cache directory
    pub file_path: String,
    /// Where the file goes
    pub full_path: String,
    /// The subdirectory it goes in
    pub subdir: String,
    /// Files to delete, relative to the cache directory, evicted to respect the limit
    pub evicted: Vec<String>,
}

impl DiskCache {
    /// The index is consistent.
    pub open spec fn wf(&self) -> bool {
        self.index.wf()
    }

    /// Create a cache over `cache_dir` limited to `max_size_mb` megabytes, with the index
    /// read from disk.
    pub fn new(cache_dir: String, max_size_mb: u64, index: CacheIndex) -> (c: DiskCache)
        requires
            max_size_mb * 1024 * 1024 <= u64::MAX,
        ensures
            c.cache_dir@ == cache_dir@,
            c.max_size == max_size_mb * 1024 * 1024,
            c.index == index,
    {
        DiskCache { cache_dir, max_size: max_size_mb * 1024 * 1024, index }
    }

    /// Whether the URI is cached: the index holds an entry for it and its file exists.
    /// `file_exists` tells whether the file that `cached_file` names is on disk.
    pub fn is_cached(&self, uri: &str, file_exists: bool) -> (r: bool)
        ensures
            r == (holds_hash(self.index.entries@, blake3_hex(uri@)) && file_exists),
    {
        let hash = hash_uri(uri);
        position_of(&self.index.entries, hash.as_str()).is_some() && file_exists
    }

    /// The path of the file cached for the URI, if the index holds one.
    pub fn cached_file(&self, uri: &str) -> (r: Option<String>)
        ensures
            match r {
                Some(p) => exists|i: int| 0 <= i < self.index.entries@.len()
                    && #[trigger] self.index.entries@[i].uri_hash@ == blake3_hex(uri@)
                    && p@ == join_path(self.cache_dir@, self.index.entries@[i].file_path@),
                None => !holds_hash(self.index.entries@, blake3_hex(uri@)),
            },
    {
        let hash = hash_uri(uri);
        match position_of(&self.index.entries, hash.as_str()) {
            Some(i) => Some(join_dir(self.cache_dir.as_str(), self.index.entries[i].file_path.as_str())),
            None => None,
        }
    }

    /// The path of the file cached for the URI, marking it accessed now; the clock is read
    /// once, and the entry records whatever it gave. `file_exists` tells whether the file
    /// that `cached_file` names is on disk; where it is not, nothing is given and nothing
    /// changes.
    pub fn get(&mut self, uri: &str, file_exists: bool) -> (r: Option<String>)
        requires
            old(self).wf(),
        ensures
            final(self).wf(),
            final(self).cache_dir == old(self).cache_dir,
            final(self).max_size == old(self).max_size,
            final(self).index.total_size == old(self).index.total_size,
            !file_exists ==> r is None && *final(self) == *old(self),
            file_exists ==> exists|now: Timestamp| #[trigger] looked_up(old(self).cache_dir@, old(self).index, final(self).index, uri@, now, r),
    {
        if !file_exists {
            return None;
        }
        let now = system_now();
        self.get_at(uri, now)
    }

    /// The path of the file cached for the URI, marking it accessed at `now`.
    pub fn get_at(&mut self, uri: &str, now: Timestamp) -> (r: Option<String>)
        requires
            old(self).wf(),
        ensures
            final(self).wf(),
            final(self).cache_dir == old(self).cache_dir,
            final(self).max_size == old(self).max_size,
            final(self).index.total_size == old(self).index.total_size,
            looked_up(old(self).cache_dir@, old(self).index, final(self).index, uri@, now, r),
    {
        let hash = hash_uri(uri);
        match position_of(&self.index.entries, hash.as_str()) {
            Some(i) => {
                let ghost es = self.index.entries@;
                let mut entry = self.index.entries[i].clone_entry();
                entry.last_accessed = now;
                let path = join_dir(self.cache_dir.as_str(), entry.file_path.as_str());
                self.index.entries.set(i, entry);
                proof {
                    assert(self.index.entries@ =~= es.update(i as int, CacheEntry { last_accessed: now, ..es[i as int] }));
                    lemma_total_update(es, i as int, now);
                    assert forall|a: int, b: int| 0 <= a < es.len() && 0 <= b < es.len() && a != b implies self.index.entries@[a].uri_hash@ != self.index.entries@[b].uri_hash@ by {
                        assert(self.index.entries@[a].uri_hash@ == es[a].uri_hash@);
                        assert(self.index.entries@[b].uri_hash@ == es[b].uri_hash@);
                    }
                }
                Some(path)
            },
            None => None,
        }
    }

    /// Evicts least recently used entries, oldest first, until the total is within the
    /// limit; gives their files, relative to the cache directory.
    fn evict_if_needed(&mut self) -> (r: Vec<String>)
        requires
            old(self).wf(),
        ensures
            final(self).wf(),
            final(self).cache_dir == old(self).cache_dir,
            final(self).max_size == old(self).max_size,
            final(self).index.total_size <= final(self).max_size,
            final(self).index.entries@ == after_eviction(old(self).index.entries@, old(self).max_size as int),
            r@.map_values(|s: String| s@) == evicted(old(self).index.entries@, old(self).max_size as int).map_values(|x: CacheEntry| x.file_path@),
    {
        let ghost start = self.index.entries@;
        let ghost max = self.max_size as int;
        let mut files: Vec<String> = Vec::new();
        while self.index.total_size > self.max_size
            invariant
                self.wf(),
                self.cache_dir == old(self).cache_dir,
                self.max_size == old(self).max_size,
                max == self.max_size as int,
                after_eviction(start, max) == after_eviction(self.index.entries@, max),
                files@.map_values(|s: String| s@) + evicted(self.index.entries@, max).map_values(|x: CacheEntry| x.file_path@)
                    == evicted(start, max).map_values(|x: CacheEntry| x.file_path@),
            decreases self.index.entries@.len(),
        {
            let ghost es = self.index.entries@;
            proof {
                lemma_total_nonneg(es);
                if es.len() == 0 {
                    assert(total_of(es) == 0);
                }
            }
            let k = find_oldest(&self.index.entries);
            let e = self.index.entries.remove(k);
            proof {
                lemma_total_remove(es, k as int);
                lemma_total_nonneg(es);
                lemma_unique_remove(es, k as int);
                assert(self.index.entries@ == es.remove(k as int));
            }
            self.index.total_size = self.index.total_size - e.size;
            let ghost before = files@;
            files.push(e.file_path);
            proof {
                let fp = |x: CacheEntry| x.file_path@;
                let sv = |s: String| s@;
                assert(evicted(es, max) == seq![es[k as int]] + evicted(es.remove(k as int), max));
                assert(evicted(es, max).map_values(fp) =~= seq![es[k as int].file_path@] + evicted(es.remove(k as int), max).map_values(fp));
                assert(files@.map_values(sv) =~= before.map_values(sv).push(es[k as int].file_path@));
                assert(files@.map_values(sv) + evicted(self.index.entries@, max).map_values(fp) =~= before.map_values(sv) + evicted(es, max).map_values(fp));
            }
        }
        proof {
            let es = self.index.entries@;
            assert(after_eviction(es, max) == es);
            assert(evicted(es, max) == Seq::<CacheEntry>::empty());
            assert(evicted(es, max).map_values(|x: CacheEntry| x.file_path@) =~= Seq::<Seq<char>>::empty());
            assert(files@.map_values(|s: String| s@) + Seq::<Seq<char>>::empty() =~= files@.map_values(|s: String| s@));
        }
        files
    }

    /// Records a file of `size` bytes stored for the URI (replacing any earlier entry for
    /// it), then evicts least recently used entries until the cache is within its limit.
    /// The clock is read once; the new entry records whatever it gave.
    pub fn store(&mut self, uri: &str, size: u64, etag: Option<String>) -> (r: StoreOutcome)
        requires
            old(self).wf(),
            old(self).index.total_size + size <= u64::MAX,
        ensures
            final(self).wf(),
            final(self).cache_dir == old(self).cache_dir,
            final(self).max_size == old(self).max_size,
            final(self).index.total_size <= final(self).max_size,
            r.file_path@ == cache_file_path(blake3_hex(uri@)),
            r.full_path@ == join_path(old(self).cache_dir@, cache_file_path(blake3_hex(uri@))),
            r.subdir@ == blake3_hex(uri@).take(2),
            exists|now: Timestamp| #[trigger] stored(old(self).index.entries@, old(self).max_size as int, uri@, size, etag, now, final(self).index.entries@, r.evicted@)
                && kept_when_fits(old(self).index.entries@, old(self).max_size as int, uri@, size, now, final(self).index.entries@),
            forall|i: int| 0 <= i < final(self).index.entries@.len() && final(self).index.entries@[i].uri_hash@ == blake3_hex(uri@)
                ==> #[trigger] final(self).index.entries@[i].file_path@ == cache_file_path(blake3_hex(uri@)),
    {
        let now = system_now();
        self.store_at(uri, size, etag, now)
    }

    /// Records, at `now`, a file of `size` bytes stored for the URI (replacing any earlier
    /// entry for it), then evicts least recently used entries until the cache is within its
    /// limit. An entry that fits in the limit, stored no earlier than any access recorded
    /// before, is kept, so a lookup finds its file.
    pub fn store_at(&mut self, uri: &str, size: u64, etag: Option<String>, now: Timestamp) -> (r: StoreOutcome)
        requires
            old(self).wf(),
            old(self).index.total_size + size <= u64::MAX,
        ensures
            final(self).wf(),
            final(self).cache_dir == old(self).cache_dir,
            final(self).max_size == old(self).max_size,
            final(self).index.total_size <= final(self).max_size,
            r.file_path@ == cache_file_path(blake3_hex(uri@)),
            r.full_path@ == join_path(old(self).cache_dir@, cache_file_path(blake3_hex(uri@))),
            r.subdir@ == blake3_hex(uri@).take(2),
            stored(old(self).index.entries@, old(self).max_size as int, uri@, size, etag, now, final(self).index.entries@, r.evicted@),
            forall|i: int| 0 <= i < final(self).index.entries@.len() && final(self).index.entries@[i].uri_hash@ == blake3_hex(uri@)
                ==> #[trigger] final(self).index.entries@[i].file_path@ == cache_file_path(blake3_hex(uri@)),
            kept_when_fits(old(self).index.entries@, old(self).max_size as int, uri@, size, now, final(self).index.entries@),
    {
        let hash = hash_uri(uri);
        let chars = str_chars(hash.as_str());
        let subdir = substring(chars.as_slice(), 0, 2);
        let prefix = str_concat(subdir.as_str(), "/");
        let file_path = str_concat(prefix.as_str(), hash.as_str());
        let ghost es0 = self.index.entries@;
        match position_of(&self.index.entries, hash.as_str()) {
            Some(i) => {
                let old_entry = self.index.entries.remove(i);
                proof {
                    lemma_total_remove(es0, i as int);
                    lemma_total_nonneg(es0);
                    lemma_unique_remove(es0, i as int);
                    let c = choose|j: int| 0 <= j < es0.len() && es0[j].uri_hash@ == hash@;
                    assert(c == i);
                }
                self.index.total_size = self.index.total_size - old_entry.size;
            },
            None => {},
        }
        let ghost kept = self.index.entries@;
        assert(kept == without_hash(es0, hash@));
        let entry = CacheEntry {
            uri_hash: hash,
            original_uri: crate::text::str_to_string(uri),
            file_path: file_path.clone(),
            size,
            fetched_at: now,
            last_accessed: now,
            etag,
        };
        let ghost e = entry;
        self.index.entries.push(entry);
        self.index.total_size = self.index.total_size + size;
        proof {
            let es = self.index.entries@;
            assert(es.drop_last() == kept);
            assert(!holds_hash(kept, e.uri_hash@));
            assert forall|a: int, b: int| 0 <= a < es.len() && 0 <= b < es.len() && a != b implies es[a].uri_hash@ != es[b].uri_hash@ by {
                if a < kept.len() && b < kept.len() {
                    assert(es[a] == kept[a]);
                    assert(es[b] == kept[b]);
                } else if a < kept.len() {
                    assert(es[a] == kept[a]);
                } else {
                    assert(es[b] == kept[b]);
                }
            }
            assert(es == kept.push(e));
        }
        let ghost max = self.max_size as int;
        let evicted_files = self.evict_if_needed();
        proof {
            let h = e.uri_hash@;
            let all = kept.push(e);
            let fin = self.index.entries@;
            assert(fin == after_eviction(all, max));
            lemma_kept_from(all, max);
            law_eviction_lru_order(all, max);
            assert forall|i: int| 0 <= i < fin.len() && fin[i].uri_hash@ == h implies #[trigger] fin[i].file_path@ == cache_file_path(h) by {
                assert(all.contains(fin[i]));
                let j = choose|j: int| 0 <= j < all.len() && all[j] == fin[i];
                if j < kept.len() {
                    assert(kept[j] == all[j]);
                    assert(kept[j].uri_hash@ == h);
                }
            }
            if size <= max && (forall|j: int| 0 <= j < es0.len() ==> !stamp_before(now, #[trigger] es0[j].last_accessed)) {
                if holds_hash(es0, h) {
                    let c = choose|j: int| 0 <= j < es0.len() && es0[j].uri_hash@ == h;
                    assert(kept == es0.remove(c));
                    assert forall|j: int| 0 <= j < kept.len() implies !stamp_before(e.last_accessed, #[trigger] kept[j].last_accessed) by {
                        if j < c {
                            assert(kept[j] == es0[j]);
                        } else {
                            assert(kept[j] == es0[j + 1]);
                        }
                    }
                }
                law_stored_entry_kept(kept, e, max);
                let w = choose|w: int| 0 <= w < fin.len() && fin[w] == e;
                assert(fin[w].uri_hash@ == h);
            }
        }
        let full_path = join_dir(self.cache_dir.as_str(), file_path.as_str());
        StoreOutcome { file_path, full_path, subdir, evicted: evicted_files }
    }

    /// Empties the index; gives the files to delete, relative to the cache directory.
    pub fn clear(&mut self) -> (r: Vec<String>)
        requires
            old(self).wf(),
        ensures
            final(self).wf(),
            final(self).cache_dir == old(self).cache_dir,
            final(self).max_size == old(self).max_size,
            final(self).index.entries@.len() == 0,
            final(self).index.total_size == 0,
            r@.map_values(|s: String| s@) == old(self).index.entries@.map_values(|e: CacheEntry| e.file_path@),
    {
        let mut files: Vec<String> = Vec::new();
        let mut i: usize = 0;
        while i < self.index.entries.len()
            invariant
                i <= self.index.entries@.len(),
                self.index.entries@ == old(self).index.entries@,
                files@.map_values(|s: String| s@) == self.index.entries@.take(i as int).map_values(|e: CacheEntry| e.file_path@),
            decreases self.index.entries.len() - i,
        {
            let ghost before = files@;
            let fp = self.index.entries[i].file_path.clone();
            assert(fp@ == self.index.entries@[i as int].file_path@);
            files.push(fp);
            proof {
                let bm = before.map_values(|s: String| s@);
                let tm = self.index.entries@.take(i as int).map_values(|e: CacheEntry| e.file_path@);
                let fm = files@.map_values(|s: String| s@);
                let t1 = self.index.entries@.take(i + 1).map_values(|e: CacheEntry| e.file_path@);
                assert(bm.len() == i);
                assert(fm.len() == i + 1);
                assert(t1.len() == i + 1);
                assert forall|j: int| 0 <= j < i + 1 implies #[trigger] fm[j] == t1[j] by {
                    if j < i {
                        assert(files@[j] == before[j]);
                        assert(bm[j] == tm[j]);
                        assert(self.index.entries@.take(i + 1)[j] == self.index.entries@.take(i as int)[j]);
                    } else {
                        assert(files@[j] == fp);
                    }
                }
                assert(fm =~= t1);
            }
            i = i + 1;
        }
        proof {
            assert(self.index.entries@.take(i as int) == self.index.entries@);
        }
        self.index.entries = Vec::new();
        self.index.total_size = 0;
        files
    }
}

impl CacheEntry {
    /// A field-by-field copy.
    pub fn clone_entry(&self) -> (r: CacheEntry)
        ensures
            r == *self,
    {
        CacheEntry {
            uri_hash: self.uri_hash.clone(),
            original_uri: self.original_uri.clone(),
            file_path: self.file_path.clone(),
            size: self.size,
            fetched_at: self.fetched_at,
            last_accessed: self.last_accessed,
            etag: match &self.etag {
                Some(e) => Some(e.clone()),
                None => None,
            },
        }
    }
}

/// Eviction law: every entry is either kept or reported evicted, once; and what is kept
/// fits in the limit unless nothing is left.
pub proof fn law_eviction_partitions(es: Seq<CacheEntry>, max: int)
    ensures
        after_eviction(es, max).to_multiset().add(evicted(es, max).to_multiset()) == es.to_multiset(),
        total_of(after_eviction(es, max)) <= max || after_eviction(es, max).len() == 0,
    decreases es.len(),
{
    broadcast use vstd::seq_lib::group_seq_properties;
    if total_of(es) <= max || es.len() == 0 {
        assert(evicted(es, max).to_multiset() =~= vstd::multiset::Multiset::empty());
        assert(es.to_multiset().add(vstd::multiset::Multiset::empty()) =~= es.to_multiset());
    } else {
        lemma_oldest_exists(es);
        let k = oldest_position(es);
        let rest = es.remove(k);
        law_eviction_partitions(rest, max);
        let kept = after_eviction(rest, max);
        let ev = evicted(rest, max);
        assert(evicted(es, max) == seq![es[k]] + ev);
        vstd::seq_lib::lemma_multiset_commutative(seq![es[k]], ev);
        assert(seq![es[k]].to_multiset() =~= vstd::multiset::Multiset::empty().insert(es[k]));
        assert(rest.to_multiset() =~= es.to_multiset().remove(es[k]));
        let a = kept.to_multiset();
        let b = ev.to_multiset();
        assert(evicted(es, max).to_multiset() =~= vstd::multiset::Multiset::empty().insert(es[k]).add(b));
        assert(a.add(vstd::multiset::Multiset::empty().insert(es[k]).add(b)) =~= a.add(b).insert(es[k]));
        assert(es.contains(es[k]));
        assert(es.to_multiset().count(es[k]) > 0);
        assert(es.to_multiset().remove(es[k]).insert(es[k]) =~= es.to_multiset());
    }
}

/// What eviction keeps was there before.
proof fn lemma_kept_from(es: Seq<CacheEntry>, max: int)
    ensures
        forall|i: int| 0 <= i < after_eviction(es, max).len() ==> es.contains(#[trigger] after_eviction(es, max)[i]),
    decreases es.len(),
{
    if !(total_of(es) <= max || es.len() == 0) {
        lemma_oldest_exists(es);
        let k = oldest_position(es);
        let rest = es.remove(k);
        lemma_kept_from(rest, max);
        assert forall|i: int| 0 <= i < after_eviction(es, max).len() implies es.contains(#[trigger] after_eviction(es, max)[i]) by {
            let x = after_eviction(rest, max)[i];
            assert(rest.contains(x));
            let j = choose|j: int| 0 <= j < rest.len() && rest[j] == x;
            if j < k {
                assert(es[j] == x);
            } else {
                assert(es[j + 1] == x);
            }
        }
    }
}

/// Eviction is least recently used first: no entry that is kept was accessed before an
/// entry that was evicted.
pub proof fn law_eviction_lru_order(es: Seq<CacheEntry>, max: int)
    ensures
        forall|a: int, b: int|
            0 <= a < evicted(es, max).len() && 0 <= b < after_eviction(es, max).len() ==> !stamp_before(
                #[trigger] after_eviction(es, max)[b].last_accessed,
                #[trigger] evicted(es, max)[a].last_accessed,
            ),
    decreases es.len(),
{
    if !(total_of(es) <= max || es.len() == 0) {
        lemma_oldest_exists(es);
        let k = oldest_position(es);
        let rest = es.remove(k);
        law_eviction_lru_order(rest, max);
        lemma_kept_from(rest, max);
        let ev = evicted(es, max);
        let kept = after_eviction(es, max);
        assert(kept == after_eviction(rest, max));
        assert(ev == seq![es[k]] + evicted(rest, max));
        assert forall|a: int, b: int| 0 <= a < ev.len() && 0 <= b < kept.len() implies !stamp_before(
            #[trigger] kept[b].last_accessed,
            #[trigger] ev[a].last_accessed,
        ) by {
            if a == 0 {
                let x = kept[b];
                assert(rest.contains(x));
                let j = choose|j: int| 0 <= j < rest.len() && rest[j] == x;
                let oj = if j < k { j } else { j + 1 };
                assert(es[oj] == x);
                assert(!stamp_before(es[oj].last_accessed, es[k].last_accessed));
            } else {
                assert(ev[a] == evicted(rest, max)[a - 1]);
            }
        }
    }
}

/// Storing keeps what was stored: an entry that fits in the limit, appended to entries
/// none of which was accessed after it, survives the eviction that follows.
pub proof fn law_stored_entry_kept(kept: Seq<CacheEntry>, e: CacheEntry, max: int)
    requires
        e.size <= max,
        forall|j: int| 0 <= j < kept.len() ==> !stamp_before(e.last_accessed, #[trigger] kept[j].last_accessed),
    ensures
        after_eviction(kept.push(e), max).contains(e),
    decreases kept.len(),
{
    let es = kept.push(e);
    if total_of(es) <= max {
        assert(es[es.len() - 1] == e);
    } else {
        if kept.len() == 0 {
            assert(es.drop_last() =~= kept);
            assert(es.last() == e);
            assert(total_of(kept) == 0);
            assert(total_of(es) == e.size);
        }
        lemma_oldest_exists(es);
        let k = oldest_position(es);
        if k == kept.len() {
            assert(stamp_before(es[k].last_accessed, es[0].last_accessed));
            assert(es[0] == kept[0]);
        }
        let smaller = kept.remove(k);
        assert(es.remove(k) =~= smaller.push(e));
        assert forall|j: int| 0 <= j < smaller.len() implies !stamp_before(e.last_accessed, #[trigger] smaller[j].last_accessed) by {
            if j < k {
                assert(smaller[j] == kept[j]);
            } else {
                assert(smaller[j] == kept[j + 1]);
            }
        }
        law_stored_entry_kept(smaller, e, max);
    }
}

proof fn lemma_total_update(es: Seq<CacheEntry>, i: int, now: Timestamp)
    requires
        0 <= i < es.len(),
    ensures
        total_of(es.update(i, CacheEntry { last_accessed: now, ..es[i] })) == total_of(es),
    decreases es.len(),
{
    let u = es.update(i, CacheEntry { last_accessed: now, ..es[i] });
    if i == es.len() - 1 {
        assert(u.drop_last() == es.drop_last());
    } else {
        lemma_total_update(es.drop_last(), i, now);
        assert(u.drop_last() == es.drop_last().update(i, CacheEntry { last_accessed: now, ..es[i] }));
    }
}

} // verus!
