//! Playlist state for slideshow navigation.

use vstd::prelude::*;
use crate::config::ScaleMode;
use crate::text::{str_eq, str_starts_with, str_contains, is_infix_of};

verus! {

/// Type of source for the playlist
#[derive(Debug, Clone, Copy, PartialEq, Eq, Structural)]
pub enum SourceType {
    Local,
    GitHub,
    Http,
}

/// A point in time: seconds since the Unix epoch and the nanoseconds past that second.
#[derive(Debug, Clone, Copy, PartialEq, Eq, Structural)]
pub struct Timestamp {
    pub secs: i64,
    pub nanos: u32,
}

/// Reads the clock (`chrono::Utc::now`). Nothing is promised of the reading.
#[verifier::external_body]
pub(crate) fn utc_now() -> (r: Timestamp) {
    let now = chrono::Utc::now();
    Timestamp { secs: now.timestamp(), nanos: now.timestamp_subsec_nanos() }
}

/// The characters of each string, in order.
pub open spec fn string_views(s: Seq<String>) -> Seq<Seq<char>> {
    s.map_values(|x: String| x@)
}

/// `b` holds the same strings as `a`, each as many times, in some order.
pub open spec fn is_permutation(a: Seq<String>, b: Seq<String>) -> bool {
    a.len() == b.len() && string_views(a).to_multiset() == string_views(b).to_multiset()
}

/// Shuffles the strings in place (`rand::seq::SliceRandom::shuffle` with the thread-local
/// generator). The order is random; the same strings remain.
#[verifier::external_body]
pub(crate) fn shuffle_strings(v: &mut Vec<String>)
    ensures
        is_permutation(old(v)@, final(v)@),
{
    let mut rng = rand::thread_rng();
    rand::seq::SliceRandom::shuffle(v.as_mut_slice(), &mut rng);
}

/// The position after `i` in a cycle of `n` positions.
pub open spec fn step_forward(i: int, n: int) -> int {
    if i + 1 >= n {
        0
    } else {
        i + 1
    }
}

/// The position before `i` in a cycle of `n` positions.
pub open spec fn step_back(i: int, n: int) -> int {
    if i == 0 {
        n - 1
    } else {
        i - 1
    }
}

/// The position reached from `i` after `k` steps forward.
pub open spec fn steps_forward(i: int, n: int, k: nat) -> int
    decreases k,
{
    if k == 0 {
        i
    } else {
        step_forward(steps_forward(i, n, (k - 1) as nat), n)
    }
}

/// Swapping two positions leaves the same elements, each as many times.
proof fn lemma_swap_keeps_multiset(s: Seq<Seq<char>>, i: int, j: int)
    requires
        0 <= i < s.len(),
        0 <= j < s.len(),
    ensures
        s.update(i, s[j]).update(j, s[i]).to_multiset() == s.to_multiset(),
{
    broadcast use vstd::seq_lib::group_to_multiset_ensures;
    broadcast use vstd::multiset::group_multiset_axioms;
    if i == j {
        assert(s.update(i, s[j]).update(j, s[i]) =~= s);
    } else {
        let t = s.update(i, s[j]);
        assert(t[j] == s[j]);
        let m = s.to_multiset();
        assert(t.to_multiset() == m.insert(s[j]).remove(s[i]));
        assert(t.update(j, s[i]).to_multiset() == m.insert(s[j]).remove(s[i]).insert(s[i]).remove(s[j]));
        assert(m.count(s[i]) > 0);
        assert(m.insert(s[j]).remove(s[i]).insert(s[i]).remove(s[j]) =~= m);
    }
}

/// The first position whose string is `s`, if any.
fn position_of(v: &Vec<String>, s: &str) -> (r: Option<usize>)
    ensures
        match r {
            Some(i) => i < v@.len() && v@[i as int]@ == s@,
            None => forall|j: int| 0 <= j < v@.len() ==> v@[j]@ != s@,
        },
{
    let mut i: usize = 0;
    while i < v.len()
        invariant
            i <= v@.len(),
            forall|j: int| 0 <= j < i ==> v@[j]@ != s@,
        decreases v.len() - i,
    {
        if str_eq(v[i].as_str(), s) {
            return Some(i);
        }
        i = i + 1;
    }
    None
}

/// Persistent playlist state for slideshow navigation
#[derive(Debug)]
pub struct PlaylistState {
    /// Original source path/URI
    pub source: String,
    /// Type of source
    pub source_type: SourceType,
    /// List of image paths/URLs in playlist order
    pub images: Vec<String>,
    /// Current position in the playlist
    pub current_index: usize,
    /// Whether the playlist was shuffled
    pub shuffled: bool,
    /// Scaling mode for wallpapers
    pub mode: ScaleMode,
    /// When the state was last updated
    pub last_updated: Timestamp,
}

impl PlaylistState {
    /// The current position names an image.
    pub open spec fn in_range(&self) -> bool {
        self.current_index < self.images@.len()
    }

    /// Everything but the images and the position is as in `other`.
    pub open spec fn same_settings(&self, other: &PlaylistState) -> bool {
        &&& self.source@ == other.source@
        &&& self.source_type == other.source_type
        &&& self.shuffled == other.shuffled
        &&& self.mode == other.mode
        &&& self.last_updated == other.last_updated
    }

    /// Create a new playlist state positioned at the first image.
    pub fn new(
        source: String,
        source_type: SourceType,
        images: Vec<String>,
        shuffled: bool,
        mode: ScaleMode,
    ) -> (r: PlaylistState)
        ensures
            r.source@ == source@,
            r.source_type == source_type,
            r.images@ == images@,
            r.current_index == 0,
            r.shuffled == shuffled,
            r.mode == mode,
    {
        PlaylistState {
            source,
            source_type,
            images,
            current_index: 0,
            shuffled,
            mode,
            last_updated: utc_now(),
        }
    }

    /// The current image, if the position names one.
    pub fn current(&self) -> (r: Option<&str>)
        ensures
            match r {
                Some(s) => self.in_range() && s@ == self.images@[self.current_index as int]@,
                None => !self.in_range(),
            },
    {
        if self.current_index < self.images.len() {
            Some(self.images[self.current_index].as_str())
        } else {
            None
        }
    }

    /// Advance to the next image, returning it; wraps to the start, and reshuffles
    /// there when the playlist is shuffled. An empty playlist is left alone and gives "".
    pub fn next(&mut self) -> (r: String)
        requires
            old(self).current_index < usize::MAX,
        ensures
            old(self).images@.len() == 0 ==> *final(self) == *old(self) && r@ == Seq::<char>::empty(),
            old(self).images@.len() > 0 ==> {
                &&& final(self).current_index == step_forward(
                    old(self).current_index as int,
                    old(self).images@.len() as int,
                )
                &&& final(self).same_settings(old(self))
                &&& if old(self).shuffled && old(self).current_index + 1 >= old(self).images@.len() {
                    &&& is_permutation(old(self).images@, final(self).images@)
                    &&& final(self).images@[0]@ == old(self).images@[0]@
                } else {
                    final(self).images@ == old(self).images@
                }
                &&& final(self).in_range()
                &&& r@ == final(self).images@[final(self).current_index as int]@
            },
    {
        if self.images.len() == 0 {
            return String::new();
        }
        self.current_index = self.current_index + 1;
        if self.current_index >= self.images.len() {
            self.current_index = 0;
            if self.shuffled {
                self.reshuffle();
            }
        }
        self.images[self.current_index].clone()
    }

    /// Go to the previous image, returning it; wraps to the end.
    /// An empty playlist is left alone and gives "".
    pub fn prev(&mut self) -> (r: String)
        requires
            old(self).images@.len() == 0 || old(self).current_index <= old(self).images@.len(),
        ensures
            old(self).images@.len() == 0 ==> *final(self) == *old(self) && r@ == Seq::<char>::empty(),
            old(self).images@.len() > 0 ==> {
                &&& final(self).current_index == step_back(
                    old(self).current_index as int,
                    old(self).images@.len() as int,
                )
                &&& final(self).same_settings(old(self))
                &&& final(self).images@ == old(self).images@
                &&& final(self).in_range()
                &&& r@ == final(self).images@[final(self).current_index as int]@
            },
    {
        if self.images.len() == 0 {
            return String::new();
        }
        if self.current_index == 0 {
            self.current_index = self.images.len() - 1;
        } else {
            self.current_index = self.current_index - 1;
        }
        self.images[self.current_index].clone()
    }

    /// Shuffle the playlist (keeps current image but resets index to 0): the image the
    /// position named comes first in the new order.
    pub fn reshuffle(&mut self)
        ensures
            final(self).current_index == 0,
            final(self).same_settings(old(self)),
            is_permutation(old(self).images@, final(self).images@),
            old(self).in_range() ==> final(self).images@[0]@ == old(self).images@[old(self).current_index as int]@,
    {
        let keep: Option<String> = if self.current_index < self.images.len() {
            Some(self.images[self.current_index].clone())
        } else {
            None
        };
        shuffle_strings(&mut self.images);
        self.current_index = 0;
        if let Some(k) = keep {
            let ghost shuffled = self.images@;
            proof {
                broadcast use vstd::seq_lib::group_to_multiset_ensures;
                let ov = string_views(old(self).images@);
                assert(ov[old(self).current_index as int] == k@);
                assert(ov.to_multiset().count(k@) > 0);
                assert(string_views(shuffled).to_multiset().count(k@) > 0);
            }
            match position_of(&self.images, k.as_str()) {
                Some(i) => {
                    let first = self.images[0].clone();
                    let found = self.images[i].clone();
                    self.images.set(0, found);
                    self.images.set(i, first);
                    proof {
                        let sv = string_views(shuffled);
                        lemma_swap_keeps_multiset(sv, 0, i as int);
                        assert(string_views(self.images@) =~= sv.update(0, sv[i as int]).update(i as int, sv[0]));
                    }
                },
                None => {
                    proof {
                        broadcast use vstd::seq_lib::group_to_multiset_ensures;
                        let sv = string_views(shuffled);
                        assert(sv.contains(k@));
                        let j = choose|j: int| 0 <= j < sv.len() && sv[j] == k@;
                        assert(shuffled[j]@ == k@);
                    }
                },
            }
        }
    }

    /// Get total number of images
    pub fn len(&self) -> (r: usize)
        ensures
            r == self.images@.len(),
    {
        self.images.len()
    }

    /// Check if playlist is empty
    pub fn is_empty(&self) -> (r: bool)
        ensures
            r == (self.images@.len() == 0),
    {
        self.images.len() == 0
    }
}

/// The source type of a source string: GitHub sources first, then web URLs, else local.
pub open spec fn source_type_of(s: Seq<char>) -> SourceType {
    if "github://"@.is_prefix_of(s) || is_infix_of("github.com"@, s) {
        SourceType::GitHub
    } else if "http://"@.is_prefix_of(s) || "https://"@.is_prefix_of(s) {
        SourceType::Http
    } else {
        SourceType::Local
    }
}

/// Detect the source type from a URI/path
pub fn detect_source_type(source: &str) -> (r: SourceType)
    ensures
        r == source_type_of(source@),
{
    if str_starts_with(source, "github://") || str_contains(source, "github.com") {
        SourceType::GitHub
    } else if str_starts_with(source, "http://") || str_starts_with(source, "https://") {
        SourceType::Http
    } else {
        SourceType::Local
    }
}

/// Navigation law: within a non-empty playlist, going back undoes going forward and
/// going forward undoes going back, and both land on a valid position.
pub proof fn law_prev_undoes_next(i: int, n: int)
    requires
        0 <= i < n,
    ensures
        step_back(step_forward(i, n), n) == i,
        step_forward(step_back(i, n), n) == i,
        0 <= step_forward(i, n) < n,
        0 <= step_back(i, n) < n,
{
}

/// Cycle law: from any valid position, `k` steps forward land on `(i + k) mod n`;
/// in particular a whole round of `n` steps comes back to the start.
pub proof fn law_full_cycle(i: int, n: int, k: nat)
    requires
        0 <= i < n,
    ensures
        steps_forward(i, n, k) == (i + k) % n,
        steps_forward(i, n, n as nat) == i,
    decreases k,
{
    lemma_steps(i, n, k);
    lemma_steps(i, n, n as nat);
    assert((i + n) % n == i) by (nonlinear_arith)
        requires 0 <= i < n;
}

proof fn lemma_steps(i: int, n: int, k: nat)
    requires
        0 <= i < n,
    ensures
        steps_forward(i, n, k) == (i + k) % n,
    decreases k,
{
    if k == 0 {
        assert(i % n == i) by (nonlinear_arith)
            requires 0 <= i < n;
    } else {
        lemma_steps(i, n, (k - 1) as nat);
        let p = (i + k - 1) % n;
        assert(0 <= p < n) by (nonlinear_arith)
            requires n > 0, p == (i + k - 1) % n;
        assert(step_forward(p, n) == (i + k) % n) by {
            let q = (i + k - 1) / n;
            vstd::arithmetic::div_mod::lemma_fundamental_div_mod(i + k - 1, n);
            if p + 1 >= n {
                assert(i + k == (q + 1) * n + 0) by (nonlinear_arith)
                    requires i + k - 1 == n * q + p, p + 1 == n;
                vstd::arithmetic::div_mod::lemma_fundamental_div_mod_converse(i + k, n, q + 1, 0);
            } else {
                assert(i + k == q * n + (p + 1)) by (nonlinear_arith)
                    requires i + k - 1 == n * q + p;
                vstd::arithmetic::div_mod::lemma_fundamental_div_mod_converse(i + k, n, q, p + 1);
            }
        }
    }
}

/// Shuffle law: reshuffling a playlist keeps its length and exactly its images:
/// an image is in the playlist after a reshuffle if and only if it was before.
pub proof fn law_shuffle_keeps_images(a: Seq<String>, b: Seq<String>, s: Seq<char>)
    requires
        is_permutation(a, b),
    ensures
        a.len() == b.len(),
        string_views(a).contains(s) <==> string_views(b).contains(s),
{
    string_views(a).to_multiset_ensures();
    string_views(b).to_multiset_ensures();
    assert(string_views(a).to_multiset().count(s) == string_views(b).to_multiset().count(s));
}

} // verus!
