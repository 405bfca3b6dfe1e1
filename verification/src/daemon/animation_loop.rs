//! Frame timing of animated wallpapers: which frame shows when, how far playback may
//! fall behind, and whether all frames may be pre-scaled.

use vstd::prelude::*;
use crate::config::ScaleMode;
use crate::time_span::TimeSpan;

verus! {

/// Default memory budget for pre-scaled animation frames (256 MB)
pub const DEFAULT_MEMORY_BUDGET: u64 = 268_435_456;

/// Configuration for the animation loop
#[derive(Debug, Clone, Copy)]
pub struct AnimationConfig {
    /// Maximum FPS (0 = unlimited, capped at source FPS)
    pub max_fps: u32,
    /// Whether to skip frames when running behind
    pub adaptive_skip: bool,
    /// Scaling mode for frames
    pub scale_mode: ScaleMode,
}

impl Default for AnimationConfig {
    fn default() -> (r: AnimationConfig)
        ensures
            r.max_fps == 60,
            r.adaptive_skip,
            r.scale_mode == ScaleMode::Fill,
    {
        AnimationConfig { max_fps: 60, adaptive_skip: true, scale_mode: ScaleMode::Fill }
    }
}

/// Bytes needed to hold every frame scaled to the screen.
pub open spec fn prescaled_bytes(screen_width: int, screen_height: int, frame_count: int) -> int {
    screen_width * screen_height * 4 * frame_count
}

/// Whether all frames, scaled to the screen, fit the memory budget (else frames are
/// scaled as they are shown).
pub fn fits_memory_budget(screen_width: u16, screen_height: u16, frame_count: usize) -> (r: bool)
    requires
        prescaled_bytes(screen_width as int, screen_height as int, frame_count as int) <= u64::MAX,
    ensures
        r == (prescaled_bytes(screen_width as int, screen_height as int, frame_count as int)
            <= DEFAULT_MEMORY_BUDGET),
        r == (screen_width * screen_height * 4 * frame_count <= 268_435_456),
{
    let sw = screen_width as u64;
    let sh = screen_height as u64;
    assert(sw * sh * 4 <= 0xffff * 0xffff * 4) by (nonlinear_arith)
        requires sw <= 0xffff, sh <= 0xffff;
    let per_frame_bytes = sw * sh * 4;
    assert(per_frame_bytes * (frame_count as u64) == prescaled_bytes(screen_width as int, screen_height as int, frame_count as int));
    let total_bytes = per_frame_bytes * frame_count as u64;
    total_bytes <= DEFAULT_MEMORY_BUDGET
}

/// Memory budget law: the bytes counted are four per pixel of the screen for every frame,
/// so they grow with the frame count, and a decision to scale on the fly never turns into
/// pre-scaling when frames are added (or the screen grows).
pub proof fn law_memory_budget(w: int, h: int, n: int, w2: int, h2: int, m: int)
    requires
        0 <= w <= w2,
        0 <= h <= h2,
        0 <= n <= m,
    ensures
        prescaled_bytes(w, h, n) == w * h * 4 * n,
        prescaled_bytes(w, h, n) <= prescaled_bytes(w2, h2, m),
        prescaled_bytes(w2, h2, m) <= 268_435_456 ==> prescaled_bytes(w, h, n) <= 268_435_456,
        n > 0 ==> prescaled_bytes(w, h, n) >= prescaled_bytes(w, h, 1) * n,
{
    assert(w * h * 4 * n <= w2 * h2 * 4 * m) by (nonlinear_arith)
        requires 0 <= w <= w2, 0 <= h <= h2, 0 <= n <= m;
    assert(w * h * 4 * n >= (w * h * 4 * 1) * n) by (nonlinear_arith);
}

/// How long frame `i` stays up: its own delay, but no less than the minimum.
pub open spec fn shown_for(delays: Seq<TimeSpan>, min_delay: TimeSpan, i: int) -> int {
    if delays[i].total() >= min_delay.total() {
        delays[i].total()
    } else {
        min_delay.total()
    }
}

/// Every frame stays up for some time.
pub open spec fn always_advances(delays: Seq<TimeSpan>, min_delay: TimeSpan) -> bool {
    forall|k: int| 0 <= k < delays.len() ==> shown_for(delays, min_delay, k) > 0
}

/// Catching up: from frame `i` due at `t`, skip frames (each advancing the schedule by how
/// long it would have been shown) until the schedule is no longer behind `now`.
/// Gives (frame, due time, frames skipped).
pub open spec fn catch_up(
    delays: Seq<TimeSpan>,
    min_delay: TimeSpan,
    i: int,
    t: int,
    now: int,
) -> (int, int, int)
    decreases (if now > t {
        now - t
    } else {
        0
    }),
    when always_advances(delays, min_delay) && 0 <= i < delays.len()
{
    if t >= now {
        (i, t, 0)
    } else {
        let r = catch_up(
            delays,
            min_delay,
            (i + 1) % (delays.len() as int),
            t + shown_for(delays, min_delay, i),
            now,
        );
        (r.0, r.1, r.2 + 1)
    }
}

/// Skips the frames a playback that fell behind `now` missed.
pub fn skip_missed_frames(
    delays: &Vec<TimeSpan>,
    min_delay: TimeSpan,
    frame_index: usize,
    next_frame_time: TimeSpan,
    now: TimeSpan,
) -> (r: (usize, TimeSpan, u64))
    requires
        0 <= frame_index < delays@.len(),
        always_advances(delays@, min_delay),
        min_delay.wf(),
        next_frame_time.wf(),
        now.wf(),
        forall|k: int| 0 <= k < delays@.len() ==> (#[trigger] delays@[k]).wf(),
        forall|k: int|
            0 <= k < delays@.len() ==> now.total() + shown_for(delays@, min_delay, k)
                <= TimeSpan::max_total(),
        now.total() - next_frame_time.total() <= u64::MAX,
    ensures
        r.1.wf(),
        (r.0 as int, r.1.total(), r.2 as int) == catch_up(
            delays@,
            min_delay,
            frame_index as int,
            next_frame_time.total(),
            now.total(),
        ),
{
    let n = delays.len();
    let mut i = frame_index;
    let mut t = next_frame_time;
    let mut skipped: u64 = 0;
    while t.lt(&now)
        invariant
            n == delays@.len(),
            0 <= i < n,
            t.wf(),
            now.wf(),
            min_delay.wf(),
            always_advances(delays@, min_delay),
            forall|k: int| 0 <= k < delays@.len() ==> (#[trigger] delays@[k]).wf(),
            forall|k: int|
                0 <= k < delays@.len() ==> now.total() + shown_for(delays@, min_delay, k)
                    <= TimeSpan::max_total(),
            skipped as int <= t.total() - next_frame_time.total(),
            now.total() - next_frame_time.total() <= u64::MAX,
            catch_up(delays@, min_delay, frame_index as int, next_frame_time.total(), now.total())
                == ({
                let rest = catch_up(delays@, min_delay, i as int, t.total(), now.total());
                (rest.0, rest.1, rest.2 + skipped)
            }),
        decreases (if now.total() > t.total() {
            now.total() - t.total()
        } else {
            0
        }),
    {
        let ghost old_i = i as int;
        let ghost old_t = t.total();
        let step = delays[i].max(min_delay);
        assert(step.total() == shown_for(delays@, min_delay, old_i));
        t = t.add(step);
        i = if i + 1 >= n {
            0
        } else {
            i + 1
        };
        proof {
            if old_i + 1 >= n {
                assert(old_i + 1 == n);
                vstd::arithmetic::div_mod::lemma_mod_self_0(n as int);
            } else {
                vstd::arithmetic::div_mod::lemma_small_mod((old_i + 1) as nat, n as nat);
            }
            assert(i as int == (old_i + 1) % (n as int));
        }
        skipped = skipped + 1;
    }
    (i, t, skipped)
}

/// Frame timing of a playing animation: the delay of each frame, the frame shown, and the
/// shortest time a frame stays up (from the frame rate cap).
#[derive(Debug, Clone)]
pub struct AnimationClock {
    pub frame_delays: Vec<TimeSpan>,
    pub current_frame: usize,
    pub min_delay: TimeSpan,
}

impl AnimationClock {
    /// The clock is well formed: a frame is current and every span is normal.
    pub open spec fn wf(&self) -> bool {
        &&& self.current_frame < self.frame_delays@.len()
        &&& self.min_delay.wf()
        &&& forall|k: int| 0 <= k < self.frame_delays@.len() ==> (#[trigger] self.frame_delays@[k]).wf()
    }

    /// A clock at the first of the given frames.
    pub fn new(frame_delays: Vec<TimeSpan>, min_delay: TimeSpan) -> (c: AnimationClock)
        requires
            frame_delays@.len() > 0,
            min_delay.wf(),
            forall|k: int| 0 <= k < frame_delays@.len() ==> (#[trigger] frame_delays@[k]).wf(),
        ensures
            c.wf(),
            c.frame_delays@ == frame_delays@,
            c.current_frame == 0,
            c.min_delay == min_delay,
    {
        AnimationClock { frame_delays, current_frame: 0, min_delay }
    }

    /// How long the current frame stays up: its delay, but no less than the minimum.
    pub fn current_delay(&self) -> (r: TimeSpan)
        requires
            self.wf(),
        ensures
            r.wf(),
            r.total() == shown_for(self.frame_delays@, self.min_delay, self.current_frame as int),
    {
        self.frame_delays[self.current_frame].max(self.min_delay)
    }

    /// Advance to the next frame, returning true if it wrapped to the first.
    pub fn advance(&mut self) -> (looped: bool)
        requires
            old(self).wf(),
        ensures
            final(self).wf(),
            final(self).frame_delays == old(self).frame_delays,
            final(self).min_delay == old(self).min_delay,
            final(self).current_frame == crate::state::step_forward(
                old(self).current_frame as int,
                old(self).frame_delays@.len() as int,
            ),
            looped == (final(self).current_frame == 0),
    {
        let n = self.frame_delays.len();
        self.current_frame = self.current_frame + 1;
        if self.current_frame >= n {
            self.current_frame = 0;
            true
        } else {
            false
        }
    }

    /// Number of frames.
    pub fn frame_count(&self) -> (r: usize)
        ensures
            r == self.frame_delays@.len(),
    {
        self.frame_delays.len()
    }
}

/// Reconnection delays that double after each failure, up to a cap.
#[derive(Debug, Clone, Copy)]
pub struct Backoff {
    /// The wait before the next attempt
    pub current: TimeSpan,
    /// The wait after a success
    pub initial: TimeSpan,
    /// The longest wait
    pub max: TimeSpan,
}

impl Backoff {
    /// The waits are normal and the current one within the cap.
    pub open spec fn wf(&self) -> bool {
        &&& self.current.wf()
        &&& self.initial.wf()
        &&& self.max.wf()
        &&& self.current.total() <= self.max.total()
        &&& self.initial.total() <= self.max.total()
    }

    /// A backoff starting at `initial` and capped at `max`.
    pub fn new(initial: TimeSpan, max: TimeSpan) -> (b: Backoff)
        requires
            initial.wf(),
            max.wf(),
            initial.total() <= max.total(),
        ensures
            b.wf(),
            b.current == initial,
            b.initial == initial,
            b.max == max,
    {
        Backoff { current: initial, initial, max }
    }

    /// How long to wait before the next attempt, `elapsed` after the last one.
    pub fn delay(&self, elapsed: TimeSpan) -> (r: TimeSpan)
        requires
            self.wf(),
            elapsed.wf(),
        ensures
            r.wf(),
            r.total() == if elapsed.total() < self.current.total() {
                self.current.total() - elapsed.total()
            } else {
                0
            },
    {
        self.current.saturating_sub(elapsed)
    }

    /// After a failed attempt: wait twice as long, up to the cap.
    pub fn fail(&mut self)
        requires
            old(self).wf(),
        ensures
            final(self).wf(),
            final(self).initial == old(self).initial,
            final(self).max == old(self).max,
            final(self).current.total() == doubled_capped(old(self).current.total(), old(self).max.total()),
    {
        self.current = self.current.double_capped(self.max);
    }

    /// After a success: back to the initial wait.
    pub fn reset(&mut self)
        requires
            old(self).wf(),
        ensures
            final(self).wf(),
            final(self).current == old(self).initial,
            final(self).initial == old(self).initial,
            final(self).max == old(self).max,
    {
        self.current = self.initial;
    }
}

/// The state of a connection the daemon keeps alive (the X server's, gar's): whether it is
/// lost and waiting to be made again, and the backoff between attempts.
#[derive(Debug, Clone, Copy)]
pub struct ConnectionWatch {
    /// The connection is lost and a reconnection is due
    pub needs_reconnect: bool,
    /// The wait between reconnection attempts
    pub backoff: Backoff,
}

impl ConnectionWatch {
    /// The backoff is well formed.
    pub open spec fn wf(&self) -> bool {
        self.backoff.wf()
    }

    /// Watches a connection that is up (or down, where `connected` is false), with waits
    /// starting at `initial` and capped at `max`.
    pub fn new(connected: bool, initial: TimeSpan, max: TimeSpan) -> (w: ConnectionWatch)
        requires
            initial.wf(),
            max.wf(),
            initial.total() <= max.total(),
        ensures
            w.wf(),
            w.needs_reconnect == !connected,
            w.backoff.current == initial,
            w.backoff.initial == initial,
            w.backoff.max == max,
    {
        ConnectionWatch { needs_reconnect: !connected, backoff: Backoff::new(initial, max) }
    }

    /// The watch over the connection to gar: waits from 1 s, doubling up to 60 s.
    pub fn for_gar(connected: bool) -> (w: ConnectionWatch)
        ensures
            w.wf(),
            w.needs_reconnect == !connected,
            w.backoff.current.total() == 1_000_000_000,
            w.backoff.initial.total() == 1_000_000_000,
            w.backoff.max.total() == 60_000_000_000,
    {
        ConnectionWatch::new(connected, TimeSpan::from_secs(1), TimeSpan::from_secs(60))
    }

    /// The watch over the connection to the X server, which starts up: waits from 1 s,
    /// doubling up to 30 s.
    pub fn for_x11() -> (w: ConnectionWatch)
        ensures
            w.wf(),
            !w.needs_reconnect,
            w.backoff.current.total() == 1_000_000_000,
            w.backoff.initial.total() == 1_000_000_000,
            w.backoff.max.total() == 30_000_000_000,
    {
        ConnectionWatch::new(true, TimeSpan::from_secs(1), TimeSpan::from_secs(30))
    }

    /// How often the X connection is checked: every 5 s.
    pub fn x11_health_interval() -> (r: TimeSpan)
        ensures
            r.wf(),
            r.total() == 5_000_000_000,
    {
        TimeSpan::from_secs(5)
    }

    /// Whether the connection is to be checked now: it is up and `since_check` has reached
    /// the check interval.
    pub fn health_check_due(&self, since_check: TimeSpan, interval: TimeSpan) -> (r: bool)
        requires
            since_check.wf(),
            interval.wf(),
        ensures
            r == (!self.needs_reconnect && since_check.total() >= interval.total()),
    {
        !self.needs_reconnect && !since_check.lt(&interval)
    }

    /// The connection was found dead, or its reader failed: a reconnection is due. The
    /// backoff is kept.
    pub fn lost(&mut self)
        ensures
            final(self).needs_reconnect,
            final(self).backoff == old(self).backoff,
    {
        self.needs_reconnect = true;
    }

    /// How long to wait before the next reconnection attempt, `elapsed` after the last one;
    /// nothing while the connection is up.
    pub fn reconnect_delay(&self, elapsed: TimeSpan) -> (r: Option<TimeSpan>)
        requires
            self.wf(),
            elapsed.wf(),
        ensures
            match r {
                Some(d) => self.needs_reconnect && d.wf() && d.total() == if elapsed.total() < self.backoff.current.total() {
                    self.backoff.current.total() - elapsed.total()
                } else {
                    0
                },
                None => !self.needs_reconnect,
            },
    {
        if self.needs_reconnect {
            Some(self.backoff.delay(elapsed))
        } else {
            None
        }
    }

    /// The outcome of a reconnection attempt: on success the connection is up and the wait
    /// back to the initial one; on failure the wait doubles, up to the cap.
    pub fn attempted(&mut self, success: bool)
        requires
            old(self).wf(),
        ensures
            final(self).wf(),
            final(self).needs_reconnect == (old(self).needs_reconnect && !success),
            final(self).backoff.initial == old(self).backoff.initial,
            final(self).backoff.max == old(self).backoff.max,
            final(self).backoff.current.total() == wait_step(
                old(self).backoff.current.total(),
                success,
                old(self).backoff.initial.total(),
                old(self).backoff.max.total(),
            ),
    {
        if success {
            self.needs_reconnect = false;
            self.backoff.reset();
        } else {
            self.backoff.fail();
        }
    }

    /// Something arrived over the connection: it works, so the wait goes back to the
    /// initial one.
    pub fn heard(&mut self)
        requires
            old(self).wf(),
        ensures
            final(self).wf(),
            final(self).needs_reconnect == old(self).needs_reconnect,
            final(self).backoff.current == old(self).backoff.initial,
            final(self).backoff.initial == old(self).backoff.initial,
            final(self).backoff.max == old(self).backoff.max,
    {
        self.backoff.reset();
    }
}

/// The wait after one more failure: twice the wait, up to the cap.
pub open spec fn doubled_capped(cur: int, max: int) -> int {
    if 2 * cur <= max {
        2 * cur
    } else {
        max
    }
}

/// The wait after `k` failures in a row, starting from `initial`.
pub open spec fn wait_after_failures(initial: int, max: int, k: nat) -> int
    decreases k,
{
    if k == 0 {
        initial
    } else {
        doubled_capped(wait_after_failures(initial, max, (k - 1) as nat), max)
    }
}

/// Two to the power `k`.
pub open spec fn two_to(k: nat) -> int
    decreases k,
{
    if k == 0 {
        1
    } else {
        2 * two_to((k - 1) as nat)
    }
}

proof fn lemma_two_to_positive(k: nat)
    ensures
        two_to(k) >= 1,
    decreases k,
{
    if k > 0 {
        lemma_two_to_positive((k - 1) as nat);
    }
}

/// Backoff law: after `k` failures in a row (each a `fail`), the wait is the initial one
/// doubled `k` times, or the cap if that is smaller; so failures never shorten the wait and
/// never pass the cap. A success (`reset`) brings back the initial wait.
pub proof fn law_backoff(initial: int, max: int, k: nat)
    requires
        0 <= initial <= max,
    ensures
        wait_after_failures(initial, max, k) == if initial * two_to(k) <= max {
            initial * two_to(k)
        } else {
            max
        },
        initial <= wait_after_failures(initial, max, k) <= wait_after_failures(initial, max, k + 1) <= max,
    decreases k,
{
    if k > 0 {
        law_backoff(initial, max, (k - 1) as nat);
        let p = two_to((k - 1) as nat);
        assert(initial * two_to(k) == 2 * (initial * p)) by (nonlinear_arith)
            requires two_to(k) == 2 * p;
        lemma_two_to_positive((k - 1) as nat);
        assert(initial * p >= initial) by (nonlinear_arith)
            requires initial >= 0, p >= 1;
    }
}

/// The wait after a reconnection attempt (or, for `ok`, after anything that shows the
/// connection works): the initial wait after a success, else twice the wait up to the cap.
pub open spec fn wait_step(cur: int, ok: bool, initial: int, max: int) -> int {
    if ok {
        initial
    } else {
        doubled_capped(cur, max)
    }
}

/// The wait after a run of outcomes, in order, starting from the initial wait.
pub open spec fn wait_after_outcomes(initial: int, max: int, outcomes: Seq<bool>) -> int
    decreases outcomes.len(),
{
    if outcomes.len() == 0 {
        initial
    } else {
        wait_step(wait_after_outcomes(initial, max, outcomes.drop_last()), outcomes.last(), initial, max)
    }
}

/// The number of failures at the end of a run of outcomes.
pub open spec fn trailing_failures(outcomes: Seq<bool>) -> nat
    decreases outcomes.len(),
{
    if outcomes.len() == 0 || outcomes.last() {
        0
    } else {
        trailing_failures(outcomes.drop_last()) + 1
    }
}

/// Reconnection law: whatever happened before, the wait after a run of outcomes depends
/// only on the failed attempts since the last success: the initial wait doubled once for
/// each, or the cap if that is smaller. With waits from 1 s capped at 60 s (gar) or 30 s
/// (X), the wait before the `j`-th attempt in a row is min(2^(j-1), cap) seconds.
pub proof fn law_reconnect_waits(initial: int, max: int, outcomes: Seq<bool>)
    requires
        0 <= initial <= max,
    ensures
        wait_after_outcomes(initial, max, outcomes) == wait_after_failures(initial, max, trailing_failures(outcomes)),
        wait_after_outcomes(initial, max, outcomes) == if initial * two_to(trailing_failures(outcomes)) <= max {
            initial * two_to(trailing_failures(outcomes))
        } else {
            max
        },
    decreases outcomes.len(),
{
    if outcomes.len() > 0 {
        law_reconnect_waits(initial, max, outcomes.drop_last());
    }
    law_backoff(initial, max, trailing_failures(outcomes));
}

/// Playback law: an animation advanced as many times as it has frames is back at the frame
/// it started from, and every advance stays on a frame.
pub proof fn law_animation_cycles(i: int, n: int)
    requires
        0 <= i < n,
    ensures
        crate::state::steps_forward(i, n, n as nat) == i,
        0 <= crate::state::step_forward(i, n) < n,
{
    crate::state::law_full_cycle(i, n, n as nat);
}

/// What becomes of the next animation frame's due time after a client command.
#[derive(Debug, Clone, Copy, PartialEq, Eq, Structural)]
pub enum DeadlineUpdate {
    /// Left as it is
    Keep,
    /// Due at once: an animation started
    StartNow,
    /// Dropped: no animation runs
    Clear,
}

/// The animation timer runs when a frame is due, playback is not paused, and an animation
/// is playing.
pub fn animation_timer_armed(frame_due: bool, paused: bool, animating: bool) -> (r: bool)
    ensures
        r == (frame_due && !paused && animating),
{
    frame_due && !paused && animating
}

/// The slideshow timer runs when a change is due, playback is not paused, and no animation
/// is playing.
pub fn slideshow_timer_armed(change_due: bool, paused: bool, animating: bool) -> (r: bool)
    ensures
        r == (change_due && !paused && !animating),
{
    change_due && !paused && !animating
}

/// After a client command: an animation that has just started gets a frame at once, and
/// without an animation no frame is due.
pub fn animation_deadline_after_command(frame_due: bool, animating: bool) -> (r: DeadlineUpdate)
    ensures
        r == if !animating {
            DeadlineUpdate::Clear
        } else if !frame_due {
            DeadlineUpdate::StartNow
        } else {
            DeadlineUpdate::Keep
        },
{
    if !animating {
        DeadlineUpdate::Clear
    } else if !frame_due {
        DeadlineUpdate::StartNow
    } else {
        DeadlineUpdate::Keep
    }
}

} // verus!
