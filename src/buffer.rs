//! The frame buffer of frame-aware scaling: a bounded history of frame
//! durations, the frame rates derived from it, target detection and the
//! usability debounce.
use vstd::multiset::Multiset;
use vstd::prelude::*;

verus! {

/// Frames kept per frame per second of target: five seconds of history.
pub const SECONDS_KEPT: u64 = 5;

/// Target assumed for the capacity while no target is known.
pub const DEFAULT_CAPACITY_FPS: u64 = 144;

/// Window of the short average while no target is known.
pub const DEFAULT_SHORT_WINDOW: u64 = 60;

/// Samples needed before the buffer can become usable.
pub const MIN_USABLE_SAMPLES: usize = 60;

/// Time that must pass after an unusable mark before the buffer is usable.
pub const SETTLE_MS: u64 = 1000;

/// Largest number of frames a buffer can hold: five times the largest target.
pub open spec fn max_frames() -> nat {
    5 * (u32::MAX as nat)
}

/// Sum of a sequence of frame durations.
pub open spec fn sum(s: Seq<u32>) -> nat
    decreases s.len(),
{
    if s.len() == 0 {
        0
    } else {
        sum(s.drop_last()) + s.last() as nat
    }
}

/// A frame rate as `frames` frames over `micros` microseconds; zero when no
/// time has passed.
#[derive(Clone, Copy, Debug, PartialEq, Eq, Structural)]
pub struct Fps {
    pub frames: u64,
    pub micros: u128,
}

impl Fps {
    pub open spec fn wf(self) -> bool {
        &&& self.frames as nat <= max_frames()
        &&& self.micros as nat <= max_frames() * (u32::MAX as nat)
    }

    /// The rate is below `x` frames per second.
    pub open spec fn below(self, x: int) -> bool {
        if self.micros == 0 {
            0 < x
        } else {
            self.frames * 1_000_000 < x * self.micros
        }
    }

    /// The rate is at most `x` frames per second.
    pub open spec fn at_most(self, x: int) -> bool {
        if self.micros == 0 {
            0 <= x
        } else {
            self.frames * 1_000_000 <= x * self.micros
        }
    }

    /// The rate in thousandths of a frame per second, rounded down.
    pub open spec fn spec_millis(self) -> nat {
        if self.micros == 0 {
            0
        } else {
            (self.frames * 1_000_000_000) as nat / (self.micros as nat)
        }
    }

    pub fn zero() -> (r: Fps)
        ensures
            r.frames == 0,
            r.micros == 0,
            r.wf(),
    {
        Fps { frames: 0, micros: 0 }
    }

    /// The rate in thousandths of a frame per second, rounded down.
    pub fn millis(&self) -> (r: u128)
        requires
            self.wf(),
        ensures
            r == self.spec_millis(),
    {
        if self.micros == 0 {
            0
        } else {
            (self.frames as u128) * 1_000_000_000 / self.micros
        }
    }

    pub fn is_below(&self, x: u64) -> (r: bool)
        requires
            self.wf(),
            x <= u32::MAX as u64 + 16,
        ensures
            r == self.below(x as int),
    {
        if self.micros == 0 {
            0 < x
        } else {
            proof {
                assert((x as nat) * (self.micros as nat) <= (u32::MAX as nat + 16) * (max_frames() * (u32::MAX as nat))) by (nonlinear_arith)
                    requires x as nat <= u32::MAX as nat + 16, self.micros as nat <= max_frames() * (u32::MAX as nat);
                lemma_product_bound();
            }
            (self.frames as u128) * 1_000_000 < (x as u128) * self.micros
        }
    }

    pub fn is_at_most(&self, x: u64) -> (r: bool)
        requires
            self.wf(),
            x <= u32::MAX as u64 + 16,
        ensures
            r == self.at_most(x as int),
    {
        if self.micros == 0 {
            true
        } else {
            proof {
                assert((x as nat) * (self.micros as nat) <= (u32::MAX as nat + 16) * (max_frames() * (u32::MAX as nat))) by (nonlinear_arith)
                    requires x as nat <= u32::MAX as nat + 16, self.micros as nat <= max_frames() * (u32::MAX as nat);
                lemma_product_bound();
            }
            (self.frames as u128) * 1_000_000 <= (x as u128) * self.micros
        }
    }
}

proof fn lemma_product_bound()
    ensures
        (u32::MAX as nat + 16) * (max_frames() * (u32::MAX as nat)) < u128::MAX,
        max_frames() * 1_000_000_000 < u128::MAX,
{
    assert(max_frames() == 21474836475);
    assert(21474836475nat * 4294967295nat == 92233720325598085125nat);
    assert(4294967311nat * 92233720325598085125nat == 396140813770360052136070348875nat);
    assert(21474836475nat * 1_000_000_000nat == 21474836475000000000nat);
}

proof fn lemma_sum_bound(s: Seq<u32>)
    ensures
        sum(s) <= s.len() * (u32::MAX as nat),
    decreases s.len(),
{
    if s.len() > 0 {
        lemma_sum_bound(s.drop_last());
        assert(sum(s.drop_last()) + s.last() as nat <= (s.len() - 1) * (u32::MAX as nat) + u32::MAX as nat);
        assert((s.len() - 1) * (u32::MAX as nat) + u32::MAX as nat == s.len() * (u32::MAX as nat)) by (nonlinear_arith);
    }
}

/// Sum of the first `k` frame durations.
fn sum_first(s: &Vec<u32>, k: usize) -> (r: u128)
    requires
        k <= s@.len(),
        s@.len() <= max_frames(),
    ensures
        r as nat == sum(s@.take(k as int)),
        r as nat <= max_frames() * (u32::MAX as nat),
{
    let mut total: u128 = 0;
    let mut i: usize = 0;
    while i < k
        invariant
            i <= k,
            k <= s@.len(),
            s@.len() <= max_frames(),
            total as nat == sum(s@.take(i as int)),
        decreases k - i,
    {
        proof {
            lemma_sum_bound(s@.take(i as int));
            assert(i * (u32::MAX as nat) <= max_frames() * (u32::MAX as nat)) by (nonlinear_arith)
                requires i <= max_frames();
            assert(s@.take(i as int + 1).drop_last() =~= s@.take(i as int));
        }
        total = total + s[i] as u128;
        i = i + 1;
    }
    proof {
        lemma_sum_bound(s@.take(k as int));
        assert(k * (u32::MAX as nat) <= max_frames() * (u32::MAX as nat)) by (nonlinear_arith)
            requires k <= max_frames();
    }
    total
}

} // verus!

verus! {

/// Whether the buffer's samples can be trusted for a decision.
#[derive(Clone, Copy, Debug, PartialEq, Eq, Structural)]
pub enum BufferState {
    Unusable,
    Usable,
}

/// The candidate targets of a package: one rate or a set of rates.
#[derive(Clone, Debug)]
pub enum TargetFps {
    Single(u32),
    Array(Vec<u32>),
}

pub open spec fn sorted(s: Seq<u32>) -> bool {
    forall|i: int, j: int| 0 <= i <= j < s.len() ==> s[i] <= s[j]
}

/// Relies on `slice::sort`: the elements come back in ascending order and
/// none is added or lost.
#[verifier::external_body]
pub(crate) fn sort_ascending(v: &mut Vec<u32>)
    ensures
        sorted(final(v)@),
        final(v)@.to_multiset() == old(v)@.to_multiset(),
        final(v)@.len() == old(v)@.len(),
{
    v.sort();
}

impl Default for TargetFps {
    /// Sixty frames per second.
    fn default() -> (r: TargetFps)
        ensures
            r == TargetFps::Single(60),
    {
        TargetFps::Single(60)
    }
}

impl TargetFps {
    /// The candidates as a multiset.
    pub open spec fn spec_candidates(&self) -> Multiset<u32> {
        match self {
            TargetFps::Single(v) => seq![*v].to_multiset(),
            TargetFps::Array(a) => a@.to_multiset(),
        }
    }

    /// The candidates in ascending order.
    pub fn values(&self) -> (r: Vec<u32>)
        ensures
            sorted(r@),
            r@.to_multiset() == self.spec_candidates(),
    {
        match self {
            TargetFps::Single(v) => {
                let r = vec![*v];
                proof {
                    assert(r@ =~= seq![*v]);
                }
                r
            },
            TargetFps::Array(a) => {
                let mut s = a.clone();
                proof {
                    assert(s@ =~= a@);
                }
                sort_ascending(&mut s);
                s
            },
        }
    }
}

/// The mathematical content of a frame buffer.
pub struct BufferModel {
    /// Frame durations in microseconds, newest first.
    pub frames: Seq<u32>,
    pub fps_long: Fps,
    pub fps_short: Fps,
    pub target: Option<u32>,
    /// Candidate targets, ascending.
    pub candidates: Seq<u32>,
    pub state: BufferState,
    pub last_update_ms: u64,
    pub unusable_since_ms: Option<u64>,
}

/// Milliseconds from `since` to `now`, zero when `now` is earlier.
pub open spec fn elapsed(since: u64, now: u64) -> int {
    if now >= since {
        now - since
    } else {
        0
    }
}

/// The candidate chosen for a long-run rate: the smallest one that the
/// rate does not exceed by more than three, else the largest.
pub open spec fn pick_target(c: Seq<u32>, f: Fps) -> u32
    recommends
        c.len() > 0,
    decreases c.len(),
{
    if c.len() <= 1 {
        c[0]
    } else if f.at_most(c[0] + 3) {
        c[0]
    } else {
        pick_target(c.drop_first(), f)
    }
}

/// The rate below which the target is dropped: ten under the smallest
/// candidate, and never under ten.
pub open spec fn idle_floor(c: Seq<u32>) -> int {
    let f = if c[0] >= 10 { c[0] - 10 } else { 0 };
    if f < 10 { 10 } else { f }
}

impl BufferModel {
    pub open spec fn wf(self) -> bool {
        &&& self.frames.len() <= max_frames()
        &&& self.fps_long.wf()
        &&& self.fps_short.wf()
        &&& sorted(self.candidates)
        &&& (self.target matches Some(t) ==> self.candidates.contains(t))
    }

    /// Most frames kept: five times the target, or five times 144 while no
    /// target is known.
    pub open spec fn capacity(self) -> nat {
        5 * match self.target {
            Some(t) => t as nat,
            None => DEFAULT_CAPACITY_FPS as nat,
        }
    }

    /// Number of frames of the short average.
    pub open spec fn short_window(self) -> nat {
        let w = match self.target {
            Some(t) => t as nat,
            None => DEFAULT_SHORT_WINDOW as nat,
        };
        if w < self.frames.len() { w } else { self.frames.len() }
    }

    /// The newest frame is added; the oldest leave so that at most the
    /// capacity remains (one frame where the capacity is zero).
    pub open spec fn with_frame(self, ft: u32) -> BufferModel {
        let cap = self.capacity();
        let keep = if cap == 0 {
            0
        } else if self.frames.len() < cap {
            self.frames.len() as int
        } else {
            cap - 1
        };
        BufferModel { frames: seq![ft] + self.frames.take(keep), ..self }
    }

    /// Both rates recomputed from the frames.
    pub open spec fn with_rates(self) -> BufferModel {
        let n = self.frames.len();
        let k = self.short_window();
        BufferModel {
            fps_long: Fps { frames: n as u64, micros: sum(self.frames) as u128 },
            fps_short: Fps { frames: k as u64, micros: sum(self.frames.take(k as int)) as u128 },
            ..self
        }
    }

    /// An unusable buffer with enough samples that has waited long enough
    /// becomes usable.
    pub open spec fn can_settle(self, now: u64) -> bool {
        &&& self.state == BufferState::Unusable
        &&& self.unusable_since_ms is Some
        &&& elapsed(self.unusable_since_ms.unwrap(), now) >= SETTLE_MS
        &&& self.frames.len() >= MIN_USABLE_SAMPLES
    }

    pub open spec fn settled(self, now: u64) -> BufferModel {
        if self.can_settle(now) {
            BufferModel { state: BufferState::Usable, unusable_since_ms: None, ..self }
        } else {
            self
        }
    }

    pub open spec fn marked_unusable(self, now: u64) -> BufferModel {
        BufferModel { state: BufferState::Unusable, unusable_since_ms: Some(now), ..self }
    }

    /// Target detection from the long-run rate: under the idle floor the
    /// target is dropped and the buffer marked unusable; otherwise the
    /// picked candidate becomes the target.
    pub open spec fn with_target(self, now: u64) -> BufferModel {
        if self.candidates.len() == 0 {
            self
        } else if self.fps_long.below(idle_floor(self.candidates)) {
            BufferModel { target: None, ..self }.marked_unusable(now)
        } else {
            BufferModel { target: Some(pick_target(self.candidates, self.fps_long)), ..self }
        }
    }

    /// One frame duration pushed at time `now`.
    pub open spec fn push(self, ft: u32, now: u64) -> BufferModel {
        BufferModel { last_update_ms: now, ..self }.with_frame(ft).with_rates().settled(now).with_target(
            now,
        )
    }

    /// All samples and the target dropped; the buffer is marked unusable.
    pub open spec fn cleared(self, now: u64) -> BufferModel {
        BufferModel {
            frames: Seq::empty(),
            fps_long: Fps { frames: 0, micros: 0 },
            fps_short: Fps { frames: 0, micros: 0 },
            target: None,
            ..self
        }.marked_unusable(now)
    }
}

/// A bounded history of frame durations with the rates derived from it.
pub struct FrameBuffer {
    /// Frame durations in microseconds, newest first.
    pub frametimes: Vec<u32>,
    pub fps_long: Fps,
    pub fps_short: Fps,
    pub target_fps: Option<u32>,
    /// Candidate targets, ascending.
    pub candidates: Vec<u32>,
    pub state: BufferState,
    pub last_update_ms: u64,
    pub unusable_since_ms: Option<u64>,
}

impl View for FrameBuffer {
    type V = BufferModel;

    open spec fn view(&self) -> BufferModel {
        BufferModel {
            frames: self.frametimes@,
            fps_long: self.fps_long,
            fps_short: self.fps_short,
            target: self.target_fps,
            candidates: self.candidates@,
            state: self.state,
            last_update_ms: self.last_update_ms,
            unusable_since_ms: self.unusable_since_ms,
        }
    }
}

} // verus!

verus! {

impl FrameBuffer {
    /// An empty, unusable buffer for the given candidate targets, created
    /// at time `now_ms`.
    pub fn new(target_fps_config: &TargetFps, now_ms: u64) -> (r: FrameBuffer)
        ensures
            r@.wf(),
            r@.frames.len() == 0,
            r@.candidates.to_multiset() == target_fps_config.spec_candidates(),
            r@.target is None,
            r@.state == BufferState::Unusable,
            r@.unusable_since_ms == Some(now_ms),
            r@.last_update_ms == now_ms,
            r@.fps_long == Fps::zero_spec(),
            r@.fps_short == Fps::zero_spec(),
    {
        FrameBuffer {
            frametimes: Vec::new(),
            fps_long: Fps::zero(),
            fps_short: Fps::zero(),
            target_fps: None,
            candidates: target_fps_config.values(),
            state: BufferState::Unusable,
            last_update_ms: now_ms,
            unusable_since_ms: Some(now_ms),
        }
    }

    /// Replaces the candidate targets; a target that is no longer a
    /// candidate is dropped.
    pub fn set_target_fps_config(&mut self, target_fps_config: &TargetFps)
        requires
            old(self)@.wf(),
        ensures
            final(self)@.wf(),
            final(self)@.candidates.to_multiset() == target_fps_config.spec_candidates(),
            final(self)@.target == (if old(self)@.target matches Some(t) && final(self)@.candidates.contains(t) {
                old(self)@.target
            } else {
                None
            }),
            final(self)@ == (BufferModel {
                candidates: final(self)@.candidates,
                target: final(self)@.target,
                ..old(self)@
            }),
    {
        let c = target_fps_config.values();
        if let Some(t) = self.target_fps {
            let mut found = false;
            let mut i: usize = 0;
            while i < c.len()
                invariant
                    i <= c@.len(),
                    found <==> exists|j: int| 0 <= j < i && c@[j] == t,
                decreases c.len() - i,
            {
                if c[i] == t {
                    found = true;
                }
                i = i + 1;
            }
            if !found {
                self.target_fps = None;
            }
        }
        self.candidates = c;
    }

    /// Marks the buffer unusable from time `now_ms` on.
    pub fn mark_unusable(&mut self, now_ms: u64)
        ensures
            final(self)@ == old(self)@.marked_unusable(now_ms),
    {
        self.state = BufferState::Unusable;
        self.unusable_since_ms = Some(now_ms);
    }

    /// Drops every sample and the target, and marks the buffer unusable.
    pub fn clear(&mut self, now_ms: u64)
        requires
            old(self)@.wf(),
        ensures
            final(self)@ == old(self)@.cleared(now_ms),
            final(self)@.wf(),
    {
        self.frametimes.clear();
        self.fps_long = Fps::zero();
        self.fps_short = Fps::zero();
        self.target_fps = None;
        self.mark_unusable(now_ms);
        proof {
            assert(self@.frames =~= Seq::<u32>::empty());
        }
    }

    /// Milliseconds since the last sample was pushed.
    pub fn time_since_last_frame(&self, now_ms: u64) -> (r: u64)
        ensures
            r == elapsed(self.last_update_ms, now_ms),
    {
        if now_ms >= self.last_update_ms {
            now_ms - self.last_update_ms
        } else {
            0
        }
    }

    fn update_fps(&mut self)
        requires
            old(self)@.wf(),
        ensures
            final(self)@ == old(self)@.with_rates(),
            final(self)@.wf(),
    {
        let n = self.frametimes.len();
        let total = sum_first(&self.frametimes, n);
        proof {
            assert(self.frametimes@.take(n as int) =~= self.frametimes@);
        }
        let w: u64 = match self.target_fps {
            Some(t) => t as u64,
            None => DEFAULT_SHORT_WINDOW,
        };
        let k: usize = if w < n as u64 { w as usize } else { n };
        let short = sum_first(&self.frametimes, k);
        self.fps_long = Fps { frames: n as u64, micros: total };
        self.fps_short = Fps { frames: k as u64, micros: short };
    }

    fn try_become_usable(&mut self, now_ms: u64)
        ensures
            final(self)@ == old(self)@.settled(now_ms),
    {
        if self.state == BufferState::Unusable && self.frametimes.len() >= MIN_USABLE_SAMPLES {
            if let Some(since) = self.unusable_since_ms {
                let waited = if now_ms >= since { now_ms - since } else { 0 };
                if waited >= SETTLE_MS {
                    self.state = BufferState::Usable;
                    self.unusable_since_ms = None;
                }
            }
        }
    }

    fn detect_target_fps(&mut self, now_ms: u64)
        requires
            old(self)@.wf(),
        ensures
            final(self)@ == old(self)@.with_target(now_ms),
            final(self)@.wf(),
    {
        let n = self.candidates.len();
        if n == 0 {
            return;
        }
        let first = self.candidates[0];
        let floor0: u64 = if first >= 10 { (first - 10) as u64 } else { 0 };
        let floor: u64 = if floor0 < 10 { 10 } else { floor0 };
        if self.fps_long.is_below(floor) {
            self.target_fps = None;
            self.mark_unusable(now_ms);
            return;
        }
        let mut i: usize = 0;
        proof {
            assert(self.candidates@.subrange(0, n as int) =~= self.candidates@);
        }
        while i + 1 < n && !self.fps_long.is_at_most(self.candidates[i] as u64 + 3)
            invariant
                n == self.candidates@.len(),
                n > 0,
                i < n,
                self@ == old(self)@,
                old(self)@.wf(),
                pick_target(self.candidates@, self.fps_long) == pick_target(
                    self.candidates@.subrange(i as int, n as int),
                    self.fps_long,
                ),
            decreases n - i,
        {
            proof {
                let s = self.candidates@.subrange(i as int, n as int);
                assert(s.drop_first() =~= self.candidates@.subrange(i as int + 1, n as int));
            }
            i = i + 1;
        }
        proof {
            let s = self.candidates@.subrange(i as int, n as int);
            assert(s[0] == self.candidates@[i as int]);
        }
        self.target_fps = Some(self.candidates[i]);
    }

    /// Adds the duration of one frame, in microseconds, at time `now_ms`:
    /// the oldest frames leave to respect the capacity, the rates are
    /// recomputed, the buffer may become usable, and the target follows the
    /// long-run rate.
    pub fn push(&mut self, frametime_us: u32, now_ms: u64)
        requires
            old(self)@.wf(),
        ensures
            final(self)@ == old(self)@.push(frametime_us, now_ms),
            final(self)@.wf(),
    {
        self.last_update_ms = now_ms;
        let cap: u64 = SECONDS_KEPT * match self.target_fps {
            Some(t) => t as u64,
            None => DEFAULT_CAPACITY_FPS,
        };
        let len = self.frametimes.len();
        let keep: usize = if cap == 0 {
            0
        } else if (len as u64) < cap {
            len
        } else {
            (cap - 1) as usize
        };
        let ghost before = self@;
        self.frametimes.truncate(keep);
        self.frametimes.insert(0, frametime_us);
        proof {
            assert(cap == before.capacity());
            assert(self.frametimes@ =~= seq![frametime_us] + before.frames.take(keep as int));
            assert(self@ == before.with_frame(frametime_us));
            assert(self@.frames.len() <= max_frames());
        }
        self.update_fps();
        self.try_become_usable(now_ms);
        self.detect_target_fps(now_ms);
    }
}

impl Fps {
    pub open spec fn zero_spec() -> Fps {
        Fps { frames: 0, micros: 0 }
    }
}

} // verus!

verus! {

proof fn lemma_sum_constant(s: Seq<u32>, d: u32)
    requires
        forall|i: int| 0 <= i < s.len() ==> s[i] == d,
    ensures
        sum(s) == s.len() * (d as nat),
    decreases s.len(),
{
    if s.len() > 0 {
        lemma_sum_constant(s.drop_last(), d);
        assert((s.len() - 1) * (d as nat) + d as nat == s.len() * (d as nat)) by (nonlinear_arith);
    }
}

/// A stream of frames of one constant duration `d` keeps only frames of
/// that duration, and the long-run rate is then exactly one frame per `d`
/// microseconds: `frames * d == micros`, i.e. `1_000_000 / d` frames per
/// second.
pub proof fn lemma_constant_stream(b: BufferModel, d: u32, now: u64)
    requires
        b.wf(),
        forall|i: int| 0 <= i < b.frames.len() ==> b.frames[i] == d,
    ensures
        forall|i: int|
            0 <= i < b.push(d, now).frames.len() ==> b.push(d, now).frames[i] == d,
        b.push(d, now).fps_long.frames == b.push(d, now).frames.len(),
        b.push(d, now).fps_long.frames * (d as nat) == b.push(d, now).fps_long.micros,
{
    let a = BufferModel { last_update_ms: now, ..b }.with_frame(d);
    assert forall|i: int| 0 <= i < a.frames.len() implies a.frames[i] == d by {
        if i > 0 {
            assert(a.frames[i] == b.frames[i - 1]);
        }
    }
    lemma_sum_constant(a.frames, d);
    lemma_sum_bound(a.frames);
    let c = b.push(d, now);
    assert(c.frames == a.frames);
}

/// An unusable buffer becomes usable on a push only with at least sixty
/// samples and a full second after it was last marked unusable. A push
/// whose long-run rate falls under the idle floor drops the target and
/// marks the buffer unusable at that moment; a push that drops the target
/// does so only then.
pub proof fn lemma_usable_transition(b: BufferModel, ft: u32, now: u64)
    requires
        b.wf(),
    ensures
        b.state == BufferState::Unusable && b.push(ft, now).state == BufferState::Usable ==> {
            &&& b.push(ft, now).frames.len() >= MIN_USABLE_SAMPLES
            &&& b.unusable_since_ms is Some
            &&& elapsed(b.unusable_since_ms.unwrap(), now) >= SETTLE_MS
        },
        b.candidates.len() > 0 && b.push(ft, now).fps_long.below(idle_floor(b.candidates)) ==> {
            &&& b.push(ft, now).target is None
            &&& b.push(ft, now).state == BufferState::Unusable
            &&& b.push(ft, now).unusable_since_ms == Some(now)
        },
        b.target is Some && b.push(ft, now).target is None ==> {
            &&& b.push(ft, now).state == BufferState::Unusable
            &&& b.push(ft, now).unusable_since_ms == Some(now)
        },
{
}

} // verus!
