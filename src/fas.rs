//! The frame-aware scaling controller: from a frame sample, the buffer
//! and a temperature to a boost, maintain or reduce decision.
use crate::buffer::{BufferModel, BufferState, Fps, FrameBuffer, TargetFps};
use vstd::prelude::*;

verus! {

/// The fine-grained decision of one sub-tick.
#[derive(Clone, Copy, Debug, PartialEq, Eq, Structural)]
pub enum ScalingAction {
    Boost,
    Maintain,
    Reduce,
}

/// Frames per second under the target at which the short-run rate counts
/// as janked.
pub const JANK_MARGIN_FPS: u32 = 2;

/// The controller's error is in milliseconds of frame time and its gain is
/// one twentieth; the control leaves the dead band of one half when the
/// error passes ten milliseconds, i.e. ten thousand microseconds.
pub const ERROR_LIMIT_US: i128 = 10_000;

/// The short-run rate is janked: more than two frames per second under
/// the target.
pub open spec fn janked(t: u32, f: Fps) -> bool {
    f.below(t - JANK_MARGIN_FPS)
}

/// The frame-time error `1000/t - 1000/fps` (in milliseconds) is over ten,
/// i.e. the control is over one half. With `t == 0` the error is infinite
/// whenever frames were seen over some time.
pub open spec fn control_high(t: u32, f: Fps) -> bool {
    if t == 0 {
        f.micros > 0
    } else if f.micros == 0 {
        false
    } else {
        1_000_000 * f.frames - f.micros * t > ERROR_LIMIT_US * f.frames * t
    }
}

/// The error is under minus ten: the control is under minus one half. A
/// short-run rate of zero makes the error minus infinity.
pub open spec fn control_low(t: u32, f: Fps) -> bool {
    if t == 0 {
        false
    } else if f.micros == 0 {
        true
    } else {
        1_000_000 * f.frames - f.micros * t < -ERROR_LIMIT_US * f.frames * t
    }
}

/// The decision from the buffer alone.
pub open spec fn frame_decision(b: BufferModel) -> ScalingAction {
    if b.state != BufferState::Usable || b.target is None {
        ScalingAction::Maintain
    } else {
        let t = b.target.unwrap();
        if janked(t, b.fps_short) || control_high(t, b.fps_short) {
            ScalingAction::Boost
        } else if control_low(t, b.fps_short) {
            ScalingAction::Reduce
        } else {
            ScalingAction::Maintain
        }
    }
}

/// The decision given whether the device is over its thermal threshold.
pub open spec fn decision(hot: bool, b: BufferModel) -> ScalingAction {
    if hot {
        ScalingAction::Reduce
    } else {
        frame_decision(b)
    }
}

/// Decides from the buffer and whether the device runs hot: hot always
/// reduces; an unusable buffer or an unknown target maintains; a janked
/// short-run rate or a high control boosts; a low control reduces.
pub fn decide(buffer: &FrameBuffer, hot: bool) -> (r: ScalingAction)
    requires
        buffer@.wf(),
    ensures
        r == decision(hot, buffer@),
{
    if hot {
        return ScalingAction::Reduce;
    }
    if buffer.state != BufferState::Usable {
        return ScalingAction::Maintain;
    }
    let t = match buffer.target_fps {
        Some(t) => t,
        None => {
            return ScalingAction::Maintain;
        },
    };
    let f = buffer.fps_short;
    let jank = if t <= JANK_MARGIN_FPS {
        proof {
            if f.micros > 0 {
                assert((t - JANK_MARGIN_FPS) * f.micros <= 0) by (nonlinear_arith)
                    requires t <= 2, f.micros > 0;
            }
        }
        false
    } else {
        f.is_below((t - JANK_MARGIN_FPS) as u64)
    };
    let (high, low) = if t == 0 {
        (f.micros > 0, false)
    } else if f.micros == 0 {
        (false, true)
    } else {
        proof {
            assert(f.micros * t <= f.micros * 4294967295) by (nonlinear_arith)
                requires t <= 4294967295u32;
            assert((f.micros as nat) * 4294967295 <= 92233720325598085125nat * 4294967295) by (nonlinear_arith)
                requires f.micros as nat <= 92233720325598085125nat;
            assert(f.frames * (t as nat) <= 21474836475nat * 4294967295) by (nonlinear_arith)
                requires f.frames <= 21474836475nat, t <= 4294967295u32;
            assert(10_000 * (f.frames * (t as nat)) <= 10_000 * (21474836475nat * 4294967295)) by (nonlinear_arith)
                requires f.frames * (t as nat) <= 21474836475nat * 4294967295;
            assert(ERROR_LIMIT_US * f.frames * t == 10_000 * (f.frames * (t as nat))) by (nonlinear_arith);
            assert(-ERROR_LIMIT_US * f.frames * t == -(ERROR_LIMIT_US * f.frames * t)) by (nonlinear_arith);
        }
        let k = f.frames as i128;
        let lhs = 1_000_000 * k - (f.micros as i128) * (t as i128);
        let bound = ERROR_LIMIT_US * k * (t as i128);
        (lhs > bound, lhs < -bound)
    };
    if jank || high {
        ScalingAction::Boost
    } else if low {
        ScalingAction::Reduce
    } else {
        ScalingAction::Maintain
    }
}

/// Over the threshold the decision is always to reduce, whatever the
/// frames say.
pub proof fn lemma_hot_reduces(b: BufferModel)
    ensures
        decision(true, b) == ScalingAction::Reduce,
{
}

/// A usable buffer whose short-run rate is three under its target boosts
/// whenever the device is not hot.
pub proof fn lemma_jank_boosts(b: BufferModel)
    requires
        b.state == BufferState::Usable,
        b.target matches Some(t) && t >= 3 && b.fps_short.micros > 0
            && b.fps_short.frames * 1_000_000 == (t - 3) * b.fps_short.micros,
    ensures
        decision(false, b) == ScalingAction::Boost,
{
    let t = b.target.unwrap();
    let m = b.fps_short.micros;
    assert((t - 3) * m < (t - 2) * m) by (nonlinear_arith)
        requires m > 0;
    assert(janked(t, b.fps_short));
}

} // verus!

verus! {

/// Highest plausible temperature, in thousandths of a degree Celsius.
pub const TEMP_CEILING_MILLI: i32 = 150_000;

/// The highest reading strictly between zero and 150 degrees, or zero.
pub open spec fn max_valid_temp(s: Seq<i32>) -> int
    decreases s.len(),
{
    if s.len() == 0 {
        0
    } else {
        let m = max_valid_temp(s.drop_last());
        let x = s.last();
        if 0 < x < TEMP_CEILING_MILLI && x > m {
            x as int
        } else {
            m
        }
    }
}

/// The device temperature from the readings of its thermal zones, in
/// thousandths of a degree: the highest reading above zero and under 150
/// degrees, or zero when there is none.
pub fn max_temperature(readings_milli: &Vec<i32>) -> (r: i32)
    ensures
        r as int == max_valid_temp(readings_milli@),
{
    let mut max: i32 = 0;
    let mut i: usize = 0;
    while i < readings_milli.len()
        invariant
            i <= readings_milli@.len(),
            max as int == max_valid_temp(readings_milli@.take(i as int)),
            0 <= max < TEMP_CEILING_MILLI,
        decreases readings_milli.len() - i,
    {
        proof {
            assert(readings_milli@.take(i as int + 1).drop_last() =~= readings_milli@.take(i as int));
        }
        let x = readings_milli[i];
        if 0 < x && x < TEMP_CEILING_MILLI && x > max {
            max = x;
        }
        i = i + 1;
    }
    proof {
        assert(readings_milli@.take(readings_milli@.len() as int) =~= readings_milli@);
    }
    max
}

/// The controller of one foreground package: its frame buffer and the
/// package and process it is attached to.
pub struct FasController {
    pub buffer: FrameBuffer,
    pub package: String,
    pub pid: Option<i32>,
}

impl FasController {
    pub open spec fn wf(&self) -> bool {
        self.buffer@.wf()
    }

    /// A controller attached to no package, for the given candidate targets.
    pub fn new(target_fps_config: &TargetFps, now_ms: u64) -> (r: FasController)
        ensures
            r.wf(),
            r.package@ == Seq::<char>::empty(),
            r.pid is None,
            r.buffer@.frames.len() == 0,
            r.buffer@.candidates.to_multiset() == target_fps_config.spec_candidates(),
            r.buffer@.target is None,
            r.buffer@.state == BufferState::Unusable,
    {
        FasController {
            buffer: FrameBuffer::new(target_fps_config, now_ms),
            package: String::new(),
            pid: None,
        }
    }

    /// Attaches to `package`; a change of package clears the buffer.
    pub fn set_package(&mut self, package: String, pid: Option<i32>, now_ms: u64)
        requires
            old(self).wf(),
        ensures
            final(self).wf(),
            final(self).package@ == package@,
            final(self).pid == pid,
            final(self).buffer@ == (if old(self).package@ != package@ {
                old(self).buffer@.cleared(now_ms)
            } else {
                old(self).buffer@
            }),
    {
        if !(self.package == package) {
            self.buffer.clear(now_ms);
            self.package = package;
        }
        self.pid = pid;
    }

    /// Replaces the candidate targets.
    pub fn set_target_fps_config(&mut self, target_fps_config: &TargetFps)
        requires
            old(self).wf(),
        ensures
            final(self).wf(),
            final(self).package == old(self).package,
            final(self).pid == old(self).pid,
            final(self).buffer@.candidates.to_multiset() == target_fps_config.spec_candidates(),
            final(self).buffer@.target == (if old(self).buffer@.target matches Some(t)
                && final(self).buffer@.candidates.contains(t) {
                old(self).buffer@.target
            } else {
                None
            }),
            final(self).buffer@ == (BufferModel {
                candidates: final(self).buffer@.candidates,
                target: final(self).buffer@.target,
                ..old(self).buffer@
            }),
    {
        self.buffer.set_target_fps_config(target_fps_config);
    }

    /// Fixes the target to one rate; zero is ignored.
    pub fn set_target_fps(&mut self, fps: u32)
        requires
            old(self).wf(),
        ensures
            final(self).wf(),
            fps == 0 ==> final(self).buffer@ == old(self).buffer@,
            fps > 0 ==> final(self).buffer@ == (BufferModel {
                candidates: seq![fps],
                target: if old(self).buffer@.target == Some(fps) {
                    Some(fps)
                } else {
                    None
                },
                ..old(self).buffer@
            }),
            final(self).package == old(self).package,
            final(self).pid == old(self).pid,
    {
        if fps > 0 {
            let cfg = TargetFps::Single(fps);
            self.buffer.set_target_fps_config(&cfg);
            proof {
                let c = self.buffer@.candidates;
                assert(c.to_multiset() == seq![fps].to_multiset());
                assert(c.len() == 1) by {
                    c.to_multiset_ensures();
                    seq![fps].to_multiset_ensures();
                }
                assert(c.to_multiset().count(c[0]) > 0) by {
                    c.to_multiset_ensures();
                    assert(c.contains(c[0]));
                }
                assert(seq![fps].to_multiset().count(c[0]) > 0);
                assert(seq![fps].contains(c[0])) by {
                    seq![fps].to_multiset_ensures();
                }
                assert(c =~= seq![fps]);
                if let Some(t) = old(self).buffer@.target {
                    if t != fps {
                        assert(!c.contains(t));
                    } else {
                        assert(c[0] == t);
                    }
                }
            }
        }
    }

    /// The rate the controller aims at: the detected target, else the
    /// smallest candidate, else sixty.
    pub fn get_target_fps(&self) -> (r: u32)
        ensures
            r == match self.buffer@.target {
                Some(t) => t,
                None => if self.buffer@.candidates.len() > 0 {
                    self.buffer@.candidates[0]
                } else {
                    60
                },
            },
    {
        match self.buffer.target_fps {
            Some(t) => t,
            None => if self.buffer.candidates.len() > 0 {
                self.buffer.candidates[0]
            } else {
                60
            },
        }
    }

    /// One sub-tick: a frame sample, when there is one, goes into the
    /// buffer; the device over its threshold reduces; no sample maintains;
    /// otherwise the buffer decides.
    pub fn tick(&mut self, sample_us: Option<u32>, temp_milli: i32, threshold_milli: i32, now_ms: u64) -> (r:
        ScalingAction)
        requires
            old(self).wf(),
        ensures
            final(self).wf(),
            final(self).package == old(self).package,
            final(self).pid == old(self).pid,
            final(self).buffer@ == match sample_us {
                Some(ft) => old(self).buffer@.push(ft, now_ms),
                None => old(self).buffer@,
            },
            r == match sample_us {
                Some(_) => decision(temp_milli > threshold_milli, final(self).buffer@),
                None => if temp_milli > threshold_milli {
                    ScalingAction::Reduce
                } else {
                    ScalingAction::Maintain
                },
            },
    {
        let hot = temp_milli > threshold_milli;
        match sample_us {
            Some(ft) => {
                self.buffer.push(ft, now_ms);
                decide(&self.buffer, hot)
            },
            None => if hot {
                ScalingAction::Reduce
            } else {
                ScalingAction::Maintain
            },
        }
    }
}

} // verus!

verus! {

/// Reads the device temperature from the readings of its thermal zones.
#[derive(Clone, Copy, Debug)]
pub struct ThermalMonitor {}

impl ThermalMonitor {
    pub fn new() -> (r: ThermalMonitor)
        ensures
            r == (ThermalMonitor {  }),
    {
        ThermalMonitor {  }
    }

    /// The highest plausible reading, in thousandths of a degree.
    pub fn get_max_temp(&self, readings_milli: &Vec<i32>) -> (r: i32)
        ensures
            r as int == max_valid_temp(readings_milli@),
    {
        max_temperature(readings_milli)
    }
}

} // verus!
