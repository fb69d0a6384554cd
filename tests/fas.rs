use auriya::buffer::{BufferState, Fps, FrameBuffer, TargetFps};
use auriya::fas::{decide, max_temperature, FasController, ScalingAction, ThermalMonitor};

fn filled(cfg: &TargetFps, frame_us: u32, count: u64) -> FrameBuffer {
    let mut b = FrameBuffer::new(cfg, 0);
    for i in 0..count {
        b.push(frame_us, i * 10);
    }
    b
}

#[test]
fn target_values_are_sorted() {
    assert_eq!(TargetFps::Array(vec![120, 60, 90]).values(), vec![60, 90, 120]);
    assert_eq!(TargetFps::Single(75).values(), vec![75]);
}

#[test]
fn target_detection_picks_120_for_118_fps() {
    let cfg = TargetFps::Array(vec![60, 90, 120]);
    // 8475 microseconds per frame: a long-run rate of about 118 frames per second.
    let b = filled(&cfg, 8475, 100);
    assert_eq!(b.target_fps, Some(120));
    assert_eq!(b.fps_long.millis(), 117_994);
}

#[test]
fn target_detection_clears_target_at_40_fps() {
    let cfg = TargetFps::Array(vec![60, 90, 120]);
    let mut b = filled(&cfg, 8475, 100);
    assert_eq!(b.target_fps, Some(120));
    let mut cleared_at = None;
    for i in 0..900u64 {
        let now = 2_000 + i * 25;
        b.push(25_000, now);
        if cleared_at.is_none() && b.target_fps.is_none() {
            cleared_at = Some(now);
            // Dropping the target marks the buffer unusable at once.
            assert_eq!(b.state, BufferState::Unusable);
            assert_eq!(b.unusable_since_ms, Some(now));
        }
    }
    assert!(cleared_at.is_some());
    // The whole history is now at 40 frames per second, under 60 - 10.
    assert_eq!(b.fps_long.millis(), 40_000);
    assert_eq!(b.target_fps, None);
}

#[test]
fn target_detection_low_rate_never_sets_target() {
    let cfg = TargetFps::Array(vec![60, 90, 120]);
    let b = filled(&cfg, 25_000, 80);
    assert_eq!(b.target_fps, None);
}

#[test]
fn target_detection_middle_candidate() {
    let cfg = TargetFps::Array(vec![60, 90, 120]);
    // 12000 microseconds: 83.3 frames per second, within three of nothing below 90.
    let b = filled(&cfg, 12_000, 100);
    assert_eq!(b.target_fps, Some(90));
    // 16000 microseconds: 62.5 frames per second, within three of 60.
    let c = filled(&cfg, 16_000, 100);
    assert_eq!(c.target_fps, Some(60));
}

#[test]
fn constant_stream_converges_to_its_rate() {
    let cfg = TargetFps::Single(60);
    for &d in &[16_667u32, 11_111, 8_333, 33_333] {
        let b = filled(&cfg, d, 60);
        assert_eq!(b.fps_long.frames, 60);
        assert_eq!(b.fps_long.micros, 60 * d as u128);
        let expected = 1_000_000_000u128 / d as u128;
        assert_eq!(b.fps_long.millis(), expected);
    }
}

#[test]
fn buffer_becomes_usable_after_sixty_samples_and_one_second() {
    let cfg = TargetFps::Single(60);
    let mut b = FrameBuffer::new(&cfg, 0);
    for i in 0..59u64 {
        b.push(16_667, 2_000 + i);
    }
    // 59 samples, long after the mark: not yet usable.
    assert_eq!(b.state, BufferState::Unusable);
    b.push(16_667, 2_100);
    assert_eq!(b.state, BufferState::Usable);
    assert_eq!(b.unusable_since_ms, None);
}

#[test]
fn buffer_waits_one_second_after_mark() {
    let cfg = TargetFps::Single(60);
    let mut b = FrameBuffer::new(&cfg, 1_000);
    for i in 0..80u64 {
        b.push(16_667, 1_000 + i * 10);
    }
    // 80 samples but only 790 ms since the mark.
    assert_eq!(b.state, BufferState::Unusable);
    for i in 0..30u64 {
        b.push(16_667, 1_800 + i * 10);
    }
    assert_eq!(b.state, BufferState::Usable);
}

#[test]
fn clear_resets_buffer() {
    let cfg = TargetFps::Single(60);
    let mut b = filled(&cfg, 16_667, 200);
    b.clear(5_000);
    assert_eq!(b.frametimes.len(), 0);
    assert_eq!(b.target_fps, None);
    assert_eq!(b.state, BufferState::Unusable);
    assert_eq!(b.unusable_since_ms, Some(5_000));
    assert_eq!(b.fps_long, Fps::zero());
    assert_eq!(b.time_since_last_frame(6_000), 6_000 - b.last_update_ms);
}

#[test]
fn capacity_is_five_times_target() {
    let cfg = TargetFps::Single(60);
    let b = filled(&cfg, 16_667, 1_000);
    assert_eq!(b.target_fps, Some(60));
    assert_eq!(b.frametimes.len(), 300);
    assert_eq!(b.fps_short.frames, 60);
}

fn usable_at(target: u32, frame_us: u32) -> FrameBuffer {
    let cfg = TargetFps::Single(target);
    let mut b = FrameBuffer::new(&cfg, 0);
    for i in 0..200u64 {
        b.push(frame_us, 2_000 + i);
    }
    b
}

#[test]
fn hot_device_always_reduces() {
    let b = usable_at(60, 16_667);
    assert_eq!(b.state, BufferState::Usable);
    assert_eq!(decide(&b, true), ScalingAction::Reduce);
    let janked = usable_at(60, 20_000);
    assert_eq!(decide(&janked, true), ScalingAction::Reduce);
    let fresh = FrameBuffer::new(&TargetFps::Single(60), 0);
    assert_eq!(decide(&fresh, true), ScalingAction::Reduce);
}

#[test]
fn janked_short_rate_boosts() {
    // 57 frames per second against a target of 60.
    let b = usable_at(60, 17_544);
    assert_eq!(b.state, BufferState::Usable);
    assert_eq!(b.target_fps, Some(60));
    assert_eq!(decide(&b, false), ScalingAction::Boost);
}

#[test]
fn on_target_maintains() {
    let b = usable_at(60, 16_667);
    assert_eq!(decide(&b, false), ScalingAction::Maintain);
}

#[test]
fn far_above_target_boosts_by_control() {
    // 200 frames per second: frame time 5 ms, error 16.7 - 5 > 10 ms.
    let cfg = TargetFps::Single(60);
    let mut b = FrameBuffer::new(&cfg, 0);
    for i in 0..400u64 {
        b.push(5_000, 2_000 + i);
    }
    assert_eq!(b.target_fps, Some(60));
    assert_eq!(decide(&b, false), ScalingAction::Boost);
}

#[test]
fn unusable_buffer_maintains() {
    let fresh = FrameBuffer::new(&TargetFps::Single(60), 0);
    assert_eq!(decide(&fresh, false), ScalingAction::Maintain);
}

#[test]
fn controller_tick_without_sample_maintains_or_reduces() {
    let mut c = FasController::new(&TargetFps::Single(60), 0);
    assert_eq!(c.tick(None, 40_000, 90_000, 10), ScalingAction::Maintain);
    assert_eq!(c.tick(None, 95_000, 90_000, 20), ScalingAction::Reduce);
    assert_eq!(c.buffer.frametimes.len(), 0);
}

#[test]
fn controller_package_switch_clears_buffer() {
    let mut c = FasController::new(&TargetFps::Single(60), 0);
    c.set_package("com.game.one".to_string(), Some(100), 0);
    for i in 0..10u64 {
        c.tick(Some(16_667), 40_000, 90_000, i);
    }
    assert_eq!(c.buffer.frametimes.len(), 10);
    c.set_package("com.game.one".to_string(), Some(100), 20);
    assert_eq!(c.buffer.frametimes.len(), 10);
    c.set_package("com.game.two".to_string(), Some(200), 30);
    assert_eq!(c.buffer.frametimes.len(), 0);
    assert_eq!(c.pid, Some(200));
    assert_eq!(c.buffer.unusable_since_ms, Some(30));
}

#[test]
fn controller_target_fps() {
    let mut c = FasController::new(&TargetFps::Array(vec![90, 60]), 0);
    assert_eq!(c.get_target_fps(), 60);
    c.set_target_fps(0);
    assert_eq!(c.get_target_fps(), 60);
    c.set_target_fps(120);
    assert_eq!(c.get_target_fps(), 120);
    assert_eq!(c.buffer.candidates, vec![120]);
}

#[test]
fn max_temperature_skips_implausible_readings() {
    assert_eq!(max_temperature(&vec![]), 0);
    assert_eq!(max_temperature(&vec![45_000, -5_000, 151_000, 62_500, 0]), 62_500);
    assert_eq!(max_temperature(&vec![150_000, 149_999]), 149_999);
    assert_eq!(ThermalMonitor::new().get_max_temp(&vec![30_000, 31_000]), 31_000);
}

#[test]
fn no_candidates_never_set_a_target() {
    let b = filled(&TargetFps::Array(vec![]), 16_667, 100);
    assert_eq!(b.target_fps, None);
    assert_eq!(b.candidates, Vec::<u32>::new());
    // Without a target the history holds five times 144 frames.
    let c = filled(&TargetFps::Array(vec![]), 16_667, 800);
    assert_eq!(c.frametimes.len(), 720);
}

#[test]
fn low_rate_keeps_buffer_unusable_without_target() {
    // Under the idle floor the buffer is marked unusable on every push,
    // even when no target was set, so it never settles.
    let cfg = TargetFps::Array(vec![60, 90, 120]);
    let mut b = FrameBuffer::new(&cfg, 0);
    for i in 0..200u64 {
        b.push(25_000, 2_000 + i * 25);
    }
    assert_eq!(b.state, BufferState::Unusable);
    assert_eq!(b.unusable_since_ms, Some(2_000 + 199 * 25));
}
