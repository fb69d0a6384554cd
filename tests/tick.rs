use auriya::config::{GameProfile, TargetFpsConfig};
use auriya::fas::ScalingAction;
use auriya::tick::{
    ApplyRequest, ErrorDebounce, PackageStep, Plan, PowerState, PowerStep, Route, TickEngine,
};
use auriya::types::ProfileMode;

/// What telemetry reports in a scenario.
struct World {
    power: PowerState,
    override_pkg: Option<String>,
    foreground: Option<String>,
    pid_alive: bool,
    resolved_pid: Option<i32>,
    game: Option<GameProfile>,
    fas_action: ScalingAction,
}

/// Runs one tick through the steps, as the daemon does, and returns the
/// profile calls made (all succeed).
fn run_tick(e: &mut TickEngine, w: &World) -> Vec<ApplyRequest> {
    let mut calls = Vec::new();
    let (fetch_power, fetch_fg) = e.begin_tick();
    let fetched = if fetch_power { Some(w.power) } else { None };
    match e.power_step(fetched) {
        PowerStep::Suspend(a) => {
            if let Some(req) = a {
                e.confirm(req.mode());
                calls.push(req);
            }
            return calls;
        }
        PowerStep::Proceed => {}
    }
    let fg = if w.override_pkg.is_none() && fetch_fg { Some(w.foreground.clone()) } else { None };
    let plan: Plan = match e.package_step(w.override_pkg.clone(), fg) {
        PackageStep::Idle(plan) => plan,
        PackageStep::Skip => return calls,
        PackageStep::Candidate(pkg) => match e.route_step(&pkg, w.pid_alive) {
            Route::Settled { run_fas } => {
                if run_fas {
                    if let Some(req) = e.fas_step(w.fas_action, w.game.as_ref()) {
                        e.confirm(req.mode());
                        calls.push(req);
                    }
                }
                return calls;
            }
            Route::Resolve { managed } => {
                let pid = if managed { w.resolved_pid } else { None };
                let game = if managed { w.game.as_ref() } else { None };
                e.place_step(pkg, pid, game, &vec![60, 90, 120])
            }
        },
    };
    if let Some(req) = plan.apply {
        e.confirm(req.mode());
        calls.push(req);
    }
    calls
}

fn game(pkg: &str) -> GameProfile {
    GameProfile {
        package: pkg.to_string(),
        cpu_governor: "performance".to_string(),
        enable_dnd: true,
        target_fps: Some(TargetFpsConfig::Single(60)),
        refresh_rate: Some(120),
        mode: None,
    }
}

fn engine(fas: bool) -> TickEngine {
    TickEngine::new(ProfileMode::Balance, "schedutil".to_string(), vec!["com.game".to_string()], fas)
}

fn awake() -> PowerState {
    PowerState { screen_awake: true, battery_saver: false }
}

#[test]
fn screen_off_applies_powersave_once() {
    let mut e = engine(false);
    let w = World {
        power: PowerState { screen_awake: false, battery_saver: false },
        override_pkg: None,
        foreground: None,
        pid_alive: false,
        resolved_pid: None,
        game: None,
        fas_action: ScalingAction::Maintain,
    };
    assert_eq!(run_tick(&mut e, &w), vec![ApplyRequest::Powersave]);
    assert_eq!(run_tick(&mut e, &w), vec![]);
    assert_eq!(e.last.profile_mode, Some(ProfileMode::Powersave));
    let cur = e.publish();
    assert!(!cur.screen_awake);
    assert_eq!(cur.profile, ProfileMode::Powersave);
}

#[test]
fn battery_saver_suspends_too() {
    let mut e = engine(false);
    let w = World {
        power: PowerState { screen_awake: true, battery_saver: true },
        override_pkg: Some("com.game".to_string()),
        foreground: None,
        pid_alive: true,
        resolved_pid: Some(10),
        game: Some(game("com.game")),
        fas_action: ScalingAction::Boost,
    };
    assert_eq!(run_tick(&mut e, &w), vec![ApplyRequest::Powersave]);
    assert_eq!(e.last.pkg, None);
}

#[test]
fn managed_game_ticks_are_idempotent() {
    let mut e = engine(false);
    let w = World {
        power: awake(),
        override_pkg: None,
        foreground: Some("com.game".to_string()),
        pid_alive: true,
        resolved_pid: Some(4242),
        game: Some(game("com.game")),
        fas_action: ScalingAction::Maintain,
    };
    let first = run_tick(&mut e, &w);
    assert_eq!(
        first,
        vec![ApplyRequest::Performance { governor: "performance".to_string(), dnd: true, pid: Some(4242) }]
    );
    assert_eq!(run_tick(&mut e, &w), vec![]);
    assert_eq!(run_tick(&mut e, &w), vec![]);
    assert_eq!(e.last.pkg, Some("com.game".to_string()));
    assert_eq!(e.last.pid, Some(4242));
}

#[test]
fn unmanaged_and_idle_ticks_apply_default_once() {
    let mut e = engine(false);
    let w = World {
        power: awake(),
        override_pkg: None,
        foreground: Some("com.browser".to_string()),
        pid_alive: false,
        resolved_pid: None,
        game: None,
        fas_action: ScalingAction::Maintain,
    };
    assert_eq!(run_tick(&mut e, &w), vec![ApplyRequest::Balance { governor: "schedutil".to_string() }]);
    assert_eq!(run_tick(&mut e, &w), vec![]);
    assert_eq!(e.last.pid, None);
    let idle = World { foreground: None, ..w };
    // Tick 3 does not ask for the foreground; tick 4 does and finds none.
    assert_eq!(run_tick(&mut e, &idle), vec![]);
    assert_eq!(run_tick(&mut e, &idle), vec![]);
    assert_eq!(e.last.pkg, None);
}

#[test]
fn managed_game_without_process_gets_default() {
    let mut e = engine(false);
    let w = World {
        power: awake(),
        override_pkg: None,
        foreground: Some("com.game".to_string()),
        pid_alive: false,
        resolved_pid: None,
        game: Some(game("com.game")),
        fas_action: ScalingAction::Maintain,
    };
    assert_eq!(run_tick(&mut e, &w), vec![ApplyRequest::Balance { governor: "schedutil".to_string() }]);
    assert_eq!(e.last.pkg, Some("com.game".to_string()));
    assert_eq!(e.last.pid, None);
}

#[test]
fn scaling_sub_tick_boosts_and_reduces() {
    let mut e = engine(true);
    let mut g = game("com.game");
    g.mode = Some("Balance".to_string());
    let mut w = World {
        power: awake(),
        override_pkg: Some("com.game".to_string()),
        foreground: None,
        pid_alive: true,
        resolved_pid: Some(77),
        game: Some(g),
        fas_action: ScalingAction::Maintain,
    };
    assert_eq!(run_tick(&mut e, &w), vec![ApplyRequest::Balance { governor: "performance".to_string() }]);
    assert_eq!(run_tick(&mut e, &w), vec![]);
    w.fas_action = ScalingAction::Boost;
    assert_eq!(
        run_tick(&mut e, &w),
        vec![ApplyRequest::Performance { governor: "performance".to_string(), dnd: true, pid: None }]
    );
    w.fas_action = ScalingAction::Reduce;
    assert_eq!(run_tick(&mut e, &w), vec![ApplyRequest::Balance { governor: "schedutil".to_string() }]);
    assert_eq!(run_tick(&mut e, &w), vec![]);
}

#[test]
fn refresh_rate_is_saved_set_and_restored() {
    let mut e = engine(false);
    e.begin_tick();
    let g = game("com.game");
    let plan = e.place_step("com.game".to_string(), Some(5), Some(&g), &vec![60, 120]);
    assert!(plan.save_current_rate);
    assert_eq!(plan.set_rate, Some(120));
    assert_eq!(plan.restore_rate, None);
    e.save_rate(&"com.game".to_string(), 60);
    e.save_rate(&"com.game".to_string(), 90);
    assert_eq!(e.rate_saved_for(&"com.game".to_string()), Some(60));
    let plan = e.place_step("com.other".to_string(), None, None, &vec![60, 120]);
    assert_eq!(plan.restore_rate, Some(60));
    assert_eq!(e.rate_saved_for(&"com.game".to_string()), None);
    let unsupported = e.place_step("com.game".to_string(), Some(5), Some(&g), &vec![60, 90]);
    assert_eq!(unsupported.set_rate, None);
}

#[test]
fn throttled_fetches() {
    let mut e = engine(false);
    assert_eq!(e.begin_tick(), (true, true));
    assert_eq!(e.begin_tick(), (false, true));
    assert_eq!(e.begin_tick(), (false, false));
    assert_eq!(e.begin_tick(), (false, true));
    assert_eq!(e.begin_tick(), (true, false));
}

#[test]
fn log_and_error_debounce() {
    let mut e = engine(false);
    assert!(e.should_log_change(1_000, 2_000));
    e.bump_log(1_000);
    assert!(!e.should_log_change(2_500, 2_000));
    assert!(e.should_log_change(3_000, 2_000));
    let mut d = ErrorDebounce::new(30_000);
    assert!(d.record("boom".to_string(), 0));
    assert!(!d.record("boom".to_string(), 10_000));
    assert!(d.record("other".to_string(), 10_001));
    assert!(d.record("other".to_string(), 40_001));
}

#[test]
fn route_of_settled_package() {
    let mut e = engine(true);
    e.begin_tick();
    e.place_step("com.game".to_string(), Some(9), None, &vec![]);
    assert_eq!(e.route_step(&"com.game".to_string(), true), Route::Settled { run_fas: true });
    assert_eq!(e.route_step(&"com.game".to_string(), false), Route::Resolve { managed: true });
    assert_eq!(e.route_step(&"com.else".to_string(), true), Route::Resolve { managed: false });
}

#[test]
fn settings_reload_reapplies_balance() {
    let mut e = engine(false);
    assert_eq!(e.reload_settings("schedutil".to_string()), None);
    e.confirm(ProfileMode::Balance);
    assert_eq!(
        e.reload_settings("powersave".to_string()),
        Some(ApplyRequest::Balance { governor: "powersave".to_string() })
    );
    assert_eq!(e.balance_governor, "powersave");
    assert_eq!(e.reload_settings("powersave".to_string()), None);
    e.confirm(ProfileMode::Performance);
    assert_eq!(e.reload_settings("schedutil".to_string()), None);
}

#[test]
fn tick_interval_adapts() {
    let mut e = engine(false);
    assert_eq!(e.next_interval_ms(1_000), 2_000);
    e.begin_tick();
    e.place_step("com.game".to_string(), Some(3), None, &vec![]);
    assert_eq!(e.next_interval_ms(1_000), 1_000);
    e.power_step(Some(PowerState { screen_awake: false, battery_saver: false }));
    assert_eq!(e.next_interval_ms(1_000), 5_000);
    assert_eq!(e.next_interval_ms(u64::MAX), u64::MAX);
}

#[test]
fn game_mode_read_in_lower_case() {
    assert_eq!(auriya::tick::game_mode_from_lower("balance"), ProfileMode::Balance);
    assert_eq!(auriya::tick::game_mode_from_lower("BALANCE"), ProfileMode::Performance);
    let mut g = game("com.game");
    g.mode = Some("POWERSAVE".to_string());
    assert_eq!(auriya::tick::game_mode_of(Some(&g)), ProfileMode::Powersave);
}
