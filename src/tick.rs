//! The per-tick state machine that chooses the coarse profile. The daemon
//! drives it step by step: each step takes what telemetry reported and
//! says what to apply or to ask next.
use crate::config::GameProfile;
use crate::fas::ScalingAction;
use crate::text::{lower_of, same_text, to_lowercase};
use crate::types::ProfileMode;
use vstd::prelude::*;

verus! {

/// Power fetches happen every this many ticks, and on the first.
pub const POWER_EVERY: u64 = 5;

/// Foreground fetches happen every this many ticks, and on the first.
pub const FOREGROUND_EVERY: u64 = 2;

/// What the power telemetry reports.
#[derive(Clone, Copy, Debug, PartialEq, Eq, Structural)]
pub struct PowerState {
    pub screen_awake: bool,
    pub battery_saver: bool,
}

/// The control loop's memory between ticks.
#[derive(Clone, Debug)]
pub struct LastState {
    pub pkg: Option<String>,
    pub pid: Option<i32>,
    pub screen_awake: Option<bool>,
    pub battery_saver: Option<bool>,
    pub last_log_ms: Option<u64>,
    pub profile_mode: Option<ProfileMode>,
}

/// The snapshot published after each tick for status queries.
#[derive(Clone, Debug)]
pub struct CurrentState {
    pub pkg: Option<String>,
    pub pid: Option<i32>,
    pub screen_awake: bool,
    pub battery_saver: bool,
    pub profile: ProfileMode,
}

/// One call of the profile applier.
#[derive(Clone, Debug, PartialEq, Eq)]
pub enum ApplyRequest {
    Performance { governor: String, dnd: bool, pid: Option<i32> },
    Balance { governor: String },
    Powersave,
}

/// The mathematical content of an apply call.
pub enum ApplyModel {
    Performance { governor: Seq<char>, dnd: bool, pid: Option<i32> },
    Balance { governor: Seq<char> },
    Powersave,
}

impl View for ApplyRequest {
    type V = ApplyModel;

    open spec fn view(&self) -> ApplyModel {
        match self {
            ApplyRequest::Performance { governor, dnd, pid } => ApplyModel::Performance {
                governor: governor@,
                dnd: *dnd,
                pid: *pid,
            },
            ApplyRequest::Balance { governor } => ApplyModel::Balance { governor: governor@ },
            ApplyRequest::Powersave => ApplyModel::Powersave,
        }
    }
}

impl ApplyModel {
    pub open spec fn mode(self) -> ProfileMode {
        match self {
            ApplyModel::Performance { .. } => ProfileMode::Performance,
            ApplyModel::Balance { .. } => ProfileMode::Balance,
            ApplyModel::Powersave => ProfileMode::Powersave,
        }
    }
}

impl ApplyRequest {
    /// The profile this call applies.
    pub fn mode(&self) -> (r: ProfileMode)
        ensures
            r == self@.mode(),
    {
        match self {
            ApplyRequest::Performance { .. } => ProfileMode::Performance,
            ApplyRequest::Balance { .. } => ProfileMode::Balance,
            ApplyRequest::Powersave => ProfileMode::Powersave,
        }
    }
}

pub open spec fn opt_str(o: Option<String>) -> Option<Seq<char>> {
    match o {
        Some(s) => Some(s@),
        None => None,
    }
}

/// The remembered state, with text as character sequences.
pub struct LastModel {
    pub pkg: Option<Seq<char>>,
    pub pid: Option<i32>,
    pub screen_awake: Option<bool>,
    pub battery_saver: Option<bool>,
    pub last_log_ms: Option<u64>,
    pub profile_mode: Option<ProfileMode>,
}

impl View for LastState {
    type V = LastModel;

    open spec fn view(&self) -> LastModel {
        LastModel {
            pkg: opt_str(self.pkg),
            pid: self.pid,
            screen_awake: self.screen_awake,
            battery_saver: self.battery_saver,
            last_log_ms: self.last_log_ms,
            profile_mode: self.profile_mode,
        }
    }
}

/// What a step asks the daemon to do on the device.
pub struct Plan {
    /// The profile call to make; none when the profile is already applied.
    pub apply: Option<ApplyRequest>,
    /// A refresh rate to restore for the package that left.
    pub restore_rate: Option<u32>,
    /// Read the current refresh rate and hand it to `save_rate` first.
    pub save_current_rate: bool,
    /// A refresh rate to set for the package that came.
    pub set_rate: Option<u32>,
    /// Put the display back to its automatic rate.
    pub reset_rate: bool,
}

pub struct PlanModel {
    pub apply: Option<ApplyModel>,
    pub restore_rate: Option<u32>,
    pub save_current_rate: bool,
    pub set_rate: Option<u32>,
    pub reset_rate: bool,
}

impl View for Plan {
    type V = PlanModel;

    open spec fn view(&self) -> PlanModel {
        PlanModel {
            apply: match self.apply {
                Some(a) => Some(a@),
                None => None,
            },
            restore_rate: self.restore_rate,
            save_current_rate: self.save_current_rate,
            set_rate: self.set_rate,
            reset_rate: self.reset_rate,
        }
    }
}

pub open spec fn quiet_plan(apply: Option<ApplyModel>) -> PlanModel {
    PlanModel { apply, restore_rate: None, save_current_rate: false, set_rate: None, reset_rate: false }
}

/// The tick engine's content.
pub struct EngineModel {
    pub last: LastModel,
    pub tick_count: u64,
    pub default_mode: ProfileMode,
    pub balance_governor: Seq<char>,
    pub whitelist: Seq<Seq<char>>,
    pub fas_enabled: bool,
    pub saved_rates: Seq<(Seq<char>, u32)>,
}

/// The control loop's state machine.
pub struct TickEngine {
    pub last: LastState,
    pub tick_count: u64,
    /// The profile used when no managed game is in front.
    pub default_mode: ProfileMode,
    pub balance_governor: String,
    /// Packages under management.
    pub whitelist: Vec<String>,
    pub fas_enabled: bool,
    /// Refresh rates to restore, by the package that changed them.
    pub saved_rates: Vec<(String, u32)>,
}

pub open spec fn pair_views(s: Seq<(String, u32)>) -> Seq<(Seq<char>, u32)> {
    s.map_values(|p: (String, u32)| (p.0@, p.1))
}

pub open spec fn str_views(s: Seq<String>) -> Seq<Seq<char>> {
    s.map_values(|p: String| p@)
}

impl View for TickEngine {
    type V = EngineModel;

    open spec fn view(&self) -> EngineModel {
        EngineModel {
            last: self.last@,
            tick_count: self.tick_count,
            default_mode: self.default_mode,
            balance_governor: self.balance_governor@,
            whitelist: str_views(self.whitelist@),
            fas_enabled: self.fas_enabled,
            saved_rates: pair_views(self.saved_rates@),
        }
    }
}

} // verus!

verus! {

/// The rate saved for `pkg`, if any.
pub open spec fn saved_rate(s: Seq<(Seq<char>, u32)>, pkg: Seq<char>) -> Option<u32>
    decreases s.len(),
{
    if s.len() == 0 {
        None
    } else {
        match saved_rate(s.drop_last(), pkg) {
            Some(r) => Some(r),
            None => if s.last().0 == pkg {
                Some(s.last().1)
            } else {
                None
            },
        }
    }
}

/// The saved rates without those of `pkg`.
pub open spec fn drop_rate(s: Seq<(Seq<char>, u32)>, pkg: Seq<char>) -> Seq<(Seq<char>, u32)>
    decreases s.len(),
{
    if s.len() == 0 {
        s
    } else if s.last().0 == pkg {
        drop_rate(s.drop_last(), pkg)
    } else {
        drop_rate(s.drop_last(), pkg).push(s.last())
    }
}

/// Each package has at most one saved rate.
pub open spec fn keys_unique(s: Seq<(Seq<char>, u32)>) -> bool {
    forall|i: int, j: int| 0 <= i < j < s.len() ==> s[i].0 != s[j].0
}

proof fn lemma_drop_rate_unique(s: Seq<(Seq<char>, u32)>, pkg: Seq<char>)
    requires
        keys_unique(s),
    ensures
        keys_unique(drop_rate(s, pkg)),
        forall|i: int| 0 <= i < drop_rate(s, pkg).len() ==> exists|j: int| 0 <= j < s.len() && #[trigger] drop_rate(s, pkg)[i] == s[j],
    decreases s.len(),
{
    if s.len() > 0 {
        let t = s.drop_last();
        assert(keys_unique(t)) by {
            assert forall|i: int, j: int| 0 <= i < j < t.len() implies t[i].0 != t[j].0 by {
                assert(t[i] == s[i] && t[j] == s[j]);
            }
        }
        lemma_drop_rate_unique(t, pkg);
        let d = drop_rate(t, pkg);
        assert forall|i: int| 0 <= i < d.len() implies exists|j: int| 0 <= j < t.len() && #[trigger] d[i] == s[j] by {
            let j = choose|j: int| 0 <= j < t.len() && #[trigger] d[i] == t[j];
            assert(s[j] == t[j]);
        }
        if s.last().0 != pkg {
            let e = d.push(s.last());
            assert forall|a: int, b: int| 0 <= a < b < e.len() implies e[a].0 != e[b].0 by {
                if b == e.len() - 1 {
                    let j = choose|j: int| 0 <= j < t.len() && #[trigger] d[a] == s[j];
                    assert(s[j].0 != s[s.len() - 1].0);
                } else {
                    assert(e[a] == d[a] && e[b] == d[b]);
                }
            }
            assert forall|i: int| 0 <= i < e.len() implies exists|j: int| 0 <= j < s.len() && #[trigger] e[i] == s[j] by {
                if i == e.len() - 1 {
                    assert(e[i] == s[s.len() - 1]);
                } else {
                    let j = choose|j: int| 0 <= j < t.len() && #[trigger] d[i] == s[j];
                    assert(e[i] == s[j]);
                }
            }
        } else {
            assert forall|i: int| 0 <= i < d.len() implies exists|j: int| 0 <= j < s.len() && #[trigger] d[i] == s[j] by {
                let j = choose|j: int| 0 <= j < t.len() && #[trigger] d[i] == s[j];
            }
        }
    }
}

pub open spec fn suspends(p: PowerState) -> bool {
    !p.screen_awake || p.battery_saver
}

/// The profile a lower-cased mode names: powersave, balance, or
/// performance for anything else.
pub open spec fn mode_of_lower(l: Seq<char>) -> ProfileMode {
    if l == "powersave"@ {
        ProfileMode::Powersave
    } else if l == "balance"@ {
        ProfileMode::Balance
    } else {
        ProfileMode::Performance
    }
}

/// The profile a managed package asks for: its configured mode, read in
/// lower case, else performance.
pub open spec fn game_mode(game: Option<GameProfile>) -> ProfileMode {
    match game {
        Some(g) => match g.mode {
            Some(m) => mode_of_lower(lower_of(m@)),
            None => ProfileMode::Performance,
        },
        None => ProfileMode::Performance,
    }
}

/// Where the package in front stands after the package step.
pub enum PackageStep {
    /// No package is in front; the plan restores the default.
    Idle(Plan),
    /// Nothing is known of the foreground this tick.
    Skip,
    /// This package is in front.
    Candidate(String),
}

/// What the route step decides for the package in front.
#[derive(Clone, Copy, Debug, PartialEq, Eq, Structural)]
pub enum Route {
    /// Same package with its process alive: no profile change; run a
    /// scaling sub-tick when `run_fas`.
    Settled { run_fas: bool },
    /// Resolve the package's process when `managed`, then place it.
    Resolve { managed: bool },
}

impl EngineModel {
    /// The saved refresh rates form a map: one entry per package.
    pub open spec fn wf(self) -> bool {
        keys_unique(self.saved_rates)
    }

    pub open spec fn confirmed(self, mode: ProfileMode) -> EngineModel {
        EngineModel { last: LastModel { profile_mode: Some(mode), ..self.last }, ..self }
    }

    /// The call that applies the default profile.
    pub open spec fn default_apply(self) -> ApplyModel {
        match self.default_mode {
            ProfileMode::Performance => ApplyModel::Performance {
                governor: "performance"@,
                dnd: true,
                pid: None,
            },
            ProfileMode::Balance => ApplyModel::Balance { governor: self.balance_governor },
            ProfileMode::Powersave => ApplyModel::Powersave,
        }
    }

    /// A call is made only when its profile is not the one applied last.
    pub open spec fn if_needed(self, a: ApplyModel) -> Option<ApplyModel> {
        if self.last.profile_mode == Some(a.mode()) {
            None
        } else {
            Some(a)
        }
    }

    pub open spec fn begun(self) -> EngineModel {
        EngineModel {
            tick_count: if self.tick_count == u64::MAX {
                0
            } else {
                (self.tick_count + 1) as u64
            },
            ..self
        }
    }

    pub open spec fn fetches_power(self) -> bool {
        self.tick_count % POWER_EVERY == 0 || self.tick_count == 1
    }

    pub open spec fn fetches_foreground(self) -> bool {
        self.tick_count % FOREGROUND_EVERY == 0 || self.tick_count == 1
    }

    /// The power state of this tick: the fetched one, else the remembered
    /// one (screen on and saver off where nothing is remembered).
    pub open spec fn power_of(self, fetched: Option<PowerState>) -> PowerState {
        match fetched {
            Some(p) => p,
            None => PowerState {
                screen_awake: match self.last.screen_awake {
                    Some(b) => b,
                    None => true,
                },
                battery_saver: match self.last.battery_saver {
                    Some(b) => b,
                    None => false,
                },
            },
        }
    }

    pub open spec fn after_power(self, fetched: Option<PowerState>) -> EngineModel {
        let p = self.power_of(fetched);
        EngineModel {
            last: LastModel {
                screen_awake: Some(p.screen_awake),
                battery_saver: Some(p.battery_saver),
                ..self.last
            },
            ..self
        }
    }

    /// Screen off or saver on: powersave, once.
    pub open spec fn power_apply(self, fetched: Option<PowerState>) -> Option<ApplyModel> {
        if suspends(self.power_of(fetched)) {
            self.if_needed(ApplyModel::Powersave)
        } else {
            None
        }
    }

    /// The package in front: the override, else the fetched foreground,
    /// else (when not fetched this tick) the remembered package.
    pub open spec fn candidate(self, override_pkg: Option<Seq<char>>, foreground: Option<Option<Seq<char>>>) -> Option<
        Seq<char>,
    > {
        match override_pkg {
            Some(p) => Some(p),
            None => match foreground {
                Some(f) => f,
                None => self.last.pkg,
            },
        }
    }

    /// Nothing in front: the telemetry was asked and named no package.
    pub open spec fn idle(self, override_pkg: Option<Seq<char>>, foreground: Option<Option<Seq<char>>>) -> bool {
        override_pkg is None && foreground == Some(None::<Seq<char>>)
    }

    pub open spec fn idle_plan(self) -> PlanModel {
        PlanModel {
            reset_rate: self.last.pkg is Some || self.last.pid is Some,
            ..quiet_plan(self.if_needed(self.default_apply()))
        }
    }

    pub open spec fn after_idle(self) -> EngineModel {
        EngineModel { last: LastModel { pkg: None, pid: None, ..self.last }, ..self }
    }

    pub open spec fn route(self, pkg: Seq<char>, pid_alive: bool) -> Route {
        if self.last.pkg == Some(pkg) && self.last.pid is Some && pid_alive {
            Route::Settled { run_fas: self.fas_enabled && self.whitelist.contains(pkg) }
        } else {
            Route::Resolve { managed: self.whitelist.contains(pkg) }
        }
    }

    /// The rate to restore when the package in front changes.
    pub open spec fn restore_for(self, pkg: Seq<char>) -> Option<u32> {
        match self.last.pkg {
            Some(lp) => if lp != pkg {
                saved_rate(self.saved_rates, lp)
            } else {
                None
            },
            None => None,
        }
    }

    pub open spec fn game_apply(self, game: Option<GameProfile>, pid: i32) -> ApplyModel {
        match game_mode(game) {
            ProfileMode::Performance => ApplyModel::Performance {
                governor: match game {
                    Some(g) => g.cpu_governor@,
                    None => self.balance_governor,
                },
                dnd: match game {
                    Some(g) => g.enable_dnd,
                    None => true,
                },
                pid: Some(pid),
            },
            ProfileMode::Balance => ApplyModel::Balance {
                governor: match game {
                    Some(g) => if g.cpu_governor@.len() > 0 {
                        g.cpu_governor@
                    } else {
                        self.balance_governor
                    },
                    None => self.balance_governor,
                },
            },
            ProfileMode::Powersave => ApplyModel::Powersave,
        }
    }

    /// The plan for a package in front that is not settled: a managed one
    /// with its process gets its own profile and refresh rate; any other
    /// gets the default profile.
    pub open spec fn place_plan(self, pkg: Seq<char>, pid: Option<i32>, game: Option<GameProfile>, supported: Seq<u32>) -> PlanModel {
        match pid {
            Some(id) => {
                let rr = match game {
                    Some(g) => g.refresh_rate,
                    None => None,
                };
                PlanModel {
                    apply: self.if_needed(self.game_apply(game, id)),
                    restore_rate: self.restore_for(pkg),
                    save_current_rate: rr is Some && saved_rate(self.saved_rates, pkg) is None,
                    set_rate: match rr {
                        Some(r) => if supported.contains(r) {
                            Some(r)
                        } else {
                            None
                        },
                        None => None,
                    },
                    reset_rate: false,
                }
            },
            None => PlanModel {
                restore_rate: self.restore_for(pkg),
                ..quiet_plan(self.if_needed(self.default_apply()))
            },
        }
    }

    pub open spec fn after_place(self, pkg: Seq<char>, pid: Option<i32>) -> EngineModel {
        EngineModel {
            last: LastModel { pkg: Some(pkg), pid, ..self.last },
            saved_rates: match self.last.pkg {
                Some(lp) => if lp != pkg {
                    drop_rate(self.saved_rates, lp)
                } else {
                    self.saved_rates
                },
                None => self.saved_rates,
            },
            ..self
        }
    }

    /// The call a scaling decision asks for: boost applies performance
    /// with the game's governor, reduce returns to the default, maintain
    /// changes nothing.
    pub open spec fn fas_apply(self, action: ScalingAction, game: Option<GameProfile>) -> Option<ApplyModel> {
        match action {
            ScalingAction::Boost => self.if_needed(
                ApplyModel::Performance {
                    governor: match game {
                        Some(g) => g.cpu_governor@,
                        None => self.balance_governor,
                    },
                    dnd: true,
                    pid: None,
                },
            ),
            ScalingAction::Maintain => None,
            ScalingAction::Reduce => self.if_needed(self.default_apply()),
        }
    }
}

} // verus!

verus! {

/// What the power step decides.
pub enum PowerStep {
    /// Screen off or saver on: make this call, if any, and end the tick.
    Suspend(Option<ApplyRequest>),
    /// Go on to the foreground package.
    Proceed,
}

pub open spec fn opt_apply(o: Option<ApplyRequest>) -> Option<ApplyModel> {
    match o {
        Some(a) => Some(a@),
        None => None,
    }
}

pub open spec fn opt_game(o: Option<&GameProfile>) -> Option<GameProfile> {
    match o {
        Some(g) => Some(*g),
        None => None,
    }
}

pub open spec fn fg_view(foreground: Option<Option<String>>) -> Option<Option<Seq<char>>> {
    match foreground {
        Some(f) => Some(opt_str(f)),
        None => None,
    }
}

pub open spec fn plan_of(r: PackageStep) -> PlanModel {
    match r {
        PackageStep::Idle(p) => p@,
        _ => quiet_plan(None),
    }
}

impl TickEngine {
    /// An engine that remembers nothing yet.
    pub fn new(default_mode: ProfileMode, balance_governor: String, whitelist: Vec<String>, fas_enabled: bool) -> (r:
        TickEngine)
        ensures
            r@.last == (LastModel {
                pkg: None,
                pid: None,
                screen_awake: None,
                battery_saver: None,
                last_log_ms: None,
                profile_mode: None,
            }),
            r@.tick_count == 0,
            r@.default_mode == default_mode,
            r@.balance_governor == balance_governor@,
            r.whitelist == whitelist,
            r@.fas_enabled == fas_enabled,
            r@.saved_rates.len() == 0,
            r@.wf(),
    {
        let r = TickEngine {
            last: LastState {
                pkg: None,
                pid: None,
                screen_awake: None,
                battery_saver: None,
                last_log_ms: None,
                profile_mode: None,
            },
            tick_count: 0,
            default_mode,
            balance_governor,
            whitelist,
            fas_enabled,
            saved_rates: Vec::new(),
        };
        proof {
            assert(pair_views(r.saved_rates@) =~= Seq::<(Seq<char>, u32)>::empty());
        }
        r
    }

    /// Replaces the managed packages.
    pub fn rebuild_whitelist(&mut self, packages: Vec<String>)
        ensures
            final(self)@ == (EngineModel { whitelist: str_views(packages@), ..old(self)@ }),
    {
        self.whitelist = packages;
    }

    /// Starts a tick: counts it, and says whether this tick fetches the
    /// power state and the foreground package.
    pub fn begin_tick(&mut self) -> (r: (bool, bool))
        ensures
            final(self)@ == old(self)@.begun(),
            r.0 == final(self)@.fetches_power(),
            r.1 == final(self)@.fetches_foreground(),
    {
        self.tick_count = if self.tick_count == u64::MAX {
            0
        } else {
            self.tick_count + 1
        };
        (
            self.tick_count % POWER_EVERY == 0 || self.tick_count == 1,
            self.tick_count % FOREGROUND_EVERY == 0 || self.tick_count == 1,
        )
    }

    /// The call that applies the default profile.
    pub fn default_request(&self) -> (r: ApplyRequest)
        ensures
            r@ == self@.default_apply(),
    {
        match self.default_mode {
            ProfileMode::Performance => ApplyRequest::Performance {
                governor: String::from_str("performance"),
                dnd: true,
                pid: None,
            },
            ProfileMode::Balance => ApplyRequest::Balance { governor: self.balance_governor.clone() },
            ProfileMode::Powersave => ApplyRequest::Powersave,
        }
    }

    fn if_needed(&self, a: ApplyRequest) -> (r: Option<ApplyRequest>)
        ensures
            opt_apply(r) == self@.if_needed(a@),
    {
        let m = a.mode();
        match self.last.profile_mode {
            Some(p) => if p == m {
                None
            } else {
                Some(a)
            },
            None => Some(a),
        }
    }

    /// Records this tick's power state (`None`: not fetched, the remembered
    /// one stands) and suspends while the screen is off or the saver on.
    pub fn power_step(&mut self, fetched: Option<PowerState>) -> (r: PowerStep)
        ensures
            final(self)@ == old(self)@.after_power(fetched),
            match r {
                PowerStep::Suspend(a) => suspends(old(self)@.power_of(fetched)) && opt_apply(a)
                    == old(self)@.power_apply(fetched),
                PowerStep::Proceed => !suspends(old(self)@.power_of(fetched)),
            },
    {
        let p = match fetched {
            Some(p) => p,
            None => PowerState {
                screen_awake: match self.last.screen_awake {
                    Some(b) => b,
                    None => true,
                },
                battery_saver: match self.last.battery_saver {
                    Some(b) => b,
                    None => false,
                },
            },
        };
        let r = if !p.screen_awake || p.battery_saver {
            PowerStep::Suspend(self.if_needed(ApplyRequest::Powersave))
        } else {
            PowerStep::Proceed
        };
        self.last.screen_awake = Some(p.screen_awake);
        self.last.battery_saver = Some(p.battery_saver);
        r
    }

    /// Settles which package is in front. `foreground` is `None` when the
    /// telemetry was not asked this tick.
    pub fn package_step(&mut self, override_pkg: Option<String>, foreground: Option<Option<String>>) -> (r:
        PackageStep)
        ensures
            ({
                let fg = fg_view(foreground);
                let ov = opt_str(override_pkg);
                if old(self)@.idle(ov, fg) {
                    &&& r matches PackageStep::Idle(plan)
                    &&& plan_of(r) == old(self)@.idle_plan()
                    &&& final(self)@ == old(self)@.after_idle()
                } else {
                    &&& final(self)@ == old(self)@
                    &&& match r {
                        PackageStep::Candidate(p) => old(self)@.candidate(ov, fg) == Some(p@),
                        PackageStep::Skip => old(self)@.candidate(ov, fg) is None,
                        PackageStep::Idle(_) => false,
                    }
                }
            }),
    {
        match override_pkg {
            Some(p) => PackageStep::Candidate(p),
            None => match foreground {
                Some(Some(p)) => PackageStep::Candidate(p),
                Some(None) => {
                    let apply = self.if_needed(self.default_request());
                    let had = self.last.pkg.is_some() || self.last.pid.is_some();
                    self.last.pkg = None;
                    self.last.pid = None;
                    PackageStep::Idle(
                        Plan {
                            apply,
                            restore_rate: None,
                            save_current_rate: false,
                            set_rate: None,
                            reset_rate: had,
                        },
                    )
                },
                None => match &self.last.pkg {
                    Some(p) => PackageStep::Candidate(p.clone()),
                    None => PackageStep::Skip,
                },
            },
        }
    }

    /// Whether `pkg` is managed.
    pub fn is_whitelisted(&self, pkg: &String) -> (r: bool)
        ensures
            r == self@.whitelist.contains(pkg@),
    {
        let n = self.whitelist.len();
        let mut i: usize = 0;
        while i < n
            invariant
                n == self.whitelist@.len(),
                i <= n,
                forall|j: int| 0 <= j < i ==> self@.whitelist[j] != pkg@,
            decreases n - i,
        {
            if self.whitelist[i] == *pkg {
                proof {
                    assert(self@.whitelist[i as int] == pkg@);
                }
                return true;
            }
            i = i + 1;
        }
        false
    }

    /// Whether the package in front is settled with its live process, or
    /// must be placed.
    pub fn route_step(&self, pkg: &String, pid_alive: bool) -> (r: Route)
        ensures
            r == self@.route(pkg@, pid_alive),
    {
        let same = match &self.last.pkg {
            Some(lp) => *lp == *pkg,
            None => false,
        };
        let managed = self.is_whitelisted(pkg);
        if same && self.last.pid.is_some() && pid_alive {
            Route::Settled { run_fas: self.fas_enabled && managed }
        } else {
            Route::Resolve { managed }
        }
    }

    /// Confirms that a call succeeded: its profile is the one applied.
    pub fn confirm(&mut self, mode: ProfileMode)
        ensures
            final(self)@ == old(self)@.confirmed(mode),
    {
        self.last.profile_mode = Some(mode);
    }

    /// The snapshot to publish after a tick.
    pub fn publish(&self) -> (r: CurrentState)
        ensures
            opt_str(r.pkg) == self@.last.pkg,
            r.pid == self@.last.pid,
            r.screen_awake == (self@.last.screen_awake == Some(true)),
            r.battery_saver == (self@.last.battery_saver == Some(true)),
            r.profile == match self@.last.profile_mode {
                Some(m) => m,
                None => self@.default_mode,
            },
    {
        CurrentState {
            pkg: self.last.pkg.clone(),
            pid: self.last.pid,
            screen_awake: match self.last.screen_awake {
                Some(b) => b,
                None => false,
            },
            battery_saver: match self.last.battery_saver {
                Some(b) => b,
                None => false,
            },
            profile: match self.last.profile_mode {
                Some(m) => m,
                None => self.default_mode,
            },
        }
    }
}

} // verus!

verus! {

proof fn lemma_pair_views_index(s: Seq<(String, u32)>, j: int)
    requires
        0 <= j < s.len(),
    ensures
        pair_views(s)[j] == (s[j].0@, s[j].1),
        pair_views(s).len() == s.len(),
{
}

proof fn lemma_saved_rate_none(s: Seq<(Seq<char>, u32)>, pkg: Seq<char>)
    ensures
        saved_rate(s, pkg) is None <==> forall|j: int| 0 <= j < s.len() ==> s[j].0 != pkg,
        saved_rate(s, pkg) matches Some(r) ==> exists|j: int|
            0 <= j < s.len() && s[j].0 == pkg && s[j].1 == r && forall|k: int| 0 <= k < j ==> s[k].0 != pkg,
    decreases s.len(),
{
    if s.len() > 0 {
        let t = s.drop_last();
        lemma_saved_rate_none(t, pkg);
        assert(forall|j: int| 0 <= j < t.len() ==> t[j] == s[j]);
        if let Some(r) = saved_rate(t, pkg) {
            let j = choose|j: int|
                0 <= j < t.len() && t[j].0 == pkg && t[j].1 == r && forall|k: int| 0 <= k < j ==> t[k].0 != pkg;
            assert(0 <= j < s.len() && s[j].0 == pkg && s[j].1 == r && forall|k: int| 0 <= k < j ==> s[k].0 != pkg);
        } else if s.last().0 == pkg {
            let j = s.len() - 1;
            assert(0 <= j < s.len() && s[j].0 == pkg && s[j].1 == s.last().1 && forall|k: int| 0 <= k < j ==> s[k].0 != pkg);
        }
    }
}

impl TickEngine {
    /// The refresh rate saved for `pkg`.
    pub fn rate_saved_for(&self, pkg: &String) -> (r: Option<u32>)
        ensures
            r == saved_rate(self@.saved_rates, pkg@),
    {
        let n = self.saved_rates.len();
        let mut i: usize = 0;
        proof {
            lemma_saved_rate_none(self@.saved_rates, pkg@);
        }
        while i < n
            invariant
                n == self.saved_rates@.len(),
                i <= n,
                forall|j: int| 0 <= j < i ==> self@.saved_rates[j].0 != pkg@,
                saved_rate(self@.saved_rates, pkg@) is None <==> forall|j: int|
                    0 <= j < self@.saved_rates.len() ==> self@.saved_rates[j].0 != pkg@,
                saved_rate(self@.saved_rates, pkg@) matches Some(r) ==> exists|j: int|
                    0 <= j < self@.saved_rates.len() && self@.saved_rates[j].0 == pkg@ && self@.saved_rates[j].1
                        == r && forall|k: int| 0 <= k < j ==> self@.saved_rates[k].0 != pkg@,
            decreases n - i,
        {
            proof {
                lemma_pair_views_index(self.saved_rates@, i as int);
            }
            if self.saved_rates[i].0 == *pkg {
                let r = self.saved_rates[i].1;
                proof {
                    if let Some(q) = saved_rate(self@.saved_rates, pkg@) {
                        let j = choose|j: int|
                            0 <= j < self@.saved_rates.len() && self@.saved_rates[j].0 == pkg@
                                && self@.saved_rates[j].1 == q && forall|k: int|
                                0 <= k < j ==> self@.saved_rates[k].0 != pkg@;
                        assert(j == i);
                    }
                }
                return Some(r);
            }
            i = i + 1;
        }
        None
    }

    /// Remembers the rate the display had before `pkg` changed it; a rate
    /// already saved for `pkg` stays.
    pub fn save_rate(&mut self, pkg: &String, rate: u32)
        ensures
            final(self)@ == (EngineModel {
                saved_rates: if saved_rate(old(self)@.saved_rates, pkg@) is None {
                    old(self)@.saved_rates.push((pkg@, rate))
                } else {
                    old(self)@.saved_rates
                },
                ..old(self)@
            }),
            old(self)@.wf() ==> final(self)@.wf(),
    {
        proof {
            lemma_saved_rate_none(self@.saved_rates, pkg@);
        }
        if self.rate_saved_for(pkg).is_none() {
            let ghost before = self.saved_rates@;
            self.saved_rates.push((pkg.clone(), rate));
            proof {
                assert(pair_views(self.saved_rates@) =~= pair_views(before).push((pkg@, rate)));
            }
        }
    }

    fn drop_rates(&mut self, pkg: &String)
        ensures
            final(self)@ == (EngineModel {
                saved_rates: drop_rate(old(self)@.saved_rates, pkg@),
                ..old(self)@
            }),
            old(self)@.wf() ==> final(self)@.wf(),
    {
        let mut rest: Vec<(String, u32)> = Vec::new();
        std::mem::swap(&mut self.saved_rates, &mut rest);
        let ghost orig = rest@;
        let n = rest.len();
        let mut i: usize = 0;
        proof {
            assert(pair_views(orig).take(0) =~= Seq::<(Seq<char>, u32)>::empty());
            assert(pair_views(self.saved_rates@) =~= Seq::<(Seq<char>, u32)>::empty());
        }
        while i < n
            invariant
                n == orig.len(),
                i <= n,
                rest@ == orig.skip(i as int),
                pair_views(self.saved_rates@) == drop_rate(pair_views(orig).take(i as int), pkg@),
                self.last == old(self).last,
                self.tick_count == old(self).tick_count,
                self.default_mode == old(self).default_mode,
                self.balance_governor == old(self).balance_governor,
                self.whitelist == old(self).whitelist,
                self.fas_enabled == old(self).fas_enabled,
            decreases n - i,
        {
            let e = rest.remove(0);
            proof {
                assert(pair_views(orig).take(i as int + 1).drop_last() =~= pair_views(orig).take(i as int));
                assert(e == orig[i as int]);
                lemma_pair_views_index(orig, i as int);
                assert(rest@ =~= orig.skip(i as int + 1));
            }
            if !(e.0 == *pkg) {
                let ghost before = self.saved_rates@;
                self.saved_rates.push(e);
                proof {
                    assert(pair_views(self.saved_rates@) =~= pair_views(before).push((e.0@, e.1)));
                }
            }
            i = i + 1;
        }
        proof {
            assert(pair_views(orig).take(n as int) =~= pair_views(orig));
            if keys_unique(pair_views(orig)) {
                lemma_drop_rate_unique(pair_views(orig), pkg@);
            }
        }
    }
}

} // verus!

verus! {

fn contains_rate(rates: &Vec<u32>, r: u32) -> (b: bool)
    ensures
        b == rates@.contains(r),
{
    let mut i: usize = 0;
    while i < rates.len()
        invariant
            i <= rates@.len(),
            forall|j: int| 0 <= j < i ==> rates@[j] != r,
        decreases rates.len() - i,
    {
        if rates[i] == r {
            return true;
        }
        i = i + 1;
    }
    false
}

/// The profile a lower-cased configured mode names.
pub fn game_mode_from_lower(l: &str) -> (r: ProfileMode)
    ensures
        r == mode_of_lower(l@),
{
    if same_text(l, "powersave") {
        ProfileMode::Powersave
    } else if same_text(l, "balance") {
        ProfileMode::Balance
    } else {
        ProfileMode::Performance
    }
}

/// The profile a game's configured mode names.
pub fn game_mode_of(game: Option<&GameProfile>) -> (r: ProfileMode)
    ensures
        r == game_mode(opt_game(game)),
{
    match game {
        Some(g) => match &g.mode {
            Some(m) => game_mode_from_lower(to_lowercase(m.as_str()).as_str()),
            None => ProfileMode::Performance,
        },
        None => ProfileMode::Performance,
    }
}

impl TickEngine {
    fn game_request(&self, game: Option<&GameProfile>, pid: i32) -> (r: ApplyRequest)
        ensures
            r@ == self@.game_apply(opt_game(game), pid),
    {
        match game_mode_of(game) {
            ProfileMode::Performance => ApplyRequest::Performance {
                governor: match game {
                    Some(g) => g.cpu_governor.clone(),
                    None => self.balance_governor.clone(),
                },
                dnd: match game {
                    Some(g) => g.enable_dnd,
                    None => true,
                },
                pid: Some(pid),
            },
            ProfileMode::Balance => ApplyRequest::Balance {
                governor: match game {
                    Some(g) => if g.cpu_governor.as_str().unicode_len() > 0 {
                        g.cpu_governor.clone()
                    } else {
                        self.balance_governor.clone()
                    },
                    None => self.balance_governor.clone(),
                },
            },
            ProfileMode::Powersave => ApplyRequest::Powersave,
        }
    }

    /// Places the package in front that is not settled: with `pid` (its
    /// resolved process) and its managed profile `game`, it gets its own
    /// profile and refresh rate (when the display supports it); without a
    /// process, or unmanaged, the default profile. A refresh rate saved for
    /// the package that left is restored.
    pub fn place_step(&mut self, pkg: String, pid: Option<i32>, game: Option<&GameProfile>, supported_rates: &Vec<u32>) -> (r: Plan)
        ensures
            r@ == old(self)@.place_plan(pkg@, pid, opt_game(game), supported_rates@),
            final(self)@ == old(self)@.after_place(pkg@, pid),
            old(self)@.wf() ==> final(self)@.wf(),
    {
        let restore = match &self.last.pkg {
            Some(lp) => if !(*lp == pkg) {
                self.rate_saved_for(lp)
            } else {
                None
            },
            None => None,
        };
        let plan = match pid {
            Some(id) => {
                let apply = self.if_needed(self.game_request(game, id));
                let rr = match game {
                    Some(g) => g.refresh_rate,
                    None => None,
                };
                let save = rr.is_some() && self.rate_saved_for(&pkg).is_none();
                let set_rate = match rr {
                    Some(x) => if contains_rate(supported_rates, x) {
                        Some(x)
                    } else {
                        None
                    },
                    None => None,
                };
                Plan { apply, restore_rate: restore, save_current_rate: save, set_rate, reset_rate: false }
            },
            None => Plan {
                apply: self.if_needed(self.default_request()),
                restore_rate: restore,
                save_current_rate: false,
                set_rate: None,
                reset_rate: false,
            },
        };
        let leaving = match &self.last.pkg {
            Some(lp) => if !(*lp == pkg) {
                Some(lp.clone())
            } else {
                None
            },
            None => None,
        };
        match leaving {
            Some(lp) => self.drop_rates(&lp),
            None => {},
        }
        self.last.pkg = Some(pkg);
        self.last.pid = pid;
        plan
    }

    /// The call a scaling decision asks for, with the game's governor for
    /// a boost.
    pub fn fas_step(&self, action: ScalingAction, game: Option<&GameProfile>) -> (r: Option<ApplyRequest>)
        ensures
            opt_apply(r) == self@.fas_apply(action, opt_game(game)),
    {
        match action {
            ScalingAction::Boost => self.if_needed(
                ApplyRequest::Performance {
                    governor: match game {
                        Some(g) => g.cpu_governor.clone(),
                        None => self.balance_governor.clone(),
                    },
                    dnd: true,
                    pid: None,
                },
            ),
            ScalingAction::Maintain => None,
            ScalingAction::Reduce => self.if_needed(self.default_request()),
        }
    }

    /// Whether a change may be logged at `now_ms`: nothing was logged yet,
    /// or the last log is at least `debounce_ms` old.
    pub fn should_log_change(&self, now_ms: u64, debounce_ms: u64) -> (r: bool)
        ensures
            r == match self.last.last_log_ms {
                None => true,
                Some(t) => (if now_ms >= t { now_ms - t } else { 0 }) >= debounce_ms,
            },
    {
        match self.last.last_log_ms {
            None => true,
            Some(t) => {
                let waited = if now_ms >= t { now_ms - t } else { 0 };
                waited >= debounce_ms
            },
        }
    }

    /// Records that a change was logged at `now_ms`.
    pub fn bump_log(&mut self, now_ms: u64)
        ensures
            final(self)@ == (EngineModel {
                last: LastModel { last_log_ms: Some(now_ms), ..old(self)@.last },
                ..old(self)@
            }),
    {
        self.last.last_log_ms = Some(now_ms);
    }
}

/// Debounce of repeated tick errors: the last message logged and when.
pub struct ErrorDebounce {
    pub last: Option<(String, u64)>,
    pub window_ms: u64,
}

impl ErrorDebounce {
    pub fn new(window_ms: u64) -> (r: ErrorDebounce)
        ensures
            r.last is None,
            r.window_ms == window_ms,
    {
        ErrorDebounce { last: None, window_ms }
    }

    /// Whether the error `msg` at `now_ms` is logged: a new message, or
    /// the same one after the window. A logged error is remembered.
    pub fn record(&mut self, msg: String, now_ms: u64) -> (r: bool)
        ensures
            r == match old(self).last {
                None => true,
                Some((m, t)) => m@ != msg@ || (if now_ms >= t { now_ms - t } else { 0 }) >= old(self).window_ms,
            },
            r ==> final(self).last == Some((msg, now_ms)),
            !r ==> final(self).last == old(self).last,
            final(self).window_ms == old(self).window_ms,
    {
        let log = match &self.last {
            None => true,
            Some((m, t)) => {
                let waited = if now_ms >= *t { now_ms - *t } else { 0 };
                !(*m == msg) || waited >= self.window_ms
            },
        };
        if log {
            self.last = Some((msg, now_ms));
        }
        log
    }
}

} // verus!

verus! {

/// What telemetry reports during a tick, whether or not the tick asks.
pub struct TickInputs {
    pub power: PowerState,
    pub override_pkg: Option<Seq<char>>,
    pub foreground: Option<Seq<char>>,
    /// The remembered process still exists.
    pub pid_alive: bool,
    /// The process resolved for a managed package.
    pub resolved_pid: Option<i32>,
    /// The managed profile of the package in front.
    pub game: Option<GameProfile>,
    pub supported: Seq<u32>,
    /// The decision of a scaling sub-tick.
    pub fas_action: ScalingAction,
}

impl EngineModel {
    /// One whole tick, the steps chained in the order the daemon's loop
    /// runs them: the engine after it and the call it makes, if any. Each
    /// step here is the one the engine's methods are proved against; the
    /// loop that calls those methods in this order lives outside the
    /// verified library and is not checked against this chaining.
    pub open spec fn tick(self, i: TickInputs) -> (EngineModel, Option<ApplyModel>) {
        let e1 = self.begun();
        let fetched = if e1.fetches_power() {
            Some(i.power)
        } else {
            None
        };
        let e2 = e1.after_power(fetched);
        if suspends(e1.power_of(fetched)) {
            (e2, e1.power_apply(fetched))
        } else {
            let fg = if e2.fetches_foreground() && i.override_pkg is None {
                Some(i.foreground)
            } else {
                None
            };
            if e2.idle(i.override_pkg, fg) {
                (e2.after_idle(), e2.idle_plan().apply)
            } else {
                match e2.candidate(i.override_pkg, fg) {
                    None => (e2, None),
                    Some(pkg) => match e2.route(pkg, i.pid_alive) {
                        Route::Settled { run_fas } => if run_fas {
                            (e2, e2.fas_apply(i.fas_action, i.game))
                        } else {
                            (e2, None)
                        },
                        Route::Resolve { managed } => {
                            let pid = if managed {
                                i.resolved_pid
                            } else {
                                None
                            };
                            let game = if managed {
                                i.game
                            } else {
                                None
                            };
                            (e2.after_place(pkg, pid), e2.place_plan(pkg, pid, game, i.supported).apply)
                        },
                    },
                }
            }
        }
    }

    /// A tick whose call, if any, succeeded.
    pub open spec fn tick_confirmed(self, i: TickInputs) -> EngineModel {
        let (e, a) = self.tick(i);
        match a {
            Some(m) => e.confirmed(m.mode()),
            None => e,
        }
    }
}

/// Two ticks on unchanged telemetry make at most one profile call: once
/// its call has succeeded, a tick finds its profile applied. Telemetry that
/// the first tick does not ask for must agree with what the engine
/// remembers, and a scaling sub-tick must not ask for a change. This holds
/// of the steps chained as in `EngineModel::tick`; the daemon's loop runs
/// them in that order, unverified.
pub proof fn lemma_tick_idempotent(e: EngineModel, i: TickInputs)
    requires
        e.begun().fetches_power() || (e.last.screen_awake == Some(i.power.screen_awake)
            && e.last.battery_saver == Some(i.power.battery_saver)),
        i.override_pkg is Some || e.begun().fetches_foreground() || e.last.pkg == i.foreground,
        i.fas_action == ScalingAction::Maintain || !e.fas_enabled,
    ensures
        !(e.tick(i).1 is Some && e.tick_confirmed(i).tick(i).1 is Some),
{
}

/// With the screen off, the first tick applies powersave (unless it is
/// already applied) and, once that succeeded, the next tick applies
/// nothing.
/// Like the law above, this speaks of the steps chained as in
/// `EngineModel::tick`.
pub proof fn lemma_screen_off_once(e: EngineModel, i: TickInputs)
    requires
        !i.power.screen_awake,
        e.begun().fetches_power() || (e.last.screen_awake == Some(i.power.screen_awake)
            && e.last.battery_saver == Some(i.power.battery_saver)),
    ensures
        e.tick(i).1 == (if e.last.profile_mode == Some(ProfileMode::Powersave) {
            None
        } else {
            Some(ApplyModel::Powersave)
        }),
        e.tick_confirmed(i).tick(i).1 is None,
{
}

} // verus!

verus! {

impl ApplyRequest {
    /// The plain call of a profile: performance with its own governor and
    /// do-not-disturb, balance with `balance_governor`, powersave.
    pub fn for_mode(mode: ProfileMode, balance_governor: &String) -> (r: ApplyRequest)
        ensures
            r@ == match mode {
                ProfileMode::Performance => ApplyModel::Performance {
                    governor: "performance"@,
                    dnd: true,
                    pid: None,
                },
                ProfileMode::Balance => ApplyModel::Balance { governor: balance_governor@ },
                ProfileMode::Powersave => ApplyModel::Powersave,
            },
    {
        match mode {
            ProfileMode::Performance => ApplyRequest::Performance {
                governor: String::from_str("performance"),
                dnd: true,
                pid: None,
            },
            ProfileMode::Balance => ApplyRequest::Balance { governor: balance_governor.clone() },
            ProfileMode::Powersave => ApplyRequest::Powersave,
        }
    }
}

} // verus!

verus! {

impl TickEngine {
    /// Takes a new default governor from reloaded settings. When it
    /// changed while balance is applied, the balance call is made again
    /// with it.
    pub fn reload_settings(&mut self, default_governor: String) -> (r: Option<ApplyRequest>)
        ensures
            final(self)@ == (EngineModel { balance_governor: default_governor@, ..old(self)@ }),
            r is Some <==> (old(self)@.balance_governor != default_governor@ && old(self)@.last.profile_mode
                == Some(ProfileMode::Balance)),
            r matches Some(req) ==> req@ == (ApplyModel::Balance { governor: default_governor@ }),
    {
        let changed = !(self.balance_governor == default_governor);
        self.balance_governor = default_governor;
        let balanced = match self.last.profile_mode {
            Some(m) => m == ProfileMode::Balance,
            None => false,
        };
        if changed && balanced {
            Some(ApplyRequest::Balance { governor: self.balance_governor.clone() })
        } else {
            None
        }
    }
}

} // verus!

verus! {

/// The wait between ticks grows this many times while no managed game is
/// settled in front.
pub const IDLE_FACTOR: u64 = 2;

/// The wait between ticks grows this many times while the device is
/// suspended (screen off or saver on).
pub const SUSPENDED_FACTOR: u64 = 5;

impl EngineModel {
    pub open spec fn suspended(self) -> bool {
        self.last.screen_awake == Some(false) || self.last.battery_saver == Some(true)
    }

    pub open spec fn in_game(self) -> bool {
        self.last.pid is Some && match self.last.pkg {
            Some(p) => self.whitelist.contains(p),
            None => false,
        }
    }
}

pub open spec fn scaled(base: u64, f: u64) -> u64 {
    if base * f > u64::MAX {
        u64::MAX
    } else {
        (base * f) as u64
    }
}

impl TickEngine {
    /// The wait before the next tick: `base_ms` while a managed game is in
    /// front, longer while idle, longer still while suspended.
    pub fn next_interval_ms(&self, base_ms: u64) -> (r: u64)
        ensures
            r == (if self@.suspended() {
                scaled(base_ms, SUSPENDED_FACTOR)
            } else if self@.in_game() {
                base_ms
            } else {
                scaled(base_ms, IDLE_FACTOR)
            }),
    {
        let suspended = match self.last.screen_awake {
            Some(b) => !b,
            None => false,
        } || match self.last.battery_saver {
            Some(b) => b,
            None => false,
        };
        if suspended {
            return base_ms.checked_mul(SUSPENDED_FACTOR).unwrap_or(u64::MAX);
        }
        let in_game = match (&self.last.pkg, self.last.pid) {
            (Some(p), Some(_)) => self.is_whitelisted(p),
            _ => false,
        };
        if in_game {
            base_ms
        } else {
            base_ms.checked_mul(IDLE_FACTOR).unwrap_or(u64::MAX)
        }
    }
}

} // verus!
