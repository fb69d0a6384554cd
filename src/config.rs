//! The list of managed packages and their per-package settings.
use crate::buffer::TargetFps;
use crate::text::same_text;
use vstd::prelude::*;

verus! {

/// The target of one package: one rate or a set of rates.
#[derive(Clone, Debug)]
pub enum TargetFpsConfig {
    Single(u32),
    Array(Vec<u32>),
}

impl Default for TargetFpsConfig {
    /// Sixty frames per second.
    fn default() -> (r: TargetFpsConfig)
        ensures
            r == TargetFpsConfig::Single(60),
    {
        TargetFpsConfig::Single(60)
    }
}

impl TargetFpsConfig {
    /// The same candidates, in the form the frame buffer takes.
    pub fn to_buffer_config(&self) -> (r: TargetFps)
        ensures
            match (self, r) {
                (TargetFpsConfig::Single(a), TargetFps::Single(b)) => a == b,
                (TargetFpsConfig::Array(a), TargetFps::Array(b)) => a@ == b@,
                _ => false,
            },
    {
        match self {
            TargetFpsConfig::Single(v) => TargetFps::Single(*v),
            TargetFpsConfig::Array(a) => {
                let mut b: Vec<u32> = Vec::new();
                let mut i: usize = 0;
                while i < a.len()
                    invariant
                        i <= a@.len(),
                        b@ == a@.take(i as int),
                    decreases a.len() - i,
                {
                    proof {
                        assert(a@.take(i as int + 1) =~= a@.take(i as int).push(a@[i as int]));
                    }
                    b.push(a[i]);
                    i = i + 1;
                }
                proof {
                    assert(a@.take(a@.len() as int) =~= a@);
                }
                TargetFps::Array(b)
            },
        }
    }
}

/// The settings of one managed package.
#[derive(Clone, Debug)]
pub struct GameProfile {
    pub package: String,
    pub cpu_governor: String,
    pub enable_dnd: bool,
    pub target_fps: Option<TargetFpsConfig>,
    pub refresh_rate: Option<u32>,
    pub mode: Option<String>,
}

/// Why an edit of the list was refused.
#[derive(Clone, Debug)]
pub enum GameListError {
    AlreadyExists(String),
    NotFound(String),
}

impl GameListError {
    pub open spec fn message_spec(&self) -> Seq<char> {
        match self {
            GameListError::AlreadyExists(p) => "Game "@ + p@ + " already exists"@,
            GameListError::NotFound(p) => "Game "@ + p@ + " not found"@,
        }
    }

    pub fn message(&self) -> (r: String)
        ensures
            r@ == self.message_spec(),
    {
        let mut s = String::new();
        s.append("Game ");
        match self {
            GameListError::AlreadyExists(p) => {
                s.append(p.as_str());
                s.append(" already exists");
            },
            GameListError::NotFound(p) => {
                s.append(p.as_str());
                s.append(" not found");
            },
        }
        proof {
            assert(s@ =~= self.message_spec());
        }
        s
    }
}

/// The managed packages, in the order they were added.
#[derive(Clone, Debug)]
pub struct GameList {
    pub game: Vec<GameProfile>,
}

/// Index of the first profile of `pkg`.
pub open spec fn first_index(s: Seq<GameProfile>, pkg: Seq<char>) -> Option<int>
    decreases s.len(),
{
    if s.len() == 0 {
        None
    } else {
        match first_index(s.drop_last(), pkg) {
            Some(i) => Some(i),
            None => if s.last().package@ == pkg {
                Some(s.len() - 1)
            } else {
                None
            },
        }
    }
}

/// The profiles that are not of `pkg`, in order.
pub open spec fn without(s: Seq<GameProfile>, pkg: Seq<char>) -> Seq<GameProfile>
    decreases s.len(),
{
    if s.len() == 0 {
        s
    } else if s.last().package@ == pkg {
        without(s.drop_last(), pkg)
    } else {
        without(s.drop_last(), pkg).push(s.last())
    }
}

proof fn lemma_first_index(s: Seq<GameProfile>, pkg: Seq<char>)
    ensures
        first_index(s, pkg) matches Some(i) ==> 0 <= i < s.len() && s[i].package@ == pkg && forall|
            j: int,
        | 0 <= j < i ==> s[j].package@ != pkg,
        first_index(s, pkg) is None ==> forall|j: int| 0 <= j < s.len() ==> s[j].package@ != pkg,
    decreases s.len(),
{
    if s.len() > 0 {
        let t = s.drop_last();
        lemma_first_index(t, pkg);
        assert(forall|j: int| 0 <= j < t.len() ==> t[j] == s[j]);
    }
}

proof fn lemma_without_len(s: Seq<GameProfile>, pkg: Seq<char>)
    ensures
        without(s, pkg).len() <= s.len(),
        without(s, pkg).len() == s.len() <==> first_index(s, pkg) is None,
    decreases s.len(),
{
    if s.len() > 0 {
        lemma_without_len(s.drop_last(), pkg);
    }
}

/// The profile after an update: each given field replaces the old one; a
/// set of targets wins over a single target.
pub open spec fn updated(
    g: GameProfile,
    governor: Option<String>,
    dnd: Option<bool>,
    target_fps: Option<u32>,
    refresh_rate: Option<u32>,
    mode: Option<String>,
    fps_array: Option<Vec<u32>>,
) -> GameProfile {
    GameProfile {
        package: g.package,
        cpu_governor: match governor {
            Some(v) => v,
            None => g.cpu_governor,
        },
        enable_dnd: match dnd {
            Some(d) => d,
            None => g.enable_dnd,
        },
        target_fps: match fps_array {
            Some(a) => Some(TargetFpsConfig::Array(a)),
            None => match target_fps {
                Some(f) => Some(TargetFpsConfig::Single(f)),
                None => g.target_fps,
            },
        },
        refresh_rate: match refresh_rate {
            Some(r) => Some(r),
            None => g.refresh_rate,
        },
        mode: match mode {
            Some(m) => Some(m),
            None => g.mode,
        },
    }
}

impl GameList {
    pub fn new() -> (r: GameList)
        ensures
            r.game@.len() == 0,
    {
        GameList { game: Vec::new() }
    }

    /// Index of the first profile of `package`.
    pub fn position(&self, package: &str) -> (r: Option<usize>)
        ensures
            match r {
                Some(i) => first_index(self.game@, package@) == Some(i as int) && i < self.game@.len(),
                None => first_index(self.game@, package@) is None,
            },
    {
        let n = self.game.len();
        let mut i: usize = 0;
        while i < n
            invariant
                n == self.game@.len(),
                i <= n,
                first_index(self.game@.take(i as int), package@) is None,
            decreases n - i,
        {
            proof {
                assert(self.game@.take(i as int + 1).drop_last() =~= self.game@.take(i as int));
            }
            if same_text(self.game[i].package.as_str(), package) {
                proof {
                    let t = self.game@.take(i as int + 1);
                    assert(first_index(t, package@) == Some(i as int));
                    lemma_prefix_index(self.game@, package@, i as int + 1);
                }
                return Some(i);
            }
            i = i + 1;
        }
        proof {
            assert(self.game@.take(n as int) =~= self.game@);
        }
        None
    }

    /// The profile of `package`, if it is managed.
    pub fn find(&self, package: &str) -> (r: Option<&GameProfile>)
        ensures
            match r {
                Some(g) => first_index(self.game@, package@) matches Some(i) && *g == self.game@[i],
                None => first_index(self.game@, package@) is None,
            },
    {
        proof {
            lemma_first_index(self.game@, package@);
        }
        match self.position(package) {
            Some(i) => Some(&self.game[i]),
            None => None,
        }
    }

    /// Adds a profile; a package is listed at most once.
    pub fn add(&mut self, profile: GameProfile) -> (r: Result<(), GameListError>)
        ensures
            first_index(old(self).game@, profile.package@) is None <==> r is Ok,
            r is Ok ==> final(self).game@ == old(self).game@.push(profile),
            r matches Err(e) ==> e == GameListError::AlreadyExists(profile.package)
                && final(self).game@ == old(self).game@,
    {
        match self.position(profile.package.as_str()) {
            Some(_) => Err(GameListError::AlreadyExists(profile.package)),
            None => {
                self.game.push(profile);
                Ok(())
            },
        }
    }

    /// Removes every profile of `package`; an error when there is none.
    pub fn remove(&mut self, package: &str) -> (r: Result<(), GameListError>)
        ensures
            final(self).game@ == without(old(self).game@, package@),
            first_index(old(self).game@, package@) is Some <==> r is Ok,
            r matches Err(e) ==> e->NotFound_0@ == package@ && e is NotFound,
    {
        let mut rest: Vec<GameProfile> = Vec::new();
        std::mem::swap(&mut self.game, &mut rest);
        let ghost orig = rest@;
        let n = rest.len();
        let mut i: usize = 0;
        while i < n
            invariant
                n == orig.len(),
                i <= n,
                rest@ == orig.skip(i as int),
                self.game@ == without(orig.take(i as int), package@),
            decreases n - i,
        {
            let g = rest.remove(0);
            proof {
                assert(orig.take(i as int + 1).drop_last() =~= orig.take(i as int));
                assert(g == orig[i as int]);
                assert(rest@ =~= orig.skip(i as int + 1));
            }
            if !same_text(g.package.as_str(), package) {
                self.game.push(g);
            }
            i = i + 1;
        }
        proof {
            assert(orig.take(n as int) =~= orig);
            lemma_without_len(orig, package@);
        }
        if self.game.len() == n {
            Err(GameListError::NotFound(package.to_owned()))
        } else {
            Ok(())
        }
    }

    /// Changes the given fields of the profile of `package`.
    pub fn update_with_array(
        &mut self,
        package: &str,
        governor: Option<String>,
        dnd: Option<bool>,
        target_fps: Option<u32>,
        refresh_rate: Option<u32>,
        mode: Option<String>,
        fps_array: Option<Vec<u32>>,
    ) -> (r: Result<(), GameListError>)
        ensures
            first_index(old(self).game@, package@) is Some <==> r is Ok,
            match first_index(old(self).game@, package@) {
                Some(i) => final(self).game@ == old(self).game@.update(
                    i,
                    updated(old(self).game@[i], governor, dnd, target_fps, refresh_rate, mode, fps_array),
                ),
                None => final(self).game@ == old(self).game@,
            },
            r matches Err(e) ==> e->NotFound_0@ == package@ && e is NotFound,
    {
        match self.position(package) {
            Some(i) => {
                proof {
                    lemma_first_index(self.game@, package@);
                }
                let g = self.game.remove(i);
                let ng = GameProfile {
                    package: g.package,
                    cpu_governor: match governor {
                        Some(v) => v,
                        None => g.cpu_governor,
                    },
                    enable_dnd: match dnd {
                        Some(d) => d,
                        None => g.enable_dnd,
                    },
                    target_fps: match fps_array {
                        Some(a) => Some(TargetFpsConfig::Array(a)),
                        None => match target_fps {
                            Some(f) => Some(TargetFpsConfig::Single(f)),
                            None => g.target_fps,
                        },
                    },
                    refresh_rate: match refresh_rate {
                        Some(r) => Some(r),
                        None => g.refresh_rate,
                    },
                    mode: match mode {
                        Some(m) => Some(m),
                        None => g.mode,
                    },
                };
                self.game.insert(i, ng);
                proof {
                    assert(self.game@ =~= old(self).game@.update(i as int, ng));
                }
                Ok(())
            },
            None => Err(GameListError::NotFound(package.to_owned())),
        }
    }
}

proof fn lemma_prefix_index(s: Seq<GameProfile>, pkg: Seq<char>, k: int)
    requires
        0 <= k <= s.len(),
        first_index(s.take(k), pkg) is Some,
    ensures
        first_index(s, pkg) == first_index(s.take(k), pkg),
    decreases s.len(),
{
    if k < s.len() {
        assert(s.drop_last().take(k) =~= s.take(k));
        lemma_prefix_index(s.drop_last(), pkg, k);
    } else {
        assert(s.take(k) =~= s);
    }
}

} // verus!

verus! {

/// Where the configuration files live.
pub const CONFIG_DIR: &'static str = "/data/adb/.config/auriya";

/// The path of the global settings file.
pub fn settings_path() -> (r: String)
    ensures
        r@ == CONFIG_DIR@ + "/settings.toml"@,
{
    let mut s = String::from_str(CONFIG_DIR);
    s.append("/settings.toml");
    s
}

/// The path of the managed package list.
pub fn gamelist_path() -> (r: String)
    ensures
        r@ == CONFIG_DIR@ + "/gamelist.toml"@,
{
    let mut s = String::from_str(CONFIG_DIR);
    s.append("/gamelist.toml");
    s
}

/// Global CPU settings.
#[derive(Clone, Debug)]
pub struct CpuConfig {
    pub default_governor: String,
}

/// Global do-not-disturb settings.
#[derive(Clone, Copy, Debug)]
pub struct DndConfig {
    pub default_enable: bool,
}

impl GameProfile {
    /// The profile a newly added package gets: performance governor and
    /// mode, do-not-disturb on, no target and no refresh rate.
    pub fn managed_default(package: String) -> (r: GameProfile)
        ensures
            r.package == package,
            r.cpu_governor@ == "performance"@,
            r.enable_dnd,
            r.target_fps is None,
            r.refresh_rate is None,
            r.mode matches Some(m) && m@ == "performance"@,
    {
        GameProfile {
            package,
            cpu_governor: String::from_str("performance"),
            enable_dnd: true,
            target_fps: None,
            refresh_rate: None,
            mode: Some(String::from_str("performance")),
        }
    }
}

} // verus!
