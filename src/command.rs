//! The verbs of the administrative protocol and the parser of one line.
use crate::text::{
    eq_ascii_nocase, eq_ignore_ascii_case, has_prefix, number_list, parse_u32, parse_u32_list,
    parse_u32_spec, same_text, skip_chars, split_words, starts_with, to_uppercase, upper_of, views, words,
};
use crate::types::ProfileMode;
use vstd::prelude::*;

verus! {

/// The log level a client asks for.
#[derive(Clone, Copy, Debug, PartialEq, Eq, Structural)]
pub enum LogLevelCmd {
    Debug,
    Info,
    Warn,
    Error,
}

/// One command of the protocol, with its arguments.
#[derive(Clone, Debug, PartialEq, Eq)]
pub enum Command {
    Help,
    Status,
    Enable,
    Disable,
    Reload,
    Restart,
    SetLog(LogLevelCmd),
    Inject(String),
    ClearInject,
    GetPid,
    Ping,
    Quit,
    SetProfile(ProfileMode),
    AddGame(String),
    RemoveGame(String),
    ListPackages,
    GetGameList,
    /// Package, governor, do-not-disturb, single target, refresh rate, mode
    /// and a set of targets.
    UpdateGame(
        String,
        Option<String>,
        Option<bool>,
        Option<u32>,
        Option<u32>,
        Option<String>,
        Option<Vec<u32>>,
    ),
    SetFps(u32),
    GetFps,
    GetSupportedRates,
}

/// The changes an `UPDATE_GAME` line asks for.
pub struct UpdateArgs {
    pub governor: Option<Seq<char>>,
    pub dnd: Option<bool>,
    pub target_fps: Option<u32>,
    pub refresh_rate: Option<u32>,
    pub mode: Option<Seq<char>>,
    pub fps_array: Option<Seq<u32>>,
}

/// The mathematical content of a command.
pub enum CommandModel {
    Help,
    Status,
    Enable,
    Disable,
    Reload,
    Restart,
    SetLog(LogLevelCmd),
    Inject(Seq<char>),
    ClearInject,
    GetPid,
    Ping,
    Quit,
    SetProfile(ProfileMode),
    AddGame(Seq<char>),
    RemoveGame(Seq<char>),
    ListPackages,
    GetGameList,
    UpdateGame(Seq<char>, UpdateArgs),
    SetFps(u32),
    GetFps,
    GetSupportedRates,
}

/// Why a line is not a command.
pub enum ParseError {
    SetLogUsage,
    SetFpsUsage,
    SetProfileUsage,
    Unknown,
}

impl ParseError {
    pub open spec fn message(self) -> Seq<char> {
        match self {
            ParseError::SetLogUsage => "usage: SETLOG <DEBUG|INFO|WARN|ERROR>"@,
            ParseError::SetFpsUsage => "usage: SET_FPS <number>"@,
            ParseError::SetProfileUsage => "usage: SETPROFILE <PERFORMANCE|BALANCE|POWERSAVE>"@,
            ParseError::Unknown => "unknown command (try HELP)"@,
        }
    }
}

pub open spec fn opt_view(o: Option<String>) -> Option<Seq<char>> {
    match o {
        Some(s) => Some(s@),
        None => None,
    }
}

pub open spec fn opt_vec_view(o: Option<Vec<u32>>) -> Option<Seq<u32>> {
    match o {
        Some(v) => Some(v@),
        None => None,
    }
}

impl View for Command {
    type V = CommandModel;

    open spec fn view(&self) -> CommandModel {
        match self {
            Command::Help => CommandModel::Help,
            Command::Status => CommandModel::Status,
            Command::Enable => CommandModel::Enable,
            Command::Disable => CommandModel::Disable,
            Command::Reload => CommandModel::Reload,
            Command::Restart => CommandModel::Restart,
            Command::SetLog(l) => CommandModel::SetLog(*l),
            Command::Inject(p) => CommandModel::Inject(p@),
            Command::ClearInject => CommandModel::ClearInject,
            Command::GetPid => CommandModel::GetPid,
            Command::Ping => CommandModel::Ping,
            Command::Quit => CommandModel::Quit,
            Command::SetProfile(m) => CommandModel::SetProfile(*m),
            Command::AddGame(p) => CommandModel::AddGame(p@),
            Command::RemoveGame(p) => CommandModel::RemoveGame(p@),
            Command::ListPackages => CommandModel::ListPackages,
            Command::GetGameList => CommandModel::GetGameList,
            Command::UpdateGame(p, g, d, f, r, m, a) => CommandModel::UpdateGame(
                p@,
                UpdateArgs {
                    governor: opt_view(*g),
                    dnd: *d,
                    target_fps: *f,
                    refresh_rate: *r,
                    mode: opt_view(*m),
                    fps_array: opt_vec_view(*a),
                },
            ),
            Command::SetFps(n) => CommandModel::SetFps(*n),
            Command::GetFps => CommandModel::GetFps,
            Command::GetSupportedRates => CommandModel::GetSupportedRates,
        }
    }
}

/// The word `w` is the verb `a` or its alias `b`, in any case.
pub open spec fn verb(w: Seq<char>, a: Seq<char>, b: Seq<char>) -> bool {
    eq_ascii_nocase(w, a) || eq_ascii_nocase(w, b)
}

/// The level an argument names, given in upper case.
pub open spec fn level_named(u: Seq<char>) -> Option<LogLevelCmd> {
    if u == "DEBUG"@ {
        Some(LogLevelCmd::Debug)
    } else if u == "INFO"@ {
        Some(LogLevelCmd::Info)
    } else if u == "WARN"@ {
        Some(LogLevelCmd::Warn)
    } else if u == "ERROR"@ {
        Some(LogLevelCmd::Error)
    } else {
        None
    }
}

/// The profile an argument names, given in upper case.
pub open spec fn mode_named(u: Seq<char>) -> Option<ProfileMode> {
    if u == "PERFORMANCE"@ {
        Some(ProfileMode::Performance)
    } else if u == "BALANCE"@ {
        Some(ProfileMode::Balance)
    } else if u == "POWERSAVE"@ {
        Some(ProfileMode::Powersave)
    } else {
        None
    }
}

/// `true` and `false` as `str::parse::<bool>` reads them; anything else
/// counts as `true`.
pub open spec fn dnd_value(s: Seq<char>) -> bool {
    if s == "false"@ {
        false
    } else {
        true
    }
}

pub open spec fn no_update() -> UpdateArgs {
    UpdateArgs {
        governor: None,
        dnd: None,
        target_fps: None,
        refresh_rate: None,
        mode: None,
        fps_array: None,
    }
}

/// One `key=value` argument applied; unknown keys are ignored.
pub open spec fn apply_arg(u: UpdateArgs, a: Seq<char>) -> UpdateArgs {
    if has_prefix(a, "gov="@) {
        UpdateArgs { governor: Some(a.skip("gov="@.len() as int)), ..u }
    } else if has_prefix(a, "dnd="@) {
        UpdateArgs { dnd: Some(dnd_value(a.skip("dnd="@.len() as int))), ..u }
    } else if has_prefix(a, "fps="@) {
        UpdateArgs { target_fps: parse_u32_spec(a.skip("fps="@.len() as int)), ..u }
    } else if has_prefix(a, "fps_array="@) {
        let arr = number_list(a.skip("fps_array="@.len() as int));
        if arr.len() > 0 {
            UpdateArgs { fps_array: Some(arr), ..u }
        } else {
            u
        }
    } else if has_prefix(a, "rate="@) {
        UpdateArgs { refresh_rate: parse_u32_spec(a.skip("rate="@.len() as int)), ..u }
    } else if has_prefix(a, "mode="@) {
        UpdateArgs { mode: Some(a.skip("mode="@.len() as int)), ..u }
    } else {
        u
    }
}

/// The arguments applied from first to last: a later one wins.
pub open spec fn update_args(args: Seq<Seq<char>>) -> UpdateArgs
    decreases args.len(),
{
    if args.len() == 0 {
        no_update()
    } else {
        apply_arg(update_args(args.drop_last()), args.last())
    }
}

/// The command that the words of a line make.
pub open spec fn parse_words(w: Seq<Seq<char>>) -> Result<CommandModel, ParseError> {
    if w.len() == 1 {
        let v = w[0];
        if verb(v, "HELP"@, "?"@) {
            Ok(CommandModel::Help)
        } else if eq_ascii_nocase(v, "STATUS"@) {
            Ok(CommandModel::Status)
        } else if eq_ascii_nocase(v, "ENABLE"@) {
            Ok(CommandModel::Enable)
        } else if eq_ascii_nocase(v, "DISABLE"@) {
            Ok(CommandModel::Disable)
        } else if eq_ascii_nocase(v, "RELOAD"@) {
            Ok(CommandModel::Reload)
        } else if verb(v, "GETPID"@, "GET_PID"@) {
            Ok(CommandModel::GetPid)
        } else if eq_ascii_nocase(v, "PING"@) {
            Ok(CommandModel::Ping)
        } else if eq_ascii_nocase(v, "QUIT"@) {
            Ok(CommandModel::Quit)
        } else if eq_ascii_nocase(v, "RESTART"@) {
            Ok(CommandModel::Restart)
        } else if verb(v, "LIST_PACKAGES"@, "LISTPACKAGES"@) {
            Ok(CommandModel::ListPackages)
        } else if verb(v, "GET_GAMELIST"@, "GETGAMELIST"@) {
            Ok(CommandModel::GetGameList)
        } else if verb(v, "GET_FPS"@, "GETFPS"@) {
            Ok(CommandModel::GetFps)
        } else if verb(v, "GET_SUPPORTED_RATES"@, "GETRATES"@) {
            Ok(CommandModel::GetSupportedRates)
        } else if verb(v, "CLEAR_INJECT"@, "CLEARINJECT"@) {
            Ok(CommandModel::ClearInject)
        } else {
            Err(ParseError::Unknown)
        }
    } else if w.len() == 2 && verb(w[0], "SETLOG"@, "SET_LOG"@) {
        match level_named(upper_of(w[1])) {
            Some(l) => Ok(CommandModel::SetLog(l)),
            None => Err(ParseError::SetLogUsage),
        }
    } else if w.len() == 2 && verb(w[0], "SET_FPS"@, "SETFPS"@) {
        match parse_u32_spec(w[1]) {
            Some(n) => Ok(CommandModel::SetFps(n)),
            None => Err(ParseError::SetFpsUsage),
        }
    } else if w.len() == 2 && eq_ascii_nocase(w[0], "INJECT"@) {
        Ok(CommandModel::Inject(w[1]))
    } else if w.len() == 2 && verb(w[0], "SET_PROFILE"@, "SETPROFILE"@) {
        match mode_named(upper_of(w[1])) {
            Some(m) => Ok(CommandModel::SetProfile(m)),
            None => Err(ParseError::SetProfileUsage),
        }
    } else if w.len() == 2 && verb(w[0], "ADD_GAME"@, "ADDGAME"@) {
        Ok(CommandModel::AddGame(w[1]))
    } else if w.len() == 2 && verb(w[0], "REMOVE_GAME"@, "REMOVEGAME"@) {
        Ok(CommandModel::RemoveGame(w[1]))
    } else if w.len() >= 2 && verb(w[0], "UPDATE_GAME"@, "UPDATEGAME"@) {
        Ok(CommandModel::UpdateGame(w[1], update_args(w.skip(2))))
    } else {
        Err(ParseError::Unknown)
    }
}

/// The result of parsing `line`: the command, or the error message.
pub open spec fn parse_line_spec(line: Seq<char>, r: Result<Command, &'static str>) -> bool {
    match (r, parse_words(words(line))) {
        (Ok(c), Ok(m)) => c@ == m,
        (Err(msg), Err(e)) => msg@ == e.message(),
        _ => false,
    }
}

} // verus!

verus! {

struct UpdateAcc {
    governor: Option<String>,
    dnd: Option<bool>,
    target_fps: Option<u32>,
    refresh_rate: Option<u32>,
    mode: Option<String>,
    fps_array: Option<Vec<u32>>,
}

impl UpdateAcc {
    spec fn model(&self) -> UpdateArgs {
        UpdateArgs {
            governor: opt_view(self.governor),
            dnd: self.dnd,
            target_fps: self.target_fps,
            refresh_rate: self.refresh_rate,
            mode: opt_view(self.mode),
            fps_array: opt_vec_view(self.fps_array),
        }
    }

    fn apply(&mut self, a: &str)
        ensures
            final(self).model() == apply_arg(old(self).model(), a@),
    {
        if starts_with(a, "gov=") {
            self.governor = Some(skip_chars(a, "gov=".unicode_len()));
        } else if starts_with(a, "dnd=") {
            let v = skip_chars(a, "dnd=".unicode_len());
            self.dnd = Some(!same_text(v.as_str(), "false"));
        } else if starts_with(a, "fps=") {
            let v = skip_chars(a, "fps=".unicode_len());
            self.target_fps = parse_u32(v.as_str());
        } else if starts_with(a, "fps_array=") {
            let v = skip_chars(a, "fps_array=".unicode_len());
            let arr = parse_u32_list(v.as_str());
            if arr.len() > 0 {
                self.fps_array = Some(arr);
            }
        } else if starts_with(a, "rate=") {
            let v = skip_chars(a, "rate=".unicode_len());
            self.refresh_rate = parse_u32(v.as_str());
        } else if starts_with(a, "mode=") {
            self.mode = Some(skip_chars(a, "mode=".unicode_len()));
        }
    }
}

fn is_verb(w: &str, a: &str, b: &str) -> (r: bool)
    ensures
        r == verb(w@, a@, b@),
{
    eq_ignore_ascii_case(w, a) || eq_ignore_ascii_case(w, b)
}

/// The level an upper-cased argument names.
pub fn level_from_upper(u: &str) -> (r: Option<LogLevelCmd>)
    ensures
        r == level_named(u@),
{
    if same_text(u, "DEBUG") {
        Some(LogLevelCmd::Debug)
    } else if same_text(u, "INFO") {
        Some(LogLevelCmd::Info)
    } else if same_text(u, "WARN") {
        Some(LogLevelCmd::Warn)
    } else if same_text(u, "ERROR") {
        Some(LogLevelCmd::Error)
    } else {
        None
    }
}

/// The profile an upper-cased argument names.
pub fn mode_from_upper(u: &str) -> (r: Option<ProfileMode>)
    ensures
        r == mode_named(u@),
{
    if same_text(u, "PERFORMANCE") {
        Some(ProfileMode::Performance)
    } else if same_text(u, "BALANCE") {
        Some(ProfileMode::Balance)
    } else if same_text(u, "POWERSAVE") {
        Some(ProfileMode::Powersave)
    } else {
        None
    }
}

fn parse_single(v: &str) -> (r: Result<Command, &'static str>)
    ensures
        match (r, parse_words(seq![v@])) {
            (Ok(c), Ok(m)) => c@ == m,
            (Err(msg), Err(e)) => msg@ == e.message(),
            _ => false,
        },
{
    if is_verb(v, "HELP", "?") {
        Ok(Command::Help)
    } else if eq_ignore_ascii_case(v, "STATUS") {
        Ok(Command::Status)
    } else if eq_ignore_ascii_case(v, "ENABLE") {
        Ok(Command::Enable)
    } else if eq_ignore_ascii_case(v, "DISABLE") {
        Ok(Command::Disable)
    } else if eq_ignore_ascii_case(v, "RELOAD") {
        Ok(Command::Reload)
    } else if is_verb(v, "GETPID", "GET_PID") {
        Ok(Command::GetPid)
    } else if eq_ignore_ascii_case(v, "PING") {
        Ok(Command::Ping)
    } else if eq_ignore_ascii_case(v, "QUIT") {
        Ok(Command::Quit)
    } else if eq_ignore_ascii_case(v, "RESTART") {
        Ok(Command::Restart)
    } else if is_verb(v, "LIST_PACKAGES", "LISTPACKAGES") {
        Ok(Command::ListPackages)
    } else if is_verb(v, "GET_GAMELIST", "GETGAMELIST") {
        Ok(Command::GetGameList)
    } else if is_verb(v, "GET_FPS", "GETFPS") {
        Ok(Command::GetFps)
    } else if is_verb(v, "GET_SUPPORTED_RATES", "GETRATES") {
        Ok(Command::GetSupportedRates)
    } else if is_verb(v, "CLEAR_INJECT", "CLEARINJECT") {
        Ok(Command::ClearInject)
    } else {
        Err("unknown command (try HELP)")
    }
}

impl Command {
    /// Parses one line of the protocol: a verb in any case and its
    /// arguments, separated by spaces.
    pub fn parse_line(s: &str) -> (r: Result<Command, &'static str>)
        ensures
            parse_line_spec(s@, r),
    {
        let w = split_words(s);
        let n = w.len();
        let ghost ws = views(w@);
        proof {
            assert(ws == words(s@));
            assert(ws.len() == n);
            assert(forall|i: int| 0 <= i < n ==> ws[i] == w@[i]@);
        }
        if n == 1 {
            proof {
                assert(ws =~= seq![w@[0]@]);
            }
            return parse_single(w[0].as_str());
        }
        if n < 2 {
            return Err("unknown command (try HELP)");
        }
        let v = w[0].as_str();
        let arg = w[1].as_str();
        if n == 2 && is_verb(v, "SETLOG", "SET_LOG") {
            match level_from_upper(to_uppercase(arg).as_str()) {
                Some(l) => Ok(Command::SetLog(l)),
                None => Err("usage: SETLOG <DEBUG|INFO|WARN|ERROR>"),
            }
        } else if n == 2 && is_verb(v, "SET_FPS", "SETFPS") {
            match parse_u32(arg) {
                Some(x) => Ok(Command::SetFps(x)),
                None => Err("usage: SET_FPS <number>"),
            }
        } else if n == 2 && eq_ignore_ascii_case(v, "INJECT") {
            Ok(Command::Inject(arg.to_owned()))
        } else if n == 2 && is_verb(v, "SET_PROFILE", "SETPROFILE") {
            match mode_from_upper(to_uppercase(arg).as_str()) {
                Some(m) => Ok(Command::SetProfile(m)),
                None => Err("usage: SETPROFILE <PERFORMANCE|BALANCE|POWERSAVE>"),
            }
        } else if n == 2 && is_verb(v, "ADD_GAME", "ADDGAME") {
            Ok(Command::AddGame(arg.to_owned()))
        } else if n == 2 && is_verb(v, "REMOVE_GAME", "REMOVEGAME") {
            Ok(Command::RemoveGame(arg.to_owned()))
        } else if is_verb(v, "UPDATE_GAME", "UPDATEGAME") {
            let mut acc = UpdateAcc {
                governor: None,
                dnd: None,
                target_fps: None,
                refresh_rate: None,
                mode: None,
                fps_array: None,
            };
            let mut i: usize = 2;
            while i < n
                invariant
                    2 <= i <= n,
                    n == w@.len(),
                    ws == views(w@),
                    ws.len() == n,
                    acc.model() == update_args(ws.skip(2).take(i - 2)),
                decreases n - i,
            {
                proof {
                    let r = ws.skip(2).take(i - 2 + 1);
                    assert(r.drop_last() =~= ws.skip(2).take(i - 2));
                    assert(r.last() == w@[i as int]@);
                }
                acc.apply(w[i].as_str());
                i = i + 1;
            }
            proof {
                assert(ws.skip(2).take(n - 2) =~= ws.skip(2));
            }
            Ok(
                Command::UpdateGame(
                    arg.to_owned(),
                    acc.governor,
                    acc.dnd,
                    acc.target_fps,
                    acc.refresh_rate,
                    acc.mode,
                    acc.fps_array,
                ),
            )
        } else {
            Err("unknown command (try HELP)")
        }
    }
}

} // verus!

verus! {

impl std::str::FromStr for Command {
    type Err = &'static str;

    fn from_str(s: &str) -> (r: Result<Command, &'static str>)
        ensures
            parse_line_spec(s@, r),
    {
        Command::parse_line(s)
    }
}

} // verus!
