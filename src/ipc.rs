//! The replies of the administrative protocol: what a line answers and
//! which change of shared state it asks for.
use crate::buffer::{sort_ascending, sorted};
use crate::command::{Command, CommandModel, LogLevelCmd, ParseError, opt_view, parse_words};
use crate::text::{dec, dec_int, has_prefix, push_decimal, push_signed, trim, trimmed, words};
use vstd::utf8::encode_utf8;
use crate::types::ProfileMode;
use vstd::prelude::*;

verus! {

/// The greeting sent when a client connects.
pub const GREETING: &'static str = "OK AURIYA IPC\n";

/// Longest line accepted, in bytes, once surrounding spaces are trimmed.
pub const MAX_LINE_BYTES: usize = 256;

pub const HELP_TEXT: &'static str = "CMDS:
        - HELP | ?
        - STATUS
        - ENABLE | DISABLE
        - RELOAD
        - SETLOG <DEBUG|INFO|WARN|ERROR>
        - INJECT <pkg>
        - CLEAR_INJECT
        - GETPID
        - PING
        - QUIT
        - SET_PROFILE <PERFORMANCE|BALANCE|POWERSAVE>
        - ADD_GAME <pkg>
        - REMOVE_GAME <pkg>
 ";

/// What the protocol reads of the shared state when it answers.
pub struct IpcView {
    pub enabled: bool,
    /// Number of managed packages.
    pub packages: usize,
    /// The foreground package set by `INJECT`.
    pub override_pkg: Option<String>,
    pub log_level: LogLevelCmd,
    /// Foreground package and process as the last tick published them.
    pub pkg: Option<String>,
    pub pid: Option<i32>,
    /// The frame rate the scaling controller aims at.
    pub fps: u32,
}

/// A change of shared state, or outside work, that a line asks for.
pub enum IpcAction {
    Nothing,
    /// Reply, then close the connection.
    Close,
    SetEnabled(bool),
    SetOverride(Option<String>),
    SetLog(LogLevelCmd),
    SetFps(u32),
    /// Work whose reply depends on its outcome.
    Reload,
    ApplyProfile(ProfileMode),
    AddGame(String),
    RemoveGame(String),
    UpdateGame(Command),
    ListPackages,
    GetGameList,
    GetSupportedRates,
    Restart,
}

/// The reply to one line and the action it asks for. Where the action is
/// work whose reply depends on its outcome, the text is empty.
pub struct Response {
    pub text: String,
    pub action: IpcAction,
}

pub open spec fn bool_text(b: bool) -> Seq<char> {
    if b {
        "true"@
    } else {
        "false"@
    }
}

pub open spec fn level_debug(l: LogLevelCmd) -> Seq<char> {
    match l {
        LogLevelCmd::Debug => "Debug"@,
        LogLevelCmd::Info => "Info"@,
        LogLevelCmd::Warn => "Warn"@,
        LogLevelCmd::Error => "Error"@,
    }
}

pub open spec fn opt_text(o: Option<Seq<char>>) -> Seq<char> {
    match o {
        Some(s) => s,
        None => "None"@,
    }
}

impl IpcView {
    /// Package and process that `GETPID` reports: an override that the
    /// last tick has not yet taken up shows with no process.
    pub open spec fn shown(&self) -> (Option<Seq<char>>, Option<i32>) {
        match self.override_pkg {
            Some(o) => if opt_view(self.pkg) == Some(o@) {
                (Some(o@), self.pid)
            } else {
                (Some(o@), None)
            },
            None => (opt_view(self.pkg), self.pid),
        }
    }

    pub open spec fn status_text(&self) -> Seq<char> {
        "ENABLED="@ + bool_text(self.enabled) + " PACKAGES="@ + dec(self.packages as nat) + " OVERRIDE="@
            + opt_text(opt_view(self.override_pkg)) + " LOG_LEVEL="@ + level_debug(self.log_level)
            + "\n"@
    }

    pub open spec fn getpid_text(&self) -> Seq<char> {
        match self.shown() {
            (Some(p), Some(id)) => "PKG="@ + p + " PID="@ + dec_int(id as int) + "\n"@,
            (Some(p), None) => "PKG="@ + p + " PID=None\n"@,
            _ => "PKG=None PID=None\n"@,
        }
    }
}

/// The reply text to a parsed line; empty for work whose reply depends on
/// its outcome.
pub open spec fn reply_text(r: Result<CommandModel, ParseError>, v: IpcView) -> Seq<char> {
    match r {
        Err(e) => "ERR "@ + e.message() + "\n"@,
        Ok(c) => match c {
            CommandModel::Help => HELP_TEXT@,
            CommandModel::Ping => "PONG\n"@,
            CommandModel::Quit => "BYE\n"@,
            CommandModel::GetPid => v.getpid_text(),
            CommandModel::Status => v.status_text(),
            CommandModel::Enable => "OK ENABLED\n"@,
            CommandModel::Disable => "OK DISABLED\n"@,
            CommandModel::SetLog(_) => "OK SET_LOG\n"@,
            CommandModel::Inject(_) => "OK INJECT\n"@,
            CommandModel::ClearInject => "OK CLEAR_INJECT\n"@,
            CommandModel::SetFps(n) => "OK SET_FPS "@ + dec(n as nat) + "\n"@,
            CommandModel::GetFps => "FPS="@ + dec(v.fps as nat) + "\n"@,
            _ => Seq::empty(),
        },
    }
}

/// The action a parsed line asks for.
pub open spec fn action_matches(r: Result<CommandModel, ParseError>, a: IpcAction) -> bool {
    match r {
        Err(_) => a is Nothing,
        Ok(c) => match c {
            CommandModel::Quit => a is Close,
            CommandModel::Enable => a == IpcAction::SetEnabled(true),
            CommandModel::Disable => a == IpcAction::SetEnabled(false),
            CommandModel::SetLog(l) => a == IpcAction::SetLog(l),
            CommandModel::Inject(p) => a matches IpcAction::SetOverride(Some(q)) && q@ == p,
            CommandModel::ClearInject => a matches IpcAction::SetOverride(None),
            CommandModel::SetFps(n) => a == IpcAction::SetFps(n),
            CommandModel::Reload => a is Reload,
            CommandModel::SetProfile(m) => a == IpcAction::ApplyProfile(m),
            CommandModel::AddGame(p) => a matches IpcAction::AddGame(q) && q@ == p,
            CommandModel::RemoveGame(p) => a matches IpcAction::RemoveGame(q) && q@ == p,
            CommandModel::UpdateGame(p, u) => a matches IpcAction::UpdateGame(cmd) && cmd@
                == CommandModel::UpdateGame(p, u),
            CommandModel::ListPackages => a is ListPackages,
            CommandModel::GetGameList => a is GetGameList,
            CommandModel::GetSupportedRates => a is GetSupportedRates,
            CommandModel::Restart => a is Restart,
            _ => a is Nothing,
        },
    }
}

} // verus!

verus! {

/// The line is longer than the protocol accepts, counted in bytes once
/// trimmed.
pub open spec fn too_long(s: Seq<char>) -> bool {
    encode_utf8(trimmed(s)).len() as usize > MAX_LINE_BYTES
}

fn push_opt(out: &mut String, o: &Option<String>)
    ensures
        final(out)@ == old(out)@ + opt_text(opt_view(*o)),
{
    match o {
        Some(p) => out.append(p.as_str()),
        None => out.append("None"),
    }
}

fn level_debug_str(l: LogLevelCmd) -> (r: &'static str)
    ensures
        r@ == level_debug(l),
{
    match l {
        LogLevelCmd::Debug => "Debug",
        LogLevelCmd::Info => "Info",
        LogLevelCmd::Warn => "Warn",
        LogLevelCmd::Error => "Error",
    }
}

impl IpcView {
    /// The `STATUS` reply.
    pub fn status_reply(&self) -> (r: String)
        ensures
            r@ == self.status_text(),
    {
        let mut s = String::new();
        s.append("ENABLED=");
        s.append(if self.enabled { "true" } else { "false" });
        s.append(" PACKAGES=");
        push_decimal(&mut s, self.packages as u64);
        s.append(" OVERRIDE=");
        push_opt(&mut s, &self.override_pkg);
        s.append(" LOG_LEVEL=");
        s.append(level_debug_str(self.log_level));
        s.append("\n");
        proof {
            assert(s@ =~= self.status_text());
        }
        s
    }

    /// The `GETPID` reply.
    pub fn getpid_reply(&self) -> (r: String)
        ensures
            r@ == self.getpid_text(),
    {
        let (pkg, pid): (Option<&String>, Option<i32>) = match &self.override_pkg {
            Some(o) => {
                let same = match &self.pkg {
                    Some(p) => *p == *o,
                    None => false,
                };
                if same {
                    (Some(o), self.pid)
                } else {
                    (Some(o), None)
                }
            },
            None => match &self.pkg {
                Some(p) => (Some(p), self.pid),
                None => (None, self.pid),
            },
        };
        match pkg {
            Some(p) => {
                let mut s = String::new();
                s.append("PKG=");
                s.append(p.as_str());
                match pid {
                    Some(id) => {
                        s.append(" PID=");
                        push_signed(&mut s, id as i64);
                        s.append("\n");
                    },
                    None => {
                        s.append(" PID=None\n");
                    },
                }
                proof {
                    assert(s@ =~= self.getpid_text());
                }
                s
            },
            None => String::from_str("PKG=None PID=None\n"),
        }
    }
}

/// The reply text for a parse error.
fn error_reply(msg: &str) -> (r: String)
    ensures
        r@ == "ERR "@ + msg@ + "\n"@,
{
    let mut s = String::new();
    s.append("ERR ");
    s.append(msg);
    s.append("\n");
    proof {
        assert(s@ =~= "ERR "@ + msg@ + "\n"@);
    }
    s
}

fn reply(text: &str, action: IpcAction) -> (r: Response)
    ensures
        r.text@ == text@,
        r.action == action,
{
    Response { text: String::from_str(text), action }
}

/// Answers one line of a session: the reply and the change or work it
/// asks for.
pub fn handle_line(line: &str, view: &IpcView) -> (r: Response)
    ensures
        too_long(line@) ==> r.text@ == "ERR input too long\n"@ && r.action is Nothing,
        !too_long(line@) ==> {
            let p = parse_words(words(trimmed(line@)));
            &&& r.text@ == reply_text(p, *view)
            &&& action_matches(p, r.action)
        },
{
    let t = trim(line);
    if t.len() > MAX_LINE_BYTES {
        return reply("ERR input too long\n", IpcAction::Nothing);
    }
    let parsed = Command::parse_line(t);
    match parsed {
        Err(msg) => Response { text: error_reply(msg), action: IpcAction::Nothing },
        Ok(cmd) => match cmd {
            Command::Help => reply(HELP_TEXT, IpcAction::Nothing),
            Command::Ping => reply("PONG\n", IpcAction::Nothing),
            Command::Quit => reply("BYE\n", IpcAction::Close),
            Command::GetPid => Response { text: view.getpid_reply(), action: IpcAction::Nothing },
            Command::Status => Response { text: view.status_reply(), action: IpcAction::Nothing },
            Command::Enable => reply("OK ENABLED\n", IpcAction::SetEnabled(true)),
            Command::Disable => reply("OK DISABLED\n", IpcAction::SetEnabled(false)),
            Command::SetLog(l) => reply("OK SET_LOG\n", IpcAction::SetLog(l)),
            Command::Inject(p) => reply("OK INJECT\n", IpcAction::SetOverride(Some(p))),
            Command::ClearInject => reply("OK CLEAR_INJECT\n", IpcAction::SetOverride(None)),
            Command::SetFps(n) => {
                let mut s = String::new();
                s.append("OK SET_FPS ");
                push_decimal(&mut s, n as u64);
                s.append("\n");
                proof {
                    assert(s@ =~= "OK SET_FPS "@ + dec(n as nat) + "\n"@);
                }
                Response { text: s, action: IpcAction::SetFps(n) }
            },
            Command::GetFps => {
                let mut s = String::new();
                s.append("FPS=");
                push_decimal(&mut s, view.fps as u64);
                s.append("\n");
                proof {
                    assert(s@ =~= "FPS="@ + dec(view.fps as nat) + "\n"@);
                }
                Response { text: s, action: IpcAction::Nothing }
            },
            Command::Reload => Response { text: String::new(), action: IpcAction::Reload },
            Command::SetProfile(m) => Response { text: String::new(), action: IpcAction::ApplyProfile(m) },
            Command::AddGame(p) => Response { text: String::new(), action: IpcAction::AddGame(p) },
            Command::RemoveGame(p) => Response { text: String::new(), action: IpcAction::RemoveGame(p) },
            Command::ListPackages => Response { text: String::new(), action: IpcAction::ListPackages },
            Command::GetGameList => Response { text: String::new(), action: IpcAction::GetGameList },
            Command::GetSupportedRates => Response {
                text: String::new(),
                action: IpcAction::GetSupportedRates,
            },
            Command::Restart => Response { text: String::new(), action: IpcAction::Restart },
            Command::UpdateGame(p, g, d, f, rr, m, a) => Response {
                text: String::new(),
                action: IpcAction::UpdateGame(Command::UpdateGame(p, g, d, f, rr, m, a)),
            },
        },
    }
}

} // verus!

verus! {

/// What the protocol promises of its common verbs: a status reply begins
/// with `ENABLED=`, a line that is no command is answered with a line
/// beginning with `ERR `, `PING` is answered with exactly `PONG\n`, and
/// `QUIT` is answered with `BYE\n` and closes the session.
pub proof fn lemma_protocol_replies(line: Seq<char>, v: IpcView, a: IpcAction)
    ensures
        ({
            let p = parse_words(words(trimmed(line)));
            &&& p == Ok::<CommandModel, ParseError>(CommandModel::Status) ==> has_prefix(
                reply_text(p, v),
                "ENABLED="@,
            )
            &&& p is Err ==> has_prefix(reply_text(p, v), "ERR "@)
            &&& p == Ok::<CommandModel, ParseError>(CommandModel::Ping) ==> reply_text(p, v)
                == "PONG\n"@
            &&& p == Ok::<CommandModel, ParseError>(CommandModel::Quit) ==> reply_text(p, v)
                == "BYE\n"@ && (action_matches(p, a) ==> a is Close)
        }),
{
    let p = parse_words(words(trimmed(line)));
    if p == Ok::<CommandModel, ParseError>(CommandModel::Status) {
        let t = v.status_text();
        assert(t.take("ENABLED="@.len() as int) =~= "ENABLED="@);
    }
    if p is Err {
        let t = reply_text(p, v);
        assert(t.take("ERR "@.len() as int) =~= "ERR "@);
    }
}

/// A foreground override shows in the `GETPID` reply at once: with no
/// process until a tick has taken the package up.
pub proof fn lemma_inject_then_getpid(v: IpcView, pkg: String)
    ensures
        ({
            let w = IpcView { override_pkg: Some(pkg), ..v };
            &&& has_prefix(w.getpid_text(), "PKG="@ + pkg@)
            &&& opt_view(v.pkg) != Some(pkg@) ==> w.getpid_text() == "PKG="@ + pkg@ + " PID=None\n"@
        }),
{
    let w = IpcView { override_pkg: Some(pkg), ..v };
    let pre = "PKG="@ + pkg@;
    let t = w.getpid_text();
    assert(t.take(pre.len() as int) =~= pre);
}

} // verus!

verus! {

/// Reply when a shared resource's guard was poisoned.
pub const LOCK_POISONED: &'static str = "ERR lock poisoned\n";

/// Reply when a restart could not be started.
pub const RESTART_FAILED: &'static str = "ERR RESTART_FAILED\n";

fn line_of(body: &str) -> (r: String)
    ensures
        r@ == body@ + "\n"@,
{
    let mut s = String::from_str(body);
    s.append("\n");
    s
}

fn framed(prefix: &str, body: &str) -> (r: String)
    ensures
        r@ == prefix@ + body@ + "\n"@,
{
    let mut s = String::from_str(prefix);
    s.append(body);
    s.append("\n");
    s
}

/// The reply to `RELOAD` from the number of packages now managed, or the
/// reason the reload failed.
pub fn reload_reply(outcome: &Result<usize, String>) -> (r: String)
    ensures
        match outcome {
            Ok(n) => r@ == "OK RELOADED "@ + dec(*n as nat) + "\n"@,
            Err(e) => r@ == "ERR RELOAD "@ + e@ + "\n"@,
        },
{
    match outcome {
        Ok(n) => {
            let mut s = String::from_str("OK RELOADED ");
            push_decimal(&mut s, *n as u64);
            s.append("\n");
            s
        },
        Err(e) => framed("ERR RELOAD ", e.as_str()),
    }
}

/// The reply to `SET_PROFILE` once the profile was applied or refused.
pub fn profile_reply(mode: ProfileMode, outcome: &Result<(), String>) -> (r: String)
    ensures
        match outcome {
            Ok(_) => r@ == "OK SET_PROFILE "@ + match mode {
                ProfileMode::Performance => "Performance"@,
                ProfileMode::Balance => "Balance"@,
                ProfileMode::Powersave => "Powersave"@,
            } + "\n"@,
            Err(e) => r@ == "ERR SET_PROFILE "@ + e@ + "\n"@,
        },
{
    match outcome {
        Ok(_) => framed("OK SET_PROFILE ", mode.debug_name()),
        Err(e) => framed("ERR SET_PROFILE ", e.as_str()),
    }
}

/// The reply to an edit of the game list (`verb` is `ADD_GAME`,
/// `REMOVE_GAME` or `UPDATE_GAME`): the edit's error, else the save's
/// error, else an acknowledgement naming the package.
pub fn game_edit_reply(verb: &str, pkg: &str, edit: &Result<(), String>, saved: &Result<(), String>) -> (r:
    String)
    ensures
        match (edit, saved) {
            (Err(e), _) => r@ == "ERR "@ + verb@ + " "@ + e@ + "\n"@,
            (Ok(_), Err(e)) => r@ == "ERR SAVE_GAMELIST "@ + e@ + "\n"@,
            (Ok(_), Ok(_)) => r@ == "OK "@ + verb@ + " "@ + pkg@ + "\n"@,
        },
{
    match edit {
        Err(e) => {
            let mut s = String::from_str("ERR ");
            s.append(verb);
            s.append(" ");
            s.append(e.as_str());
            s.append("\n");
            s
        },
        Ok(_) => match saved {
            Err(e) => framed("ERR SAVE_GAMELIST ", e.as_str()),
            Ok(_) => {
                let mut s = String::from_str("OK ");
                s.append(verb);
                s.append(" ");
                s.append(pkg);
                s.append("\n");
                s
            },
        },
    }
}

/// A reply that is a body of text on success, or `ERR <what> <reason>`.
pub fn text_reply(what: &str, outcome: &Result<String, String>) -> (r: String)
    ensures
        match outcome {
            Ok(t) => r@ == t@ + "\n"@,
            Err(e) => r@ == "ERR "@ + what@ + " "@ + e@ + "\n"@,
        },
{
    match outcome {
        Ok(t) => line_of(t.as_str()),
        Err(e) => {
            let mut s = String::from_str("ERR ");
            s.append(what);
            s.append(" ");
            s.append(e.as_str());
            s.append("\n");
            s
        },
    }
}

pub open spec fn strictly_ascending(s: Seq<u32>) -> bool {
    forall|i: int, j: int| 0 <= i < j < s.len() ==> s[i] < s[j]
}

/// The distinct rates in ascending order.
pub fn unique_rates(rates: &Vec<u32>) -> (r: Vec<u32>)
    ensures
        strictly_ascending(r@),
        forall|x: u32| r@.contains(x) <==> rates@.contains(x),
{
    let mut s = rates.clone();
    proof {
        assert(s@ =~= rates@);
    }
    sort_ascending(&mut s);
    proof {
        s@.to_multiset_ensures();
        rates@.to_multiset_ensures();
        assert forall|x: u32| s@.contains(x) <==> rates@.contains(x) by {
            assert(s@.to_multiset().count(x) == rates@.to_multiset().count(x));
        }
    }
    let mut out: Vec<u32> = Vec::new();
    let mut i: usize = 0;
    while i < s.len()
        invariant
            i <= s@.len(),
            sorted(s@),
            strictly_ascending(out@),
            forall|x: u32| out@.contains(x) <==> s@.take(i as int).contains(x),
            i > 0 ==> out@.len() > 0 && out@.last() == s@[i - 1],
            i == 0 ==> out@.len() == 0,
        decreases s.len() - i,
    {
        let x = s[i];
        let ghost before = out@;
        let fresh = out.len() == 0 || out[out.len() - 1] != x;
        if fresh {
            out.push(x);
        }
        proof {
            assert forall|y: u32| out@.contains(y) <==> s@.take(i as int + 1).contains(y) by {
                if s@.take(i as int + 1).contains(y) {
                    let k = choose|k: int| 0 <= k < i + 1 && #[trigger] s@.take(i as int + 1)[k] == y;
                    if k < i {
                        assert(s@.take(i as int)[k] == y);
                        assert(before.contains(y));
                        let m = choose|m: int| 0 <= m < before.len() && #[trigger] before[m] == y;
                        assert(out@[m] == y);
                    } else if fresh {
                        assert(out@[out@.len() - 1] == y);
                    } else {
                        assert(before[before.len() - 1] == y);
                    }
                }
                if out@.contains(y) {
                    let m = choose|m: int| 0 <= m < out@.len() && #[trigger] out@[m] == y;
                    if m < before.len() {
                        assert(before[m] == y);
                        assert(before.contains(y));
                        let k = choose|k: int| 0 <= k < i && #[trigger] s@.take(i as int)[k] == y;
                        assert(s@.take(i as int + 1)[k] == y);
                    } else {
                        assert(s@.take(i as int + 1)[i as int] == y);
                    }
                }
            }
            if fresh && before.len() > 0 {
                assert(before.last() == s@[i - 1]);
                assert(s@[i - 1] <= x);
                assert forall|a: int, b: int| 0 <= a < b < out@.len() implies out@[a] < out@[b] by {
                    if b == out@.len() - 1 {
                        assert(before.contains(out@[a]));
                        let k = choose|k: int| 0 <= k < i && #[trigger] s@.take(i as int)[k] == out@[a];
                        assert(s@[k] <= s@[i - 1]);
                    }
                }
            }
        }
        i = i + 1;
    }
    proof {
        assert(s@.take(s@.len() as int) =~= s@);
    }
    out
}

/// The rates of an array written as JSON: decimal numbers separated by
/// commas.
pub open spec fn json_items(s: Seq<u32>) -> Seq<char>
    decreases s.len(),
{
    if s.len() == 0 {
        Seq::empty()
    } else if s.len() == 1 {
        dec(s[0] as nat)
    } else {
        json_items(s.drop_last()) + ","@ + dec(s.last() as nat)
    }
}

pub open spec fn json_array(s: Seq<u32>) -> Seq<char> {
    "["@ + json_items(s) + "]"@
}

/// Relies on `serde_json::to_string`: a sequence of `u32` is written as a
/// compact JSON array, its numbers in decimal separated by commas, with no
/// spaces. Serialising a `Vec<u32>` into memory cannot fail.
#[verifier::external_body]
fn rates_to_json(v: &Vec<u32>) -> (r: Result<String, ()>)
    ensures
        r is Ok,
        r matches Ok(t) ==> t@ == json_array(v@),
{
    serde_json::to_string(v).map_err(|_| ())
}

/// The reply to `GET_SUPPORTED_RATES`: the distinct rates, ascending, as
/// a JSON array.
pub fn rates_reply(rates: &Vec<u32>) -> (r: String)
    ensures
        exists|s: Seq<u32>|
            strictly_ascending(s) && (forall|x: u32| s.contains(x) <==> rates@.contains(x)) && r@ == json_array(s)
                + "\n"@,
{
    let u = unique_rates(rates);
    match rates_to_json(&u) {
        Ok(t) => {
            let r = line_of(t.as_str());
            proof {
                assert(strictly_ascending(u@) && (forall|x: u32| u@.contains(x) <==> rates@.contains(x))
                    && r@ == json_array(u@) + "\n"@);
            }
            r
        },
        Err(_) => String::new(),
    }
}

} // verus!
