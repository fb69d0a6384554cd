use auriya::command::{Command, LogLevelCmd};
use auriya::ipc::{
    game_edit_reply, handle_line, profile_reply, rates_reply, reload_reply, text_reply, IpcAction,
    IpcView, GREETING, HELP_TEXT,
};
use auriya::types::ProfileMode;

fn view() -> IpcView {
    IpcView {
        enabled: true,
        packages: 3,
        override_pkg: None,
        log_level: LogLevelCmd::Info,
        pkg: None,
        pid: None,
        fps: 60,
    }
}

#[test]
fn greeting_line() {
    assert_eq!(GREETING, "OK AURIYA IPC\n");
}

#[test]
fn status_reply_reports_enabled_flag() {
    let r = handle_line("STATUS", &view());
    assert!(r.text.contains("ENABLED="));
    assert_eq!(r.text, "ENABLED=true PACKAGES=3 OVERRIDE=None LOG_LEVEL=Info\n");
    let mut v = view();
    v.enabled = false;
    v.override_pkg = Some("foo.bar".to_string());
    v.log_level = LogLevelCmd::Debug;
    let r = handle_line("status", &v);
    assert_eq!(r.text, "ENABLED=false PACKAGES=3 OVERRIDE=foo.bar LOG_LEVEL=Debug\n");
}

#[test]
fn unknown_verb_is_an_error_line() {
    let r = handle_line("FROBNICATE", &view());
    assert!(r.text.starts_with("ERR"));
    assert_eq!(r.text, "ERR unknown command (try HELP)\n");
    assert!(matches!(r.action, IpcAction::Nothing));
    assert!(handle_line("", &view()).text.starts_with("ERR"));
    assert!(handle_line("PING extra", &view()).text.starts_with("ERR"));
}

#[test]
fn ping_answers_pong() {
    let r = handle_line("PING", &view());
    assert_eq!(r.text, "PONG\n");
    assert_eq!(handle_line("  ping \r\n", &view()).text, "PONG\n");
}

#[test]
fn quit_says_bye_and_closes() {
    let r = handle_line("QUIT", &view());
    assert_eq!(r.text, "BYE\n");
    assert!(matches!(r.action, IpcAction::Close));
}

#[test]
fn inject_then_getpid_shows_override() {
    let r = handle_line("INJECT foo.bar", &view());
    assert_eq!(r.text, "OK INJECT\n");
    let mut v = view();
    match r.action {
        IpcAction::SetOverride(o) => v.override_pkg = o,
        _ => panic!("INJECT must set the override"),
    }
    assert_eq!(handle_line("GETPID", &v).text, "PKG=foo.bar PID=None\n");
    // Once the tick has taken the package up with its process.
    v.pkg = Some("foo.bar".to_string());
    v.pid = Some(4321);
    assert_eq!(handle_line("GET_PID", &v).text, "PKG=foo.bar PID=4321\n");
    let r = handle_line("CLEAR_INJECT", &v);
    assert_eq!(r.text, "OK CLEAR_INJECT\n");
    assert!(matches!(r.action, IpcAction::SetOverride(None)));
}

#[test]
fn getpid_without_package() {
    assert_eq!(handle_line("GETPID", &view()).text, "PKG=None PID=None\n");
    let mut v = view();
    v.pkg = Some("a.b".to_string());
    assert_eq!(handle_line("GETPID", &v).text, "PKG=a.b PID=None\n");
    v.pid = Some(-7);
    assert_eq!(handle_line("GETPID", &v).text, "PKG=a.b PID=-7\n");
}

#[test]
fn too_long_line_is_refused() {
    let long = "A".repeat(257);
    let r = handle_line(&long, &view());
    assert_eq!(r.text, "ERR input too long\n");
    let ok = format!("  {}  ", "B".repeat(256));
    assert_eq!(handle_line(&ok, &view()).text, "ERR unknown command (try HELP)\n");
}

#[test]
fn simple_verbs_reply_and_ask() {
    let r = handle_line("ENABLE", &view());
    assert_eq!(r.text, "OK ENABLED\n");
    assert!(matches!(r.action, IpcAction::SetEnabled(true)));
    let r = handle_line("DISABLE", &view());
    assert_eq!(r.text, "OK DISABLED\n");
    assert!(matches!(r.action, IpcAction::SetEnabled(false)));
    let r = handle_line("SET_LOG warn", &view());
    assert_eq!(r.text, "OK SET_LOG\n");
    assert!(matches!(r.action, IpcAction::SetLog(LogLevelCmd::Warn)));
    let r = handle_line("SET_FPS 90", &view());
    assert_eq!(r.text, "OK SET_FPS 90\n");
    assert!(matches!(r.action, IpcAction::SetFps(90)));
    assert_eq!(handle_line("GET_FPS", &view()).text, "FPS=60\n");
    assert_eq!(handle_line("HELP", &view()).text, HELP_TEXT);
    assert_eq!(handle_line("?", &view()).text, HELP_TEXT);
}

#[test]
fn work_verbs_leave_the_reply_to_the_outcome() {
    let r = handle_line("RELOAD", &view());
    assert_eq!(r.text, "");
    assert!(matches!(r.action, IpcAction::Reload));
    let r = handle_line("SET_PROFILE balance", &view());
    assert!(matches!(r.action, IpcAction::ApplyProfile(ProfileMode::Balance)));
    let r = handle_line("ADD_GAME com.x", &view());
    assert!(matches!(r.action, IpcAction::AddGame(ref p) if p == "com.x"));
    let r = handle_line("REMOVEGAME com.x", &view());
    assert!(matches!(r.action, IpcAction::RemoveGame(ref p) if p == "com.x"));
    assert!(matches!(handle_line("LIST_PACKAGES", &view()).action, IpcAction::ListPackages));
    assert!(matches!(handle_line("GETGAMELIST", &view()).action, IpcAction::GetGameList));
    assert!(matches!(handle_line("GETRATES", &view()).action, IpcAction::GetSupportedRates));
    assert!(matches!(handle_line("RESTART", &view()).action, IpcAction::Restart));
}

#[test]
fn parse_errors_carry_usage() {
    assert_eq!(Command::parse_line("SETLOG loud"), Err("usage: SETLOG <DEBUG|INFO|WARN|ERROR>"));
    assert_eq!(Command::parse_line("SET_FPS fast"), Err("usage: SET_FPS <number>"));
    assert_eq!(Command::parse_line("SET_FPS 4294967296"), Err("usage: SET_FPS <number>"));
    assert_eq!(
        Command::parse_line("SETPROFILE turbo"),
        Err("usage: SETPROFILE <PERFORMANCE|BALANCE|POWERSAVE>")
    );
    assert_eq!(handle_line("SETLOG loud", &view()).text, "ERR usage: SETLOG <DEBUG|INFO|WARN|ERROR>\n");
}

#[test]
fn parse_simple_commands() {
    assert_eq!(Command::parse_line("PING"), Ok(Command::Ping));
    assert_eq!(Command::parse_line("get_supported_rates"), Ok(Command::GetSupportedRates));
    assert_eq!(Command::parse_line("SETFPS +120"), Ok(Command::SetFps(120)));
    assert_eq!(Command::parse_line("SET_PROFILE PowerSave"), Ok(Command::SetProfile(ProfileMode::Powersave)));
    assert_eq!(Command::parse_line("INJECT com.a.b"), Ok(Command::Inject("com.a.b".to_string())));
    assert_eq!(Command::parse_line("setlog error"), Ok(Command::SetLog(LogLevelCmd::Error)));
}

#[test]
fn parse_update_game_arguments() {
    let c = Command::parse_line(
        "UPDATE_GAME com.x gov=schedutil dnd=false fps=90 rate=120 mode=balance fps_array=60,x,,120 junk",
    );
    assert_eq!(
        c,
        Ok(Command::UpdateGame(
            "com.x".to_string(),
            Some("schedutil".to_string()),
            Some(false),
            Some(90),
            Some(120),
            Some("balance".to_string()),
            Some(vec![60, 120]),
        ))
    );
    // dnd accepts only `false` as false; a bad number clears the field;
    // an array with no number is ignored.
    let c = Command::parse_line("UPDATEGAME com.y dnd=no fps=90 fps=abc fps_array=,,");
    assert_eq!(
        c,
        Ok(Command::UpdateGame("com.y".to_string(), None, Some(true), None, None, None, None))
    );
    assert_eq!(
        Command::parse_line("UPDATE_GAME com.z"),
        Ok(Command::UpdateGame("com.z".to_string(), None, None, None, None, None, None))
    );
}

#[test]
fn outcome_replies() {
    assert_eq!(reload_reply(&Ok(12)), "OK RELOADED 12\n");
    assert_eq!(reload_reply(&Err("bad toml".to_string())), "ERR RELOAD bad toml\n");
    assert_eq!(profile_reply(ProfileMode::Performance, &Ok(())), "OK SET_PROFILE Performance\n");
    assert_eq!(profile_reply(ProfileMode::Balance, &Err("no".to_string())), "ERR SET_PROFILE no\n");
    assert_eq!(game_edit_reply("ADD_GAME", "com.x", &Ok(()), &Ok(())), "OK ADD_GAME com.x\n");
    assert_eq!(
        game_edit_reply("ADD_GAME", "com.x", &Err("Game com.x already exists".to_string()), &Ok(())),
        "ERR ADD_GAME Game com.x already exists\n"
    );
    assert_eq!(
        game_edit_reply("REMOVE_GAME", "com.x", &Ok(()), &Err("disk".to_string())),
        "ERR SAVE_GAMELIST disk\n"
    );
    assert_eq!(text_reply("LIST_PACKAGES", &Ok("package:a".to_string())), "package:a\n");
    assert_eq!(text_reply("GET_GAMELIST", &Err("x".to_string())), "ERR GET_GAMELIST x\n");
}

#[test]
fn supported_rates_are_distinct_and_sorted_json() {
    assert_eq!(rates_reply(&vec![120, 60, 90, 60, 120]), "[60,90,120]\n");
    assert_eq!(rates_reply(&vec![]), "[]\n");
    assert_eq!(rates_reply(&vec![144]), "[144]\n");
}

#[test]
fn command_from_str() {
    let c: Result<Command, &'static str> = "GETPID".parse();
    assert_eq!(c, Ok(Command::GetPid));
}

#[test]
fn largest_rate_parses() {
    assert_eq!(Command::parse_line("SET_FPS 4294967295"), Ok(Command::SetFps(4294967295)));
    assert_eq!(handle_line("SET_FPS 4294967295", &view()).text, "OK SET_FPS 4294967295\n");
}

#[test]
fn from_str_is_case_insensitive_and_reads_update_keys() {
    assert_eq!("ping".parse::<Command>(), Ok(Command::Ping));
    assert_eq!("Status".parse::<Command>(), Ok(Command::Status));
    assert_eq!(
        "UPDATE_GAME com.foo gov=schedutil dnd=false fps=60 rate=120 mode=balance".parse::<Command>(),
        Ok(Command::UpdateGame(
            "com.foo".to_string(),
            Some("schedutil".to_string()),
            Some(false),
            Some(60),
            Some(120),
            Some("balance".to_string()),
            None,
        ))
    );
}

#[test]
fn arguments_are_upper_cased_as_unicode_text() {
    // Dotless i upper-cases to `I`.
    assert_eq!(Command::parse_line("SETLOG \u{131}nfo"), Ok(Command::SetLog(LogLevelCmd::Info)));
    assert_eq!(auriya::command::level_from_upper("INFO"), Some(LogLevelCmd::Info));
    assert_eq!(auriya::command::level_from_upper("info"), None);
    assert_eq!(auriya::command::mode_from_upper("POWERSAVE"), Some(ProfileMode::Powersave));
}
