use xfinity_cli::commands::api::{method_is_safe, request_body};
use xfinity_cli::commands::auth::{
    helper_result, logout_step, resolve_refresh_command, CommandOutput, LoginAction, LoginEvent,
    LoginFlow, LogoutAction, LogoutEvent, LogoutState, RefreshAction, RefreshEvent, RefreshFlow,
};
use xfinity_cli::commands::config_cmd::{apply_key, parse_bool};
use xfinity_cli::commands::{
    auto_refresh_blocked, delete_session, get_session_migrating, read_step, resolve_username,
    unmapped, KeychainOp, KeychainReply, Migration, ReadAction, ReadEvent, ReadState, SessionStep,
};
use xfinity_cli::config::{Config, Removal};
use xfinity_cli::error::AppError;
use xfinity_cli::json::Json;

#[test]
fn method_safety_classification() {
    for safe in ["GET", "get", "Head", "HEAD", "OPTIONS", "options"] {
        assert!(method_is_safe(safe), "{safe} must be classified safe");
    }
    for unsafe_ in ["POST", "post", "PUT", "PATCH", "DELETE", "delete", ""] {
        assert!(!method_is_safe(unsafe_), "{unsafe_} must NOT be classified safe");
    }
    assert!(method_is_safe(" GET "));
    assert!(!method_is_safe(" POST "));
}

#[test]
fn api_data_must_be_json() {
    assert!(matches!(request_body(None), Ok(None)));
    assert!(matches!(request_body(Some("null")), Ok(Some(Json::Null))));
    let body = request_body(Some(r#"{"requestTypes":["CORE"]}"#)).unwrap().unwrap();
    assert!(body.get("requestTypes").is_some());
    let err = request_body(Some("not json")).unwrap_err();
    assert_eq!(err.exit_code(), 2);
    let why = serde_json::from_str::<serde_json::Value>("not json").unwrap_err().to_string();
    assert_eq!(err.message(), format!("--data is not valid JSON: {why}"));
}

#[test]
fn refresh_command_precedence_flag_env_config() {
    assert_eq!(
        resolve_refresh_command(Some("flag"), Some("env"), Some("cfg")).as_deref(),
        Some("flag")
    );
    assert_eq!(resolve_refresh_command(None, Some("env"), Some("cfg")).as_deref(), Some("env"));
    assert_eq!(resolve_refresh_command(None, None, Some("cfg")).as_deref(), Some("cfg"));
    assert_eq!(resolve_refresh_command(None, None, None), None);
    assert_eq!(resolve_refresh_command(Some("   "), None, Some("cfg")), None);
}

#[test]
fn apply_key_sets_clears_and_rejects_unknown() {
    let mut cfg = Config::default();
    apply_key(&mut cfg, "username", Some("user@example.com")).unwrap();
    assert_eq!(cfg.username.as_deref(), Some("user@example.com"));
    apply_key(&mut cfg, "account", Some("1234567890")).unwrap();
    assert_eq!(cfg.account.as_deref(), Some("1234567890"));
    apply_key(&mut cfg, "username", None).unwrap();
    assert_eq!(cfg.username, None);
    assert!(apply_key(&mut cfg, "session", Some("x")).is_err());
    assert!(apply_key(&mut cfg, "nope", None).is_err());
}

#[test]
fn apply_key_handles_refresh_command_and_auto_refresh() {
    let mut cfg = Config::default();
    apply_key(&mut cfg, "refresh_command", Some("~/bin/xfin-token.sh")).unwrap();
    assert_eq!(cfg.refresh_command.as_deref(), Some("~/bin/xfin-token.sh"));
    apply_key(&mut cfg, "refresh_command", None).unwrap();
    assert_eq!(cfg.refresh_command, None);

    apply_key(&mut cfg, "auto_refresh", Some("false")).unwrap();
    assert_eq!(cfg.auto_refresh, Some(false));
    apply_key(&mut cfg, "auto_refresh", Some("on")).unwrap();
    assert_eq!(cfg.auto_refresh, Some(true));
    apply_key(&mut cfg, "auto_refresh", None).unwrap();
    assert_eq!(cfg.auto_refresh, None);

    assert!(apply_key(&mut cfg, "auto_refresh", Some("maybe")).is_err());
}

#[test]
fn apply_key_leaves_the_config_alone_on_error() {
    let mut cfg = Config::default();
    apply_key(&mut cfg, "auto_refresh", Some("yes")).unwrap();
    let err = apply_key(&mut cfg, "auto_refresh", Some("maybe")).unwrap_err();
    assert_eq!(cfg.auto_refresh, Some(true));
    assert_eq!(err.message(), "expected a boolean (true/false), got \"maybe\"");
    let err = apply_key(&mut cfg, "session", Some("x")).unwrap_err();
    assert_eq!(err.exit_code(), 2);
    assert_eq!(
        err.message(),
        "unknown config key `session` (known: username, account, refresh_command, auto_refresh)"
    );
}

#[test]
fn parse_bool_accepts_the_family_aliases() {
    for t in ["true", "TRUE", "yes", "on", "1"] {
        assert!(parse_bool(t).unwrap(), "{t}");
    }
    for f in ["false", "FALSE", "no", "off", "0"] {
        assert!(!parse_bool(f).unwrap(), "{f}");
    }
    assert!(parse_bool("maybe").is_err());
    assert!(parse_bool("").is_err());
    assert!(parse_bool("  Yes ").unwrap());
}

#[test]
fn auto_refresh_proceeds_when_command_configured_and_enabled() {
    assert_eq!(auto_refresh_blocked(true, Some("~/bin/xfin-token.sh")), None);
}

#[test]
fn auto_refresh_declines_when_switched_off_even_with_command() {
    let why = auto_refresh_blocked(false, Some("~/bin/xfin-token.sh")).expect("blocked");
    assert!(why.contains("auto_refresh is off"), "{why}");
    assert!(why.contains("xfin auth login --overwrite"), "{why}");
    assert!(why.contains("xfin auth refresh"), "{why}");
}

#[test]
fn auto_refresh_declines_when_no_command_configured() {
    let why = auto_refresh_blocked(true, None).expect("blocked");
    assert!(why.contains("xfin auth refresh --help"), "{why}");
    assert!(why.contains("xfin auth login --overwrite"), "{why}");
}

#[test]
fn off_takes_precedence_over_missing_command() {
    let why = auto_refresh_blocked(false, None).expect("blocked");
    assert!(why.contains("auto_refresh is off"), "{why}");
}

#[test]
fn auto_refresh_defaults_on_but_is_overridable() {
    assert!(Config::default().auto_refresh());
    let off = Config { auto_refresh: Some(false), ..Default::default() };
    assert!(!off.auto_refresh());
}

// ---- Config storage decisions.

#[test]
fn config_round_trips_through_its_stored_form() {
    let mut cfg = Config::default();
    apply_key(&mut cfg, "username", Some("u@example.com")).unwrap();
    apply_key(&mut cfg, "auto_refresh", Some("off")).unwrap();
    let stored = cfg.save();
    assert!(stored.get("account").is_none());
    let back = Config::from_document(Some(Ok(stored))).unwrap();
    assert_eq!(back.username.as_deref(), Some("u@example.com"));
    assert_eq!(back.auto_refresh, Some(false));
    assert_eq!(back.account, None);
}

#[test]
fn config_load_defaults_without_a_file_and_refuses_bad_types() {
    let cfg = Config::load(None).unwrap();
    assert!(cfg.username.is_none() && cfg.auto_refresh.is_none());
    let bad = Json::Object(vec![("auto_refresh".into(), Json::Str("yes".into()))]);
    assert_eq!(Config::from_document(Some(Ok(bad))).unwrap_err().exit_code(), 1);
    let err = Config::from_document(Some(Err("EOF while parsing".into()))).unwrap_err();
    assert_eq!(err.message(), "config file is not valid: EOF while parsing");
    let cfg = Config::load(Some(br#"{"username": "u@example.com", "auto_refresh": false}"#.to_vec())).unwrap();
    assert_eq!(cfg.username.as_deref(), Some("u@example.com"));
    assert_eq!(cfg.auto_refresh, Some(false));
    let err = Config::load(Some(b"{".to_vec())).unwrap_err();
    assert!(err.message().starts_with("config file is not valid: EOF while parsing"));
    assert_eq!(Config::load(Some(br#"{"auto_refresh": "yes"}"#.to_vec())).unwrap_err().exit_code(), 1);
}

#[test]
fn config_path_prefers_xdg_then_home() {
    assert_eq!(
        Config::path(Some("/x"), Some("/home/u")).unwrap(),
        "/x/xfinity-cli/config.json"
    );
    assert_eq!(
        Config::path(Some(""), Some("/home/u")).unwrap(),
        "/home/u/.config/xfinity-cli/config.json"
    );
    assert!(Config::path(None, None).is_err());
}

#[test]
fn config_clear_reports_whether_a_file_was_removed() {
    assert!(Config::clear(Removal::Removed).unwrap());
    assert!(!Config::clear(Removal::Missing).unwrap());
    assert!(Config::clear(Removal::Failed("denied".into())).is_err());
}

// ---- Keychain sessions.

fn migrate(
    current: Option<&str>,
    legacy: Option<&str>,
    store_ok: bool,
) -> (Result<Option<String>, AppError>, Vec<String>) {
    let mut log = Vec::new();
    let mut state = Migration::Begin;
    let mut reply = KeychainReply::Begin;
    loop {
        match get_session_migrating(state, reply) {
            SessionStep::Done(r) => return (r, log),
            SessionStep::Perform { op, next } => {
                state = next;
                reply = match op {
                    KeychainOp::Get { service } => {
                        log.push(format!("get {service}"));
                        let v = if service == "piekstra.xfin" { current } else { legacy };
                        KeychainReply::Got(Ok(v.map(String::from)))
                    }
                    KeychainOp::Store { service, secret } => {
                        log.push(format!("set {service} {secret}"));
                        KeychainReply::Stored(if store_ok {
                            Ok(())
                        } else {
                            Err(AppError::Other("keychain locked".into()))
                        })
                    }
                    KeychainOp::Delete { service } => {
                        log.push(format!("delete {service}"));
                        KeychainReply::Deleted(Err(AppError::Other("ignored".into())))
                    }
                };
            }
        }
    }
}

#[test]
fn a_current_session_is_returned_as_is() {
    let (r, log) = migrate(Some("tok"), Some("old"), true);
    assert_eq!(r.unwrap().as_deref(), Some("tok"));
    assert_eq!(log, ["get piekstra.xfin"]);
}

#[test]
fn a_legacy_session_is_moved_to_the_current_name() {
    let (r, log) = migrate(None, Some("old"), true);
    assert_eq!(r.unwrap().as_deref(), Some("old"));
    assert_eq!(
        log,
        ["get piekstra.xfin", "get xfinity-cli", "set piekstra.xfin old", "delete xfinity-cli"]
    );
}

#[test]
fn no_session_anywhere_is_none_and_a_failed_move_is_an_error() {
    assert_eq!(migrate(None, None, true).0.unwrap(), None);
    assert!(migrate(None, Some("old"), false).0.is_err());
}

#[test]
fn delete_session_covers_both_names() {
    assert!(delete_session(Ok(false), Ok(true)).unwrap());
    assert!(!delete_session(Ok(false), Ok(false)).unwrap());
    assert!(delete_session(Err(AppError::Other("x".into())), Ok(true)).is_err());
}

#[test]
fn resolve_username_prefers_the_flag_and_skips_blanks() {
    assert_eq!(resolve_username(Some("a"), Some("b"), None).unwrap(), "a");
    assert_eq!(resolve_username(Some(""), Some("b"), None).unwrap(), "b");
    let err = resolve_username(None, Some(""), None).unwrap_err();
    assert_eq!(err.exit_code(), 3);
}

#[test]
fn the_configured_username_comes_before_the_environment() {
    assert_eq!(resolve_username(None, Some("cfg-user"), Some("env-user")).unwrap(), "cfg-user");
    assert_eq!(resolve_username(Some("flag"), Some("cfg-user"), Some("env-user")).unwrap(), "flag");
    assert_eq!(resolve_username(None, Some(""), Some("env-user")).unwrap(), "env-user");
    assert_eq!(resolve_username(None, None, Some("env-user")).unwrap(), "env-user");
    assert!(resolve_username(None, None, Some("")).is_err());
}

fn read_run(
    can_refresh: bool,
    first: Result<(), AppError>,
    refresh: Result<(), AppError>,
    second: Result<(), AppError>,
) -> (Result<(), AppError>, u32, u32) {
    let mut reads = vec![first, second].into_iter();
    let mut refresh = Some(refresh);
    let (mut n_reads, mut n_refresh) = (0u32, 0u32);
    let mut state = ReadState::Start;
    let mut event = ReadEvent::Start;
    loop {
        let command = if can_refresh { Some("helper") } else { None };
        let step = read_step(state, true, command, event);
        state = step.next;
        event = match step.action {
            ReadAction::Read => {
                n_reads += 1;
                match reads.next().unwrap() {
                    Ok(()) => ReadEvent::ReadOk,
                    Err(e) => ReadEvent::ReadFailed(e),
                }
            }
            ReadAction::Refresh => {
                n_refresh += 1;
                ReadEvent::Refreshed(refresh.take().unwrap())
            }
            ReadAction::Return => return (Ok(()), n_reads, n_refresh),
            ReadAction::Fail(e) => return (Err(e), n_reads, n_refresh),
        };
    }
}

#[test]
fn an_expired_session_is_refreshed_once_and_the_read_retried() {
    let expired = || AppError::Auth("expired".into());
    let (r, reads, refreshes) = read_run(true, Err(expired()), Ok(()), Ok(()));
    assert!(r.is_ok());
    assert_eq!((reads, refreshes), (2, 1));
    let (r, reads, refreshes) = read_run(true, Err(expired()), Ok(()), Err(AppError::Auth("still".into())));
    let e = r.unwrap_err();
    assert_eq!((e.exit_code(), e.message(), reads, refreshes), (3, "still".to_string(), 2, 1));
    let (r, reads, refreshes) = read_run(true, Err(expired()), Err(AppError::Auth("off".into())), Ok(()));
    assert_eq!((r.unwrap_err().message(), reads, refreshes), ("off".to_string(), 1, 1));
    let (r, reads, refreshes) = read_run(true, Err(AppError::Upstream("boom".into())), Ok(()), Ok(()));
    assert!(matches!(r, Err(AppError::Upstream(_))));
    assert_eq!((reads, refreshes), (1, 0));
    let (r, reads, refreshes) = read_run(true, Ok(()), Ok(()), Ok(()));
    assert!(r.is_ok());
    assert_eq!((reads, refreshes), (1, 0));
}

#[test]
fn a_refused_refresh_returns_the_original_auth_error() {
    let (r, reads, refreshes) = read_run(false, Err(AppError::Auth("token expired".into())), Ok(()), Ok(()));
    let e = r.unwrap_err();
    assert_eq!((e.exit_code(), e.message(), reads, refreshes), (3, "token expired".to_string(), 1, 0));
    let mut state = ReadState::Start;
    let mut event = ReadEvent::Start;
    let mut actions = Vec::new();
    loop {
        let step = read_step(state, false, Some("helper"), event);
        state = step.next;
        event = match step.action {
            ReadAction::Read => ReadEvent::ReadFailed(AppError::Auth("401".into())),
            ReadAction::Refresh => panic!("auto refresh is off"),
            ReadAction::Return => panic!("the read failed"),
            ReadAction::Fail(e) => {
                actions.push(e.message());
                break;
            }
        };
    }
    assert_eq!(actions, vec!["401".to_string()]);
}

fn logout_run(has_user: bool, forget: bool, deletes: Vec<Result<bool, AppError>>) -> (Result<bool, AppError>, Vec<String>) {
    let mut deletes = deletes.into_iter();
    let mut done = Vec::new();
    let mut state = LogoutState::Start;
    let mut event = LogoutEvent::Start;
    loop {
        let step = logout_step(state, has_user, forget, event);
        state = step.next;
        event = match step.action {
            LogoutAction::Delete { service } => {
                done.push(format!("delete {service}"));
                LogoutEvent::Deleted(deletes.next().unwrap())
            }
            LogoutAction::ClearConfig => {
                done.push("clear".to_string());
                LogoutEvent::Cleared(Ok(()))
            }
            LogoutAction::Finished(r) => return (r, done),
        };
    }
}

#[test]
fn logout_deletes_both_entries_then_clears_config() {
    let (r, done) = logout_run(true, true, vec![Ok(false), Ok(true)]);
    assert!(r.unwrap());
    assert_eq!(done, vec!["delete piekstra.xfin", "delete xfinity-cli", "clear"]);
    let (r, done) = logout_run(true, false, vec![Ok(false), Ok(false)]);
    assert!(!r.unwrap());
    assert_eq!(done, vec!["delete piekstra.xfin", "delete xfinity-cli"]);
    let (r, done) = logout_run(true, true, vec![Err(AppError::Other("locked".into()))]);
    assert_eq!(r.unwrap_err().message(), "locked");
    assert_eq!(done, vec!["delete piekstra.xfin"]);
    let (r, done) = logout_run(false, true, vec![]);
    assert!(!r.unwrap());
    assert_eq!(done, vec!["clear"]);
}

#[test]
fn unmapped_commands_say_so() {
    let e = unmapped("payments methods");
    assert_eq!(e.exit_code(), 1);
    assert_eq!(
        e.message(),
        "`payments methods` isn't available yet on the new Xfinity account experience — see docs/api.md"
    );
}

// ---- auth refresh and login.

fn output(success: bool, stdout: &str, stderr: &str) -> CommandOutput {
    CommandOutput {
        success,
        status: if success { "exit status: 0".into() } else { "exit status: 1".into() },
        stdout: stdout.into(),
        stderr: stderr.into(),
    }
}

#[test]
fn helper_output_is_judged() {
    assert_eq!(helper_result(Ok(output(true, "  Bearer abc \n", ""))).unwrap(), "Bearer abc");
    let err = helper_result(Ok(output(false, "", "warming up\n  browser crashed  \n"))).unwrap_err();
    assert_eq!(err.message(), "refresh command failed (exit status: 1): browser crashed");
    let err = helper_result(Ok(output(false, "", "   "))).unwrap_err();
    assert_eq!(err.message(), "refresh command failed (exit status: 1)");
    let err = helper_result(Ok(output(true, "  \n", ""))).unwrap_err();
    assert_eq!(err.message(), "refresh command produced no token on stdout");
    assert!(helper_result(Err("no such file".into())).is_err());
}

#[test]
fn refresh_runs_verifies_and_stores() {
    let mut flow = RefreshFlow::new("u", Some("cmd"), None, None, false, true, false, false);
    let mut steps = Vec::new();
    let mut event = RefreshEvent::Proceed;
    loop {
        let step = flow.step(event);
        event = match step.action {
            RefreshAction::SaveCommand { .. } => panic!("not asked to save"),
            RefreshAction::Run { command } => {
                steps.push(format!("run {command}"));
                RefreshEvent::Ran(Ok(output(true, "tok\n", "")))
            }
            RefreshAction::Verify { token } => {
                steps.push(format!("verify {token}"));
                RefreshEvent::Verified(Ok(()))
            }
            RefreshAction::Store { token } => {
                steps.push(format!("store {token}"));
                RefreshEvent::Stored(Ok(()))
            }
            RefreshAction::Finished(r) => {
                assert!(r.is_ok());
                assert_eq!(step.notes, ["refreshed Xfinity session for u in the keychain"]);
                break;
            }
        };
    }
    assert_eq!(steps, ["run cmd", "verify tok", "store tok"]);
}

#[test]
fn refresh_needs_a_command_and_save_needs_the_flag() {
    let mut flow = RefreshFlow::new("u", None, None, None, false, true, false, false);
    match flow.step(RefreshEvent::Proceed).action {
        RefreshAction::Finished(Err(e)) => assert_eq!(e.exit_code(), 2),
        _ => panic!("expected a usage error"),
    }
    let mut flow = RefreshFlow::new("u", None, Some("env-cmd"), None, true, true, false, false);
    match flow.step(RefreshEvent::Proceed).action {
        RefreshAction::Finished(Err(e)) => {
            assert_eq!(e.message(), "--save requires --command <cmd> to persist")
        }
        _ => panic!("expected a usage error"),
    }
}

#[test]
fn login_refuses_to_replace_without_overwrite() {
    let mut flow = LoginFlow::new("u@example.com", true, None, false, false, false, false, None);
    assert!(matches!(flow.step(LoginEvent::Proceed).action, LoginAction::ReadStdin));
    assert!(matches!(
        flow.step(LoginEvent::Read(Ok("tok".into()))).action,
        LoginAction::CheckExisting
    ));
    match flow.step(LoginEvent::Existing(Ok(true))).action {
        LoginAction::Finished(Err(e)) => {
            assert_eq!(e.exit_code(), 2);
            assert!(e.message().contains("already exists — pass --overwrite"));
        }
        _ => panic!("expected a refusal"),
    }
}

#[test]
fn login_stores_and_remembers_the_username() {
    let mut flow = LoginFlow::new("u", false, Some("TOKEN_VAR"), true, true, true, false, Some("other"));
    match flow.step(LoginEvent::Proceed).action {
        LoginAction::ReadEnv { var } => assert_eq!(var, "TOKEN_VAR"),
        _ => panic!("expected an env read"),
    }
    assert!(matches!(flow.step(LoginEvent::Read(Ok("tok".into()))).action, LoginAction::Verify { .. }));
    assert!(matches!(flow.step(LoginEvent::Verified(Ok(()))).action, LoginAction::CheckExisting));
    match flow.step(LoginEvent::Existing(Ok(true))).action {
        LoginAction::Store { token } => assert_eq!(token, "tok"),
        _ => panic!("expected a store"),
    }
    assert!(matches!(flow.step(LoginEvent::Stored(Ok(()))).action, LoginAction::SaveUsername));
    let step = flow.step(LoginEvent::ConfigSaved(Ok(())));
    assert!(step.notes.is_empty(), "quiet login prints nothing");
    assert!(matches!(step.action, LoginAction::Finished(Ok(true))));
}

#[test]
fn login_needs_exactly_one_source_and_a_nonempty_secret() {
    let mut both = LoginFlow::new("u", true, Some("V"), false, false, false, false, None);
    assert!(matches!(both.step(LoginEvent::Proceed).action, LoginAction::Finished(Err(_))));
    let mut none = LoginFlow::new("u", false, None, false, false, false, false, None);
    assert!(matches!(none.step(LoginEvent::Proceed).action, LoginAction::Finished(Err(_))));
    let mut empty = LoginFlow::new("u", true, None, false, false, false, false, None);
    empty.step(LoginEvent::Proceed);
    match empty.step(LoginEvent::Read(Ok(String::new()))).action {
        LoginAction::Finished(Err(e)) => assert_eq!(e.message(), "empty session — nothing stored"),
        _ => panic!("expected a refusal"),
    }
}
