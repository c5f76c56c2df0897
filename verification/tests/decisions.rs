use xfinity_cli::commands::auth::{login_report, logout_note, refresh_report, status_username};
use xfinity_cli::commands::billing::{download_date, due_line, stdout_note, to_stdout, write_failure};
use xfinity_cli::commands::config_cmd::change_note;
use xfinity_cli::commands::{
    account_override, auth_status, info, no_session, prompt_line, prompt_username_if_needed,
    retry_after_refresh, UsernameSource,
};
use xfinity_cli::error::AppError;
use xfinity_cli::json::Json;
use xfinity_cli::profile::{Money, Statement};

fn text_at<'a>(v: &'a Json, key: &str) -> Option<&'a str> {
    v.get(key).and_then(|x| x.as_str())
}

#[test]
fn only_an_expired_session_on_the_first_try_is_retried() {
    assert!(retry_after_refresh(0, &AppError::Auth("x".into())));
    assert!(!retry_after_refresh(1, &AppError::Auth("x".into())));
    assert!(!retry_after_refresh(0, &AppError::Upstream("x".into())));
}

#[test]
fn the_username_comes_from_config_or_a_prompt() {
    assert!(matches!(
        prompt_username_if_needed(Ok("u".into()), true, false),
        UsernameSource::Known(u) if u == "u"
    ));
    assert!(matches!(
        prompt_username_if_needed(Err(AppError::Auth("no".into())), false, true),
        UsernameSource::Prompt
    ));
    match prompt_username_if_needed(Err(AppError::Auth("no".into())), true, true) {
        UsernameSource::Refused(e) => assert_eq!(e.exit_code(), 2),
        _ => panic!("expected a refusal"),
    }
    assert_eq!(prompt_line("Xfinity username (email)", "  me@example.com\n").unwrap(), "me@example.com");
    assert_eq!(
        prompt_line("Xfinity username (email)", " \n").unwrap_err().message(),
        "Xfinity username (email) cannot be empty"
    );
}

#[test]
fn a_missing_session_names_the_user() {
    let e = no_session("me@example.com");
    assert_eq!(e.exit_code(), 3);
    assert_eq!(e.message(), "no stored session for \"me@example.com\" — run `xfin auth login`");
}

#[test]
fn the_account_override_skips_blank_values() {
    assert_eq!(account_override(Some("1"), Some("2")).as_deref(), Some("1"));
    assert_eq!(account_override(None, Some("2")).as_deref(), Some("2"));
    assert_eq!(account_override(Some(""), Some("2")), None);
    assert_eq!(status_username(None, Some("c"), None).as_deref(), Some("c"));
    assert_eq!(status_username(None, Some("c"), Some("e")).as_deref(), Some("c"));
    assert_eq!(status_username(None, None, Some("e")).as_deref(), Some("e"));
    assert_eq!(status_username(Some("f"), Some("c"), Some("e")).as_deref(), Some("f"));
}

#[test]
fn reports_carry_their_fields() {
    let r = refresh_report("u", true);
    assert_eq!(text_at(&r, "status"), Some("refreshed"));
    assert_eq!(r.get("verified").and_then(|v| v.as_bool()), Some(true));
    let l = login_report("u", false, true);
    assert_eq!(text_at(&l, "status"), Some("stored"));
    assert_eq!(l.get("overwritten").and_then(|v| v.as_bool()), Some(true));
    let s = auth_status(Some("u"), None, true);
    assert_eq!(s.get("authenticated").and_then(|v| v.as_bool()), Some(true));
    assert!(s.get("account").unwrap().is_null());
    let i = info("0.1.0");
    assert_eq!(text_at(&i, "schema"), Some("cli-info/v1"));
    assert_eq!(text_at(&i, "version"), Some("0.1.0"));
    match i.get("commands") {
        Some(Json::Array(a)) => assert_eq!(a.len(), 9),
        _ => panic!("commands expected"),
    }
}

#[test]
fn notes_and_messages_read_as_written() {
    assert_eq!(logout_note(true), "logged out and cleared stored session");
    assert_eq!(logout_note(false), "logged out");
    assert_eq!(change_note("username", true), "set username");
    assert_eq!(change_note("username", false), "unset username");
    assert_eq!(stdout_note(12, "2026-07-15"), "wrote 12 bytes (statement 2026-07-15) to stdout");
    assert_eq!(write_failure("writing a.pdf", "denied").message(), "writing a.pdf: denied");
    assert!(to_stdout(&Some("-".into())));
    assert!(!to_stdout(&Some("x".into())));
    assert!(!to_stdout(&None));
}

#[test]
fn a_statement_without_a_date_cannot_be_downloaded() {
    let s = Statement { id: "abc".into(), date: None, amount: Money::usd("0.00"), due_date: None, paid: None };
    let e = download_date(&s, "abc").unwrap_err();
    assert_eq!(e.exit_code(), 4);
    let s = Statement { date: Some("2026-07-15".into()), ..s };
    assert_eq!(download_date(&s, "abc").unwrap(), "2026-07-15");
}

#[test]
fn due_dates_print_the_due_text() {
    let bbds = Json::Object(vec![("dueDate".into(), Json::Str("2026-07-30".into()))]);
    assert_eq!(due_line(&bbds).as_deref(), Some("Due: 2026-07-30"));
    assert_eq!(due_line(&Json::Null), None);
}
