use xfinity_cli::error::AppError;
use xfinity_cli::json::Json;
use xfinity_cli::output::{
    account, balance_line, billing_summary, devices, error_report, outages, render,
};
use xfinity_cli::selfupdate::{
    asset_name, asset_url, extract_binary, latest_release, norm, outcome_line, outcome_report, run,
    temp_path, UpdateAction, UpdateEvent, UpdateOutcome, UpdateSetup, UpdateState,
};

fn to_json(v: &serde_json::Value) -> Json {
    match v {
        serde_json::Value::Null => Json::Null,
        serde_json::Value::Bool(b) => Json::Bool(*b),
        serde_json::Value::Number(n) => Json::Number(n.to_string()),
        serde_json::Value::String(s) => Json::Str(s.clone()),
        serde_json::Value::Array(a) => Json::Array(a.iter().map(to_json).collect()),
        serde_json::Value::Object(m) => {
            Json::Object(m.iter().map(|(k, v)| (k.clone(), to_json(v))).collect())
        }
    }
}

fn j(text: &str) -> Json {
    to_json(&serde_json::from_str::<serde_json::Value>(text).unwrap())
}

fn tar_gz(entries: &[(&str, &[u8])]) -> Vec<u8> {
    let enc = flate2::write::GzEncoder::new(Vec::new(), flate2::Compression::default());
    let mut builder = tar::Builder::new(enc);
    for (name, data) in entries {
        let mut header = tar::Header::new_gnu();
        header.set_size(data.len() as u64);
        header.set_mode(0o755);
        header.set_cksum();
        builder.append_data(&mut header, name, *data).unwrap();
    }
    builder.into_inner().unwrap().finish().unwrap()
}

#[test]
fn norm_strips_v_prefix() {
    assert_eq!(norm("v1.2.3"), "1.2.3");
    assert_eq!(norm(" 1.2.3 "), "1.2.3");
}

#[test]
fn asset_name_is_platform_shaped() {
    for os in ["macos", "linux", "windows"] {
        for arch in ["x86_64", "aarch64"] {
            let name = asset_name(os, arch).unwrap();
            assert!(name.starts_with("xfin-"));
            assert!(name.ends_with(".tar.gz"));
        }
    }
    assert_eq!(asset_name("macos", "aarch64").unwrap(), "xfin-macos-aarch64.tar.gz");
    assert!(asset_name("freebsd", "x86_64").is_err());
    assert!(asset_name("linux", "riscv64").is_err());
}

#[test]
fn the_binary_is_found_in_a_release_tarball() {
    let archive = tar_gz(&[("README.md", b"hello"), ("dist/xfin", b"\x7fELF binary")]);
    assert_eq!(extract_binary(&archive).unwrap(), b"\x7fELF binary");
    let without = tar_gz(&[("README.md", b"hello")]);
    let err = extract_binary(&without).unwrap_err();
    assert!(err.message().contains("did not contain an `xfin` binary"));
    let err = extract_binary(b"not gzip at all").unwrap_err();
    assert_eq!(err.exit_code(), 1);
}

#[test]
fn the_binary_is_found_under_a_folder_whose_name_is_not_text() {
    let data: &[u8] = b"\x7fELF binary";
    let raw: &[u8] = b"dist-\xff/xfin";
    let mut header = tar::Header::new_gnu();
    header.as_old_mut().name[..raw.len()].copy_from_slice(raw);
    header.set_size(data.len() as u64);
    header.set_mode(0o755);
    header.set_cksum();
    let enc = flate2::write::GzEncoder::new(Vec::new(), flate2::Compression::default());
    let mut builder = tar::Builder::new(enc);
    builder.append(&header, data).unwrap();
    let archive = builder.into_inner().unwrap().finish().unwrap();
    assert_eq!(extract_binary(&archive).unwrap(), data);
}

#[test]
fn the_release_response_is_judged() {
    assert_eq!(latest_release(404, Err(String::new())).unwrap_err().exit_code(), 4);
    assert_eq!(latest_release(500, Err(String::new())).unwrap_err().exit_code(), 5);
    assert!(matches!(latest_release(500, Err(String::new())), Err(AppError::Network(_))));
    let err = latest_release(200, Ok(b"<html>".to_vec())).unwrap_err();
    assert!(matches!(err, AppError::Network(_)));
    assert!(err.message().starts_with("decoding the release: expected value"));
    let (tag, assets) = latest_release(200, Ok(br#"{"tag_name": "v1.0.0"}"#.to_vec())).unwrap();
    assert_eq!(tag, "v1.0.0");
    assert!(assets.is_empty());
    assert!(latest_release(200, Ok(b"{}".to_vec())).is_err());
    let assets = vec![
        j(r#"{"name": "xfin-linux-x86_64.tar.gz", "browser_download_url": "https://dl/x"}"#),
    ];
    assert_eq!(asset_url(&assets, "xfin-linux-x86_64.tar.gz", "v1").unwrap(), "https://dl/x");
    assert_eq!(asset_url(&assets, "xfin-macos-x86_64.tar.gz", "v1").unwrap_err().exit_code(), 4);
}

#[test]
fn the_temporary_file_sits_beside_the_binary() {
    assert_eq!(temp_path("/usr/local/bin/xfin", 42).unwrap(), "/usr/local/bin/.xfin-update-42");
    assert_eq!(temp_path("/xfin", 7).unwrap(), "/.xfin-update-7");
    assert_eq!(temp_path("xfin", 7).unwrap(), ".xfin-update-7");
    assert!(temp_path("/", 7).is_err());
}

fn setup(current: &str, check_only: bool) -> UpdateSetup {
    UpdateSetup {
        current: current.into(),
        check_only,
        os: "linux".into(),
        arch: "x86_64".into(),
        pid: 9,
    }
}

#[test]
fn an_update_installs_the_new_binary() {
    let s = setup("0.1.0", false);
    let (state, action) = run(&s, UpdateState::Begin, UpdateEvent::Proceed);
    assert!(matches!(action, UpdateAction::FetchRelease { .. }));
    let body = br#"{"tag_name": "v0.2.0", "assets": [
        {"name": "xfin-linux-x86_64.tar.gz", "browser_download_url": "https://dl/a"}]}"#.to_vec();
    let (state, action) = run(&s, state, UpdateEvent::Release { status: 200, body: Ok(body) });
    match action {
        UpdateAction::Download { url } => assert_eq!(url, "https://dl/a"),
        _ => panic!("expected a download"),
    }
    let archive = tar_gz(&[("xfin", b"NEW")]);
    let (state, action) = run(&s, state, UpdateEvent::Downloaded { status: 200, body: Ok(archive) });
    assert!(matches!(action, UpdateAction::LocateExe));
    let (state, action) = run(&s, state, UpdateEvent::Located(Ok("/opt/bin/xfin".into())));
    match action {
        UpdateAction::Install { dest, temp, bytes } => {
            assert_eq!(dest, "/opt/bin/xfin");
            assert_eq!(temp, "/opt/bin/.xfin-update-9");
            assert_eq!(bytes, b"NEW");
        }
        _ => panic!("expected an install"),
    }
    let (_, action) = run(&s, state, UpdateEvent::Installed(Ok(())));
    match action {
        UpdateAction::Finished(Ok(o)) => {
            assert!(o.updated);
            assert_eq!(o.latest, "0.2.0");
            assert_eq!(o.installed_at.as_deref(), Some("/opt/bin/xfin"));
        }
        _ => panic!("expected success"),
    }
}

#[test]
fn an_update_stops_when_current_or_only_checking() {
    let body = || Ok(br#"{"tag_name": "v0.2.0"}"#.to_vec());
    let s = setup("0.2.0", false);
    let (state, _) = run(&s, UpdateState::Begin, UpdateEvent::Proceed);
    match run(&s, state, UpdateEvent::Release { status: 200, body: body() }).1 {
        UpdateAction::Finished(Ok(o)) => assert!(o.already_current && !o.updated),
        _ => panic!("expected already current"),
    }
    let s = setup("0.1.0", true);
    let (state, _) = run(&s, UpdateState::Begin, UpdateEvent::Proceed);
    match run(&s, state, UpdateEvent::Release { status: 200, body: body() }).1 {
        UpdateAction::Finished(Ok(o)) => assert!(!o.already_current && !o.updated),
        _ => panic!("expected a check-only report"),
    }
}

#[test]
fn billing_summary_reads_bbds_shape() {
    let bbds = j(r#"{
        "dueDate": "2026-07-30",
        "balance": {"balanceDue": 45.33, "pastDueBalance": 0, "isDelinquent": false},
        "autopay": {"status": "ACTIVE", "date": "2026-07-30T00:00:00"}
    }"#);
    let (lines, flatten) = billing_summary(&bbds);
    assert!(!flatten);
    assert_eq!(
        lines,
        ["Balance:  $45.33", "Due:      2026-07-30", "Autopay:  on (draws 2026-07-30)"]
    );
}

#[test]
fn billing_summary_shows_past_due_and_other_autopay_states() {
    let bbds = j(r#"{"balance": {"pastDueBalance": "12.00", "isDelinquent": true},
                     "autopay": {"status": "SUSPENDED"}}"#);
    let (lines, flatten) = billing_summary(&bbds);
    assert!(!flatten);
    assert_eq!(lines, ["Past due: $12.00", "Autopay:  suspended", "Status:   delinquent"]);
    let (lines, flatten) = billing_summary(&j(r#"{"other": 1}"#));
    assert!(lines.is_empty());
    assert!(flatten);
}

#[test]
fn balance_line_reads_the_balance() {
    assert_eq!(balance_line(&j(r#"{"balance": {"balanceDue": "9.99"}}"#)), "Balance:  $9.99");
    assert_eq!(balance_line(&j("{}")), "Balance not available.");
}

#[test]
fn outages_reports_clear_when_no_outage() {
    let (lines, flatten) = outages(&j(r#"{"isOutage": false, "current": {"internet": false}}"#));
    assert_eq!(lines, ["No active outages."]);
    assert!(!flatten);
}

#[test]
fn outages_lists_affected_services() {
    let (lines, _) = outages(&j(r#"{"isOutage": true, "current": {"internet": true, "tv": false, "voice": true}}"#));
    assert_eq!(lines, ["OUTAGE — affected services:", "  internet", "  voice"]);
    let (lines, _) = outages(&j(r#"{"isOutage": false, "pastOutage": true}"#));
    assert_eq!(lines, ["No active outages.", "(recent outage on record)"]);
}

#[test]
fn account_block_reads_the_profile() {
    let d = j(r#"{"firstName": "Pat", "lastName": "Lee", "accountNumber": "123", "status": null,
                  "contactInfo": {"homePhone": ""}, "address": {"line1": "1 Main", "city": "X", "zip": "0"},
                  "loyalty": {"loyaltyTier": "Gold"}}"#);
    assert_eq!(
        account(&d),
        ["Name:     Pat Lee", "Account:  123", "Address:  1 Main X  0", "Loyalty:  Gold"]
    );
}

#[test]
fn devices_table_has_a_header_and_a_row_per_device() {
    let rows = devices(&j(r#"[{"deviceMake": "Arris", "deviceModel": "X", "deviceStatus": "online", "macaddress": "m", "serialNumber": "s"}]"#)).unwrap();
    assert_eq!(rows, ["MAKE | MODEL | STATUS | MAC | SERIAL", "Arris | X | online | m | s"]);
    assert!(devices(&j("[]")).is_none());
}

#[test]
fn render_unwraps_the_data_envelope() {
    assert_eq!(render(&j(r#"{"data": {"a": 1, "b": "x"}}"#)), ["a: 1", "b: x"]);
    assert_eq!(render(&j(r#"[{"a": 1}, {"a": 2}]"#)), ["a: 1", "", "a: 2"]);
}

#[test]
fn a_failed_asset_download_installs_nothing() {
    let s = setup("0.1.0", false);
    let (state, _) = run(&s, UpdateState::Begin, UpdateEvent::Proceed);
    let body = br#"{"tag_name": "v0.2.0", "assets": [
        {"name": "xfin-linux-x86_64.tar.gz", "browser_download_url": "https://dl/a"}]}"#.to_vec();
    let (state, _) = run(&s, state, UpdateEvent::Release { status: 200, body: Ok(body) });
    match run(&s, state, UpdateEvent::Downloaded { status: 503, body: Ok(b"busy".to_vec()) }).1 {
        UpdateAction::Finished(Err(e)) => {
            assert!(matches!(e, AppError::Network(_)));
            assert_eq!(e.message(), "downloading asset: HTTP 503");
        }
        _ => panic!("expected a failure"),
    }
}

#[test]
fn the_update_outcome_is_reported() {
    let o = UpdateOutcome {
        current: "0.1.0".into(),
        latest: "0.2.0".into(),
        updated: true,
        already_current: false,
        installed_at: Some("/opt/bin/xfin".into()),
    };
    assert_eq!(outcome_line(&o), "updated xfin 0.1.0 → 0.2.0");
    let v = outcome_report(&o);
    assert_eq!(v.get("installed_at").and_then(|x| x.as_str()), Some("/opt/bin/xfin"));
    let o = UpdateOutcome { updated: false, already_current: true, installed_at: None, ..o };
    assert_eq!(outcome_line(&o), "xfin 0.1.0 is up to date");
    assert!(outcome_report(&o).get("installed_at").unwrap().is_null());
    let o = UpdateOutcome { already_current: false, ..o };
    assert_eq!(outcome_line(&o), "xfin 0.1.0 → 0.2.0 available (run `xfin self-update`)");
}

#[test]
fn a_failure_is_reported_as_a_json_envelope() {
    let v = error_report(&AppError::Auth("expired".into()));
    let inner = v.get("error").unwrap();
    assert_eq!(inner.get("code").and_then(|c| c.as_u64()), Some(3));
    assert_eq!(inner.get("message").and_then(|m| m.as_str()), Some("expired"));
}
