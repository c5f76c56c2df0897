use xfinity_cli::commands::billing::{
    batch_dto, check, collect_statements, default_file_name, failure_dto, file_name,
    resolve_output, resolve_statement, saved_dto, saved_line, statement_name, statements_listing,
    download_one_step, BatchAction, BatchEvent, BillingCommand, DownloadArgs, DownloadBatch, Listing,
    OneAction, OneDone, OneEvent, OneState, RangeArgs,
};
use xfinity_cli::error::AppError;
use xfinity_cli::json::Json;
use xfinity_cli::profile::{Money, Statement};

fn to_json(v: &serde_json::Value) -> Json {
    match v {
        serde_json::Value::Null => Json::Null,
        serde_json::Value::Bool(b) => Json::Bool(*b),
        serde_json::Value::Number(n) => Json::Number(n.to_string()),
        serde_json::Value::String(s) => Json::Str(s.clone()),
        serde_json::Value::Array(a) => Json::Array(a.iter().map(to_json).collect()),
        serde_json::Value::Object(m) => {
            Json::Object(m.iter().map(|(k, v)| (k.clone(), to_json(v))).collect())
        }
    }
}

fn j(text: &str) -> Json {
    to_json(&serde_json::from_str::<serde_json::Value>(text).unwrap())
}

fn text_at<'a>(v: &'a Json, key: &str) -> Option<&'a str> {
    v.get(key).and_then(|x| x.as_str())
}

fn keys(v: &Json) -> Vec<String> {
    match v {
        Json::Object(m) => {
            let mut k: Vec<String> = m.iter().map(|(k, _)| k.clone()).collect();
            k.sort_unstable();
            k
        }
        _ => panic!("not an object"),
    }
}

fn statement(id: &str, date: Option<&str>, amount: &str, paid: Option<bool>) -> Statement {
    Statement {
        id: id.into(),
        date: date.map(String::from),
        amount: Money::usd(amount),
        due_date: None,
        paid,
    }
}

fn range(since: Option<&str>, until: Option<&str>, limit: Option<u32>) -> RangeArgs {
    RangeArgs { since: since.map(String::from), until: until.map(String::from), limit }
}

fn download(id: Option<&str>, all: bool, output: Option<&str>, r: RangeArgs) -> BillingCommand {
    BillingCommand::Download(DownloadArgs {
        id: id.map(String::from),
        all,
        output: output.map(String::from),
        range: r,
    })
}

#[test]
fn resolve_output_defaults_to_the_generated_filename() {
    assert_eq!(
        resolve_output(None, "xfin-statement-2026-07-15.pdf", false),
        "xfin-statement-2026-07-15.pdf"
    );
}

#[test]
fn resolve_output_uses_an_explicit_path_verbatim() {
    assert_eq!(
        resolve_output(Some("/tmp/x.pdf"), "xfin-statement-2026-07-15.pdf", false),
        "/tmp/x.pdf"
    );
}

#[test]
fn resolve_output_joins_the_filename_onto_a_directory() {
    assert_eq!(
        resolve_output(Some("."), "xfin-statement-2026-07-15.pdf", true),
        "./xfin-statement-2026-07-15.pdf"
    );
}

#[test]
fn resolve_output_does_not_double_a_trailing_separator() {
    assert_eq!(resolve_output(Some("/tmp/"), "a.pdf", true), "/tmp/a.pdf");
}

#[test]
fn default_file_name_uses_the_iso_date_when_present() {
    let s = statement("2026-07-15", Some("2026-07-15"), "45.33", Some(true));
    assert_eq!(default_file_name(&s), "xfin-statement-2026-07-15.pdf");
}

#[test]
fn default_file_name_falls_back_to_the_id_and_sanitizes_slashes() {
    let s = statement("abc/def", None, "0.00", None);
    assert_eq!(default_file_name(&s), "xfin-statement-abc-def.pdf");
    let s = statement("a\\b\0c", None, "0.00", None);
    assert_eq!(default_file_name(&s), "xfin-statement-a-b-c.pdf");
}

#[test]
fn resolve_statement_matches_by_id_or_date_and_misses_return_not_found() {
    let bbds = j(r#"{
        "statementDetails": {
            "billStatus": "PAID",
            "lastStatementDate": "07/15/2026",
            "statementBalance": 45.33
        }
    }"#);
    let s = resolve_statement(&bbds, "2026-07-15").unwrap();
    assert_eq!(s.date.as_deref(), Some("2026-07-15"));
    assert_eq!(s.id, "2026-07-15");
    let err = resolve_statement(&bbds, "1999-01-01").unwrap_err();
    assert!(matches!(err, AppError::NotFound(_)));
    assert_eq!(err.exit_code(), 4);
}

#[test]
fn saved_dto_carries_the_fields_the_download_dto_promises() {
    let s = statement("2026-07-15", Some("2026-07-15"), "45.33", Some(true));
    let v = saved_dto(&s, "/tmp/xfin-statement-2026-07-15.pdf", 1234);
    assert_eq!(text_at(&v, "schema"), Some("document-download/v1"));
    assert_eq!(text_at(&v, "id"), Some("2026-07-15"));
    assert_eq!(text_at(&v, "name"), Some("Statement 2026-07-15"));
    assert_eq!(text_at(&v, "category"), Some("statement"));
    assert_eq!(text_at(&v, "date"), Some("2026-07-15"));
    assert_eq!(v.get("bytes").and_then(|b| b.as_u64()), Some(1234));
    assert_eq!(text_at(&v, "file"), Some("xfin-statement-2026-07-15.pdf"));
    assert_eq!(text_at(&v, "path"), Some("/tmp/xfin-statement-2026-07-15.pdf"));
}

#[test]
fn saved_dto_carries_no_financial_fields() {
    let s = statement("2026-07-15", Some("2026-07-15"), "45.33", Some(true));
    let v = saved_dto(&s, "/tmp/x.pdf", 1);
    for banned in ["amount", "currency", "balance", "due_date", "paid"] {
        assert!(v.get(banned).is_none(), "document-download/v1 must not carry `{banned}`");
    }
    let mut text = String::new();
    v.write_compact(&mut text);
    assert!(!text.contains("45.33"), "the statement amount must not appear anywhere in the download DTO");
}

#[test]
fn saved_dto_field_set_matches_the_spec_exactly() {
    let s = statement("2026-07-15", Some("2026-07-15"), "45.33", None);
    let v = saved_dto(&s, "/tmp/x.pdf", 1);
    assert_eq!(
        keys(&v),
        ["bytes", "category", "date", "file", "id", "name", "path", "schema"],
        "SavedDocument is schema/id/name/category?/date?/file?/path/bytes"
    );
}

#[test]
fn saved_dto_without_a_date_writes_null() {
    let s = statement("abc", None, "0.00", None);
    let v = saved_dto(&s, "abc.pdf", 2);
    assert!(v.get("date").unwrap().is_null());
    assert_eq!(text_at(&v, "name"), Some("Statement abc"));
}

#[test]
fn statement_name_falls_back_to_the_id_without_a_date() {
    let s = statement("abc", None, "0.00", None);
    assert_eq!(statement_name(&s), "Statement abc");
}

#[test]
fn batch_dto_omits_failed_entirely_on_a_clean_run() {
    let v = batch_dto(".", &vec![j(r#"{"id": "a"}"#)], 10, &vec![]);
    assert!(v.get("failed").is_none());
    assert_eq!(keys(&v), ["bytes_total", "count", "dir", "items", "schema"]);
    assert_eq!(text_at(&v, "schema"), Some("document-download-batch/v1"));
    assert_eq!(v.get("count").and_then(|c| c.as_u64()), Some(1));
}

#[test]
fn batch_dto_reports_what_succeeded_alongside_what_failed() {
    let written = vec![j(r#"{"id": "2026-06-15", "path": "/tmp/a.pdf"}"#)];
    let failed = vec![failure_dto("2026-07-15", "boom")];
    let v = batch_dto("/tmp", &written, 42, &failed);
    assert_eq!(v.get("count").and_then(|c| c.as_u64()), Some(1), "count covers what actually landed");
    assert_eq!(v.get("bytes_total").and_then(|c| c.as_u64()), Some(42));
    let first = |k: &str| match v.get(k) {
        Some(Json::Array(a)) => text_at(&a[0], "id").map(String::from),
        _ => None,
    };
    assert_eq!(first("items").as_deref(), Some("2026-06-15"));
    assert_eq!(first("failed").as_deref(), Some("2026-07-15"));
    match v.get("failed") {
        Some(Json::Array(a)) => assert_eq!(text_at(&a[0], "error"), Some("boom")),
        _ => panic!("failed must be a list"),
    }
}

#[test]
fn failure_dto_names_the_statement_and_the_reason() {
    let v = failure_dto("2026-07-15", "no date to key the download by");
    assert_eq!(text_at(&v, "id"), Some("2026-07-15"));
    assert_eq!(text_at(&v, "error"), Some("no date to key the download by"));
}

#[test]
fn saved_line_reads_id_path_and_bytes() {
    let s = statement("2026-07-15", Some("2026-07-15"), "1.00", None);
    let v = saved_dto(&s, "/tmp/a.pdf", 7);
    assert_eq!(saved_line(&v), "Saved statement 2026-07-15 → /tmp/a.pdf (7 bytes)");
    assert_eq!(saved_line(&j("{}")), "Saved statement ? → ? (0 bytes)");
}

#[test]
fn file_name_follows_path_semantics() {
    assert_eq!(file_name("/tmp/x.pdf"), "x.pdf");
    assert_eq!(file_name("x.pdf"), "x.pdf");
    assert_eq!(file_name("/tmp/dir/"), "dir");
    assert_eq!(file_name("a/./b/."), "b");
    assert_eq!(file_name("/"), "");
    assert_eq!(file_name("a/.."), "");
    assert_eq!(file_name("."), "");
}

// ---- Argument checks made before any network access.

#[test]
fn billing_download_requires_an_id_or_all() {
    let err = check(&download(None, false, None, range(None, None, None))).unwrap_err();
    assert_eq!(err.exit_code(), 2);
    assert!(err.message().contains("--all"));
}

#[test]
fn billing_download_all_refuses_to_stream_to_stdout() {
    let err = check(&download(None, true, Some("-"), range(None, None, None))).unwrap_err();
    assert_eq!(err.exit_code(), 2);
    assert!(err.message().contains("stdout"));
}

#[test]
fn billing_download_rejects_a_non_iso_since() {
    let err = check(&download(None, true, None, range(Some("07/15/2026"), None, None))).unwrap_err();
    assert_eq!(err.exit_code(), 2);
}

#[test]
fn billing_download_rejects_an_inverted_date_range() {
    let err = check(&download(
        None,
        true,
        None,
        range(Some("2026-08-01"), Some("2026-01-01"), None),
    ))
    .unwrap_err();
    assert_eq!(err.exit_code(), 2);
    assert!(err.message().contains("is after"));
}

#[test]
fn billing_statement_still_reports_not_available_and_points_to_download() {
    let err = check(&BillingCommand::Statement { id: "any".into() }).unwrap_err();
    assert_eq!(err.exit_code(), 1);
    assert!(err.message().contains("billing download"));
}

#[test]
fn a_well_formed_download_passes_the_checks() {
    assert!(check(&download(Some("2026-07-15"), false, Some("-"), range(None, None, None))).is_ok());
    assert!(check(&download(None, true, Some("out"), range(Some("2026-01-01"), Some("2026-01-01"), Some(3)))).is_ok());
    assert!(check(&BillingCommand::Summary).is_ok());
}

// ---- Listings.

fn three_statements() -> Json {
    j(r#"{"statementDetails": [
        {"statementId": "A", "lastStatementDate": "2026-05-15", "statementBalance": 10},
        {"statementId": "B", "lastStatementDate": "2026-06-15", "statementBalance": 20},
        {"statementId": "C", "statementBalance": 30}
    ]}"#)
}

#[test]
fn collect_statements_filters_by_range_and_limit() {
    let bbds = three_statements();
    let all = collect_statements(&bbds, &range(None, None, None));
    assert_eq!(all.len(), 3);
    let june = collect_statements(&bbds, &range(Some("2026-06-01"), None, None));
    assert_eq!(june.len(), 1);
    assert_eq!(june[0].1.id, "B");
    let first = collect_statements(&bbds, &range(None, None, Some(1)));
    assert_eq!(first.len(), 1);
    assert_eq!(first[0].1.id, "A");
}

#[test]
fn statements_listing_picks_raw_list_or_none() {
    let bbds = three_statements();
    assert!(matches!(statements_listing(&bbds, &range(None, None, None), false), Listing::Raw(_)));
    match statements_listing(&bbds, &range(None, None, None), true) {
        Listing::List(v) => assert_eq!(v.get("count").and_then(|c| c.as_u64()), Some(3)),
        _ => panic!("json listing expected"),
    }
    assert!(matches!(
        statements_listing(&bbds, &range(Some("2030-01-01"), None, None), false),
        Listing::Empty
    ));
    match statements_listing(&bbds, &range(None, None, Some(2)), false) {
        Listing::Records(r) => assert_eq!(r.len(), 2),
        _ => panic!("records expected"),
    }
}

// ---- The batch download.

fn run_batch(
    batch: &mut DownloadBatch,
    mut fetch: impl FnMut(&str) -> Result<Vec<u8>, AppError>,
    mut write: impl FnMut(&str, &[u8]) -> Result<(), String>,
) -> Vec<String> {
    let mut notes = Vec::new();
    let mut event = BatchEvent::Proceed;
    loop {
        let step = batch.step(event);
        if let Some(n) = step.note {
            notes.push(n);
        }
        event = match step.action {
            BatchAction::Fetch { date } => BatchEvent::Fetched(fetch(&date)),
            BatchAction::Write { path, bytes } => BatchEvent::Written(write(&path, &bytes)),
            BatchAction::Continue => BatchEvent::Proceed,
            BatchAction::Finished => break,
        };
    }
    notes
}

#[test]
fn a_batch_reports_what_landed_and_what_did_not() {
    let bbds = three_statements();
    let records = collect_statements(&bbds, &range(None, None, None));
    let mut batch = DownloadBatch::new(Some("/tmp/out"), records);
    let mut paths = Vec::new();
    let notes = run_batch(
        &mut batch,
        |date| {
            if date == "2026-06-15" {
                Err(AppError::Upstream("boom".into()))
            } else {
                Ok(b"%PDF-1.4 x".to_vec())
            }
        },
        |path, _| {
            paths.push(path.to_string());
            Ok(())
        },
    );
    assert_eq!(paths, ["/tmp/out/xfin-statement-2026-05-15.pdf"]);
    assert_eq!(notes.len(), 2);
    assert!(notes[0].contains("failed statement B: boom"));
    assert!(notes[1].contains("skipping statement C"));
    let report = batch.report();
    assert_eq!(report.get("count").and_then(|c| c.as_u64()), Some(1));
    assert_eq!(report.get("bytes_total").and_then(|c| c.as_u64()), Some(10));
    assert_eq!(text_at(&report, "dir"), Some("/tmp/out"));
    let lines = batch.lines();
    assert_eq!(lines.len(), 3);
    assert_eq!(lines[1], "1 statement(s), 10 bytes → /tmp/out");
    assert_eq!(lines[2], "2 failed");
    let err = batch.finish().unwrap_err();
    assert_eq!(err.exit_code(), 5);
    assert!(err.message().starts_with("2 of 3 statement(s) failed"));
}

#[test]
fn an_auth_failure_stops_the_batch() {
    let bbds = three_statements();
    let records = collect_statements(&bbds, &range(None, None, None));
    let mut batch = DownloadBatch::new(None, records);
    let mut fetches = 0;
    run_batch(
        &mut batch,
        |_| {
            fetches += 1;
            Err(AppError::Auth("expired".into()))
        },
        |_, _| Ok(()),
    );
    assert_eq!(fetches, 1, "no fetch after the session is known dead");
    assert_eq!(batch.where_to(), ".");
    let err = batch.finish().unwrap_err();
    assert!(matches!(err, AppError::Auth(_)));
}

#[test]
fn a_clean_batch_exits_fine() {
    let bbds = j(r#"{"statementDetails": {"lastStatementDate": "2026-05-15"}}"#);
    let records = collect_statements(&bbds, &range(None, None, None));
    let mut batch = DownloadBatch::new(None, records);
    let mut written = Vec::new();
    run_batch(&mut batch, |_| Ok(vec![1, 2, 3]), |p, b| {
        written.push((p.to_string(), b.len()));
        Ok(())
    });
    assert_eq!(written, [("xfin-statement-2026-05-15.pdf".to_string(), 3)]);
    assert!(!batch.nothing_done());
    assert!(batch.report().get("failed").is_none());
    assert!(batch.finish().is_ok());
}

#[test]
fn a_failed_write_is_recorded_with_its_path() {
    let bbds = j(r#"{"statementDetails": {"lastStatementDate": "2026-05-15"}}"#);
    let records = collect_statements(&bbds, &range(None, None, None));
    let mut batch = DownloadBatch::new(Some("d"), records);
    let notes = run_batch(&mut batch, |_| Ok(vec![1]), |_, _| Err("disk full".into()));
    assert_eq!(notes, ["failed statement 2026-05-15: writing d/xfin-statement-2026-05-15.pdf: disk full"]);
    let report = batch.report();
    match report.get("failed") {
        Some(Json::Array(a)) => assert_eq!(
            text_at(&a[0], "error"),
            Some("writing d/xfin-statement-2026-05-15.pdf: disk full")
        ),
        _ => panic!("failed expected"),
    }
}

fn one_run(output: Option<&str>, fetched: Result<Vec<u8>, AppError>) -> (Result<OneDone, AppError>, Vec<String>) {
    let bbds = j(r#"{"statementDetails": {"lastStatementDate": "07/15/2026", "statementBalance": 45.33}}"#);
    let output = output.map(String::from);
    let mut fetched = Some(fetched);
    let mut done = Vec::new();
    let mut state = OneState::Start;
    let mut event = OneEvent::Start;
    loop {
        let (next, action) = download_one_step(&bbds, "2026-07-15", &output, false, state, event);
        state = next;
        event = match action {
            OneAction::Fetch { date } => {
                done.push(format!("fetch {date}"));
                OneEvent::Fetched(fetched.take().unwrap())
            }
            OneAction::WriteStdout { bytes } => {
                done.push(format!("stdout {}", bytes.len()));
                OneEvent::Wrote(Ok(()))
            }
            OneAction::WriteFile { path, bytes } => {
                done.push(format!("file {path} {}", bytes.len()));
                OneEvent::Wrote(Ok(()))
            }
            OneAction::Finished(r) => return (r, done),
        };
    }
}

#[test]
fn one_statement_is_fetched_then_written_once() {
    let pdf = b"%PDF-1.4 tiny".to_vec();
    let (r, done) = one_run(None, Ok(pdf.clone()));
    assert_eq!(done, vec!["fetch 2026-07-15", "file xfin-statement-2026-07-15.pdf 13"]);
    match r.unwrap() {
        OneDone::Saved { dto } => {
            assert_eq!(saved_line(&dto), "Saved statement 2026-07-15 → xfin-statement-2026-07-15.pdf (13 bytes)")
        }
        OneDone::Streamed { .. } => panic!("expected a file"),
    }
    let (r, done) = one_run(Some("-"), Ok(pdf));
    assert_eq!(done, vec!["fetch 2026-07-15", "stdout 13"]);
    match r.unwrap() {
        OneDone::Streamed { note } => assert_eq!(note, "wrote 13 bytes (statement 2026-07-15) to stdout"),
        OneDone::Saved { .. } => panic!("expected stdout"),
    }
    let (r, done) = one_run(None, Err(AppError::Auth("sign-in page".into())));
    assert_eq!(done, vec!["fetch 2026-07-15"]);
    assert_eq!(r.err().unwrap().exit_code(), 3);
}
