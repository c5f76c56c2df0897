use xfinity_cli::client::{
    decode_pdf, handle_response, extract_signed_url, is_login_url, iso_to_mmddyyyy, normalize_bearer, redacted_url,
    Xfinity, DEFAULT_API_HOST, DEFAULT_SC_API_HOST,
};
use xfinity_cli::error::AppError;

/// A minimal, well-formed one-page PDF.
const PDF_FIXTURE: &[u8] = b"%PDF-1.4\n1 0 obj<</Type/Catalog/Pages 2 0 R>>endobj\n2 0 obj<</Type/Pages/Kids[3 0 R]/Count 1>>endobj\n3 0 obj<</Type/Page/Parent 2 0 R/MediaBox[0 0 612 792]>>endobj\ntrailer<</Root 1 0 R>>\n%%EOF\n";

/// The sign-in page an expired session is answered with.
const LOGIN_HTML_FIXTURE: &str = "<!DOCTYPE html>\n<html lang=\"en\"><head><title>Sign in to Xfinity</title></head>\n<body><form action=\"/login\" method=\"post\"><input name=\"user\" value=\"\"><input type=\"password\" name=\"passwd\" value=\"\"></form></body></html>\n";

fn session() -> Xfinity {
    Xfinity::from_session("test-token", DEFAULT_API_HOST, DEFAULT_SC_API_HOST).ok().expect("a session")
}

fn exit_code(e: &AppError) -> i32 {
    e.exit_code()
}

#[test]
fn bearer_normalizes() {
    assert_eq!(normalize_bearer("abc"), "Bearer abc");
    assert_eq!(normalize_bearer("Bearer abc"), "Bearer abc");
    assert_eq!(normalize_bearer("  bearer xyz  "), "bearer xyz");
}

#[test]
fn url_builds_digital_service_path() {
    let x = session();
    assert_eq!(
        x.url_for("BillingInfo/billingSummary"),
        "https://www.xfinity.com/digital/service/api/BillingInfo/billingSummary"
    );
    assert_eq!(x.url_for("https://other/x"), "https://other/x");
}

#[test]
fn iso_to_mmddyyyy_rewrites_a_valid_iso_date() {
    assert_eq!(iso_to_mmddyyyy("2026-08-09").as_deref(), Some("08-09-2026"));
    assert_eq!(iso_to_mmddyyyy("2026-01-01").as_deref(), Some("01-01-2026"));
}

#[test]
fn iso_to_mmddyyyy_rejects_anything_that_isnt_iso_shape() {
    for bad in [
        "",
        "2026",
        "2026-08",
        "26-08-09",
        "2026-8-9",
        "2026/08/09",
        "08-09-2026",
        "abcd-ef-gh",
        "2026-08-09-01",
    ] {
        assert!(iso_to_mmddyyyy(bad).is_none(), "should reject {bad:?}");
    }
}

#[test]
fn extract_signed_url_reads_the_cloudfront_url_field() {
    let body = br#"{"cloudfront_url":"https://ssm-prod-billpdf-cache.s3.amazonaws.com/abc.pdf?sig=x"}"#;
    let url = extract_signed_url(body, "ssm/bill/pdf").unwrap();
    assert_eq!(url, "https://ssm-prod-billpdf-cache.s3.amazonaws.com/abc.pdf?sig=x");
}

#[test]
fn extract_signed_url_tolerates_camelcase_and_alt_field_names() {
    for body in [
        r#"{"cloudfrontUrl":"https://x/a.pdf"}"#,
        r#"{"url":"https://x/a.pdf"}"#,
        r#"{"pdfUrl":"https://x/a.pdf"}"#,
        r#"{"signedUrl":"https://x/a.pdf"}"#,
    ] {
        let url = extract_signed_url(body.as_bytes(), "ssm/bill/pdf").unwrap();
        assert_eq!(url, "https://x/a.pdf", "for body {body}");
    }
}

#[test]
fn extract_signed_url_errors_when_no_url_field_is_present() {
    let body = br#"{"unrelated":"x"}"#;
    let err = extract_signed_url(body, "ssm/bill/pdf").unwrap_err();
    let msg = err.message();
    assert!(msg.contains("recognized signed-URL field"), "unexpected error: {msg}");
    assert_eq!(err.exit_code(), 5);
}

#[test]
fn extract_signed_url_rejects_a_non_http_scheme() {
    let body = br#"{"cloudfront_url":"file:///etc/passwd"}"#;
    let err = extract_signed_url(body, "ssm/bill/pdf").unwrap_err();
    assert_eq!(err.exit_code(), 5, "got {}", err.message());
}

#[test]
fn extract_signed_url_reports_a_body_that_is_not_json() {
    let body = b"<<not json>>";
    let err = extract_signed_url(body, "ssm/bill/pdf").unwrap_err();
    assert_eq!(err.exit_code(), 5);
}

#[test]
fn decode_pdf_returns_raw_bytes_when_content_type_is_pdf() {
    let bytes = b"%PDF-1.7\nfake body";
    let out = decode_pdf(bytes, "application/pdf", "ssm/bill/pdf").unwrap();
    assert_eq!(out, bytes);
}

#[test]
fn decode_pdf_errors_on_undecodable_response() {
    let err = decode_pdf(b"not a pdf", "application/octet-stream", "ssm/bill/pdf").unwrap_err();
    let msg = err.message();
    assert!(msg.contains("unrecognized response"), "unexpected error: {msg}");
    assert_eq!(err.exit_code(), 5);
}

#[test]
fn fixture_pdf_round_trips_as_raw_bytes() {
    let out = decode_pdf(PDF_FIXTURE, "application/pdf", "ssm/bill/pdf").unwrap();
    assert_eq!(out, PDF_FIXTURE);
    assert!(out.starts_with(b"%PDF"));
}

#[test]
fn login_page_fixture_is_an_auth_failure_not_a_file() {
    let err = decode_pdf(
        LOGIN_HTML_FIXTURE.as_bytes(),
        "text/html; charset=utf-8",
        "ssm/bill/pdf",
    )
    .unwrap_err();
    assert_eq!(exit_code(&err), 3, "HTML login page must exit 3, got {}", err.message());
    assert!(matches!(err, AppError::Auth(_)));
    assert!(err.message().contains("auth login --overwrite"));
}

#[test]
fn html_is_auth_failure_even_when_content_type_lies() {
    let err = decode_pdf(LOGIN_HTML_FIXTURE.as_bytes(), "application/pdf", "ssm/bill/pdf").unwrap_err();
    assert_eq!(err.exit_code(), 3);
}

#[test]
fn a_real_pdf_is_accepted_even_when_content_type_claims_html() {
    let out = decode_pdf(PDF_FIXTURE, "text/html", "ssm/bill/pdf").unwrap();
    assert_eq!(out, PDF_FIXTURE);
}

#[test]
fn login_urls_are_recognized_and_api_urls_are_not() {
    assert!(is_login_url("https://login.xfinity.com/login?r=xfinity.com"));
    assert!(is_login_url("https://www.xfinity.com/login"));
    assert!(is_login_url("https://oauth.xfinity.com/oauth/authorize"));
    assert!(is_login_url("https://idm.example.com/sign-in"));
    assert!(!is_login_url(
        "https://www.xfinity.com/digital/service/api/BillingInfo/billingSummary"
    ));
    assert!(!is_login_url("https://api.sc.xfinity.com/session/ssm/bill/pdf"));
}

#[test]
fn redacted_url_drops_query_and_fragment() {
    assert_eq!(
        redacted_url("https://login.xfinity.com/login?state=SECRET&redirect_uri=x#frag"),
        "https://login.xfinity.com/login"
    );
}

// ---- The two-step statement download, judged response by response.

const BASE: &str = "http://127.0.0.1:4000";

fn ssm_step(status: u16, content_type: &str, final_url: &str, body: &[u8]) -> Result<String, AppError> {
    Xfinity::statement_url_from_response(status, content_type, final_url, Ok(body.to_vec()))
}

fn pdf_step(status: u16, content_type: &str, final_url: &str, body: &[u8]) -> Result<Vec<u8>, AppError> {
    Xfinity::signed_pdf_from_response(status, content_type, final_url, Ok(body.to_vec()))
}

#[test]
fn e2e_two_step_flow_returns_the_pdf_bytes() {
    let x = session();
    let first = x.download_statement("2026-08-09").expect("request");
    assert_eq!(first.url, "https://api.sc.xfinity.com/session/ssm/bill/pdf");
    assert!(first.query.contains(&("statementDate".to_string(), "08-09-2026".to_string())));
    let signed = format!("{BASE}/signed/statement.pdf");
    let envelope = format!(r#"{{"cloudfront_url":"{signed}"}}"#);
    let url = ssm_step(200, "application/json", first.url.as_str(), envelope.as_bytes()).unwrap();
    assert_eq!(url, signed);
    let second = x.fetch_signed_pdf(&url);
    assert_eq!(second.url, signed);
    assert!(second.headers.iter().all(|(k, _)| k != "Authorization"));
    let out = pdf_step(200, "application/pdf", &url, PDF_FIXTURE).expect("PDF round trip");
    assert_eq!(out, PDF_FIXTURE);
}

#[test]
fn e2e_html_login_page_on_ssm_step_exits_3_and_returns_no_bytes() {
    let err = ssm_step(200, "text/html; charset=utf-8", BASE, LOGIN_HTML_FIXTURE.as_bytes()).unwrap_err();
    assert_eq!(err.exit_code(), 3, "expected auth exit 3, got {}", err.message());
    assert!(matches!(err, AppError::Auth(_)));
}

#[test]
fn e2e_html_login_page_on_presigned_step_exits_3() {
    let url = format!("{BASE}/signed/statement.pdf");
    let err = pdf_step(200, "text/html; charset=utf-8", &url, LOGIN_HTML_FIXTURE.as_bytes()).unwrap_err();
    assert_eq!(err.exit_code(), 3, "expected auth exit 3, got {}", err.message());
}

#[test]
fn e2e_redirect_to_sign_in_on_ssm_step_exits_3() {
    let final_url = format!("{BASE}/login?state=abc");
    let err = ssm_step(200, "text/html; charset=utf-8", &final_url, LOGIN_HTML_FIXTURE.as_bytes()).unwrap_err();
    assert_eq!(err.exit_code(), 3, "expected auth exit 3, got {}", err.message());
    assert!(!err.message().contains("state=abc"));
}

#[test]
fn e2e_401_on_ssm_step_exits_3() {
    let err = ssm_step(401, "text/plain", BASE, b"").unwrap_err();
    assert_eq!(err.exit_code(), 3);
}

#[test]
fn e2e_404_on_ssm_step_exits_4_and_names_the_recipe() {
    let err = ssm_step(404, "text/plain", BASE, b"").unwrap_err();
    assert_eq!(err.exit_code(), 4, "got {}", err.message());
    assert!(err.message().contains("DevTools"));
    assert!(err.message().contains("Statement PDF"));
}

#[test]
fn e2e_usage_error_on_bad_date_before_the_network() {
    let err = session().download_statement("2026/08/09").unwrap_err();
    assert_eq!(err.exit_code(), 2, "got {}", err.message());
}

#[test]
fn an_empty_session_is_refused_before_any_request() {
    let err = Xfinity::from_session("", DEFAULT_API_HOST, DEFAULT_SC_API_HOST).err().unwrap();
    assert_eq!(err.exit_code(), 3);
}

#[test]
fn an_upstream_error_carries_the_body_message() {
    let body = br#"{"message": "statement service unavailable"}"#;
    let err = ssm_step(500, "application/json", BASE, body).unwrap_err();
    assert_eq!(err.exit_code(), 5);
    assert_eq!(
        err.message(),
        "Xfinity HTTP 500 for ssm/bill/pdf — statement service unavailable"
    );
}

#[test]
fn an_account_endpoint_response_is_classified() {
    let ok = handle_response(200, r#"{"a":1}"#, "BillingInfo/context").unwrap();
    assert_eq!(ok.get("a").and_then(|v| v.as_u64()), Some(1));
    assert!(handle_response(200, "   ", "p").unwrap().is_null());
    assert_eq!(handle_response(401, "", "p").unwrap_err().exit_code(), 3);
    assert_eq!(handle_response(404, "", "p").unwrap_err().exit_code(), 4);
    let err = handle_response(200, "<html>", "p").unwrap_err();
    assert_eq!(err.message(), "Xfinity returned a non-JSON response for p (first bytes: \"<html>\")");
}

#[test]
fn an_error_body_gives_its_message_as_a_hint() {
    let err = handle_response(500, r#"  {"message": "try later"}  "#, "p").unwrap_err();
    assert!(matches!(err, AppError::Upstream(_)));
    assert_eq!(err.message(), "Xfinity HTTP 500 for p — try later");
    let err = ssm_step(502, "application/json", "https://sc/x", br#"{"error":"down"}"#).unwrap_err();
    assert_eq!(err.message(), "Xfinity HTTP 502 for ssm/bill/pdf — down");
}

#[test]
fn normalizing_or_redacting_twice_changes_nothing() {
    for raw in ["abc", "Bearer abc", "  bearer xyz  ", "BEARER q"] {
        let once = normalize_bearer(raw);
        assert_eq!(normalize_bearer(&once), once);
    }
    let once = redacted_url("https://x/login?state=1#f");
    assert_eq!(redacted_url(&once), once);
    assert!(!once.contains('?') && !once.contains('#'));
}
