use xfinity_cli::json::Json;
use xfinity_cli::profile::{
    in_range, iso_date, money, statement_dto, statement_list, statement_values, summary_dto, Money,
    Statement,
};

fn to_json(v: &serde_json::Value) -> Json {
    match v {
        serde_json::Value::Null => Json::Null,
        serde_json::Value::Bool(b) => Json::Bool(*b),
        serde_json::Value::Number(n) => Json::Number(n.to_string()),
        serde_json::Value::String(s) => Json::Str(s.clone()),
        serde_json::Value::Array(a) => Json::Array(a.iter().map(to_json).collect()),
        serde_json::Value::Object(m) => {
            Json::Object(m.iter().map(|(k, v)| (k.clone(), to_json(v))).collect())
        }
    }
}

fn j(text: &str) -> Json {
    to_json(&serde_json::from_str::<serde_json::Value>(text).unwrap())
}

fn text_at<'a>(v: &'a Json, key: &str) -> Option<&'a str> {
    v.get(key).and_then(|x| x.as_str())
}

#[test]
fn money_parses_numbers_and_provider_strings() {
    assert_eq!(money(Some(&j("45.33"))).unwrap().amount, "45.33");
    assert_eq!(money(Some(&j("45.3"))).unwrap().amount, "45.30");
    assert_eq!(money(Some(&j("0"))).unwrap().amount, "0.00");
    assert_eq!(money(Some(&j("-12.34"))).unwrap().amount, "-12.34");
    assert_eq!(money(Some(&j(r#""$1,234.50""#))).unwrap().amount, "1234.50");
    assert_eq!(money(Some(&j("45.33"))).unwrap().currency, "USD");
    assert!(money(Some(&j("null"))).is_none());
    assert!(money(Some(&j(r#""n/a""#))).is_none());
    assert!(money(Some(&j(r#"{"nested": 1}"#))).is_none());
    assert!(money(None).is_none());
}

#[test]
fn money_rounds_half_up_to_cents_and_keeps_signs() {
    assert_eq!(Money::parse_usd("12.345").unwrap().amount, "12.35");
    assert_eq!(Money::parse_usd("12.344").unwrap().amount, "12.34");
    assert_eq!(Money::parse_usd("9.995").unwrap().amount, "10.00");
    assert_eq!(Money::parse_usd("  -$7 ").unwrap().amount, "-7.00");
    assert_eq!(Money::parse_usd("-0.00").unwrap().amount, "0.00");
    assert!(Money::parse_usd("").is_none());
    assert!(Money::parse_usd("$").is_none());
    assert!(Money::parse_usd("12.").is_none());
    assert!(Money::parse_usd("1e3").is_none());
    assert!(Money::parse_usd("$-5").is_none());
    assert_eq!(Money::usd("3.10").amount, "3.10");
    assert_eq!(Money::usd("3.10").currency, "USD");
}

#[test]
fn iso_date_normalizes_provider_formats() {
    assert_eq!(iso_date("2026-07-30"), "2026-07-30");
    assert_eq!(iso_date("2026-07-30T00:00:00"), "2026-07-30");
    assert_eq!(iso_date("07/30/2026"), "2026-07-30");
    assert_eq!(iso_date("7/5/2026"), "2026-07-05");
    assert_eq!(iso_date("pending"), "pending");
    assert_eq!(iso_date("30-JUN-2026"), "30-JUN-2026");
}

#[test]
fn iso_date_leaves_impossible_dates_alone() {
    assert_eq!(iso_date("2026-02-30"), "2026-02-30");
    assert_eq!(iso_date("13/01/2026"), "13/01/2026");
    assert_eq!(iso_date("01/01/999"), "01/01/999");
    assert_eq!(iso_date("2024-02-29"), "2024-02-29");
}

#[test]
fn summary_dto_maps_bbds() {
    let bbds = j(r#"{
        "dueDate": "2026-07-30T00:00:00",
        "balance": {"balanceDue": 45.33, "pastDueBalance": 0},
        "autopay": {"status": "ACTIVE", "date": "2026-07-30T00:00:00"}
    }"#);
    let v = summary_dto(&bbds, Some("1234567890".into())).to_json();
    assert_eq!(text_at(&v, "schema"), Some("utility-summary/v1"));
    let bal = v.get("balance").unwrap();
    assert_eq!(text_at(bal, "amount"), Some("45.33"));
    assert_eq!(text_at(bal, "currency"), Some("USD"));
    assert_eq!(text_at(&v, "due_date"), Some("2026-07-30"));
    assert_eq!(text_at(&v, "account"), Some("1234567890"));
    assert_eq!(v.get("autopay").and_then(|x| x.as_bool()), Some(true));
}

#[test]
fn summary_dto_omits_absent_fields() {
    let v = summary_dto(&j("{}"), None).to_json();
    assert_eq!(text_at(v.get("balance").unwrap(), "amount"), Some("0.00"));
    assert!(v.get("due_date").is_none());
    assert!(v.get("account").is_none());
    assert!(v.get("autopay").is_none());
}

#[test]
fn summary_dto_autopay_tri_state() {
    let ap = |status: &str| {
        let doc = format!(r#"{{"autopay": {{"status": "{status}"}}}}"#);
        summary_dto(&j(&doc), None).autopay
    };
    assert_eq!(ap("ON"), Some(true));
    assert_eq!(ap("enrolled"), Some(true));
    assert_eq!(ap("CANCELLED"), Some(false));
    assert_eq!(ap(""), None);
}

#[test]
fn statement_values_tolerates_object_and_array() {
    let one = j(r#"{"statementDetails": {"billStatus": "PAID"}}"#);
    assert_eq!(statement_values(&one).len(), 1);
    let many = j(r#"{"statementDetails": [{}, {}]}"#);
    assert_eq!(statement_values(&many).len(), 2);
    assert!(statement_values(&j("{}")).is_empty());
    assert!(statement_values(&j(r#"{"statementDetails": null}"#)).is_empty());
}

#[test]
fn statement_dto_maps_the_new_experience_shape() {
    let raw = j(r#"{
        "billStatus": "PAID",
        "lastStatementDate": "07/15/2026",
        "statementBalance": 45.33
    }"#);
    let s = statement_dto(&raw, 1);
    assert_eq!(s.id, "2026-07-15");
    assert_eq!(s.date.as_deref(), Some("2026-07-15"));
    assert_eq!(s.amount.amount, "45.33");
    assert_eq!(s.paid, Some(true));
    assert_eq!(s.due_date, None);
}

#[test]
fn statement_dto_prefers_a_real_id_with_position_fallback() {
    let s = statement_dto(&j(r#"{"statementId": "ABC123", "billStatus": "DUE"}"#), 3);
    assert_eq!(s.id, "ABC123");
    assert_eq!(s.paid, Some(false));
    let s = statement_dto(&j("{}"), 3);
    assert_eq!(s.id, "3");
    assert_eq!(s.amount.amount, "0.00");
    assert_eq!(s.paid, None);
}

#[test]
fn statement_dto_reads_the_fallback_members() {
    let s = statement_dto(
        &j(r#"{"id": "X9", "date": "2026-03-01", "amount": "$12", "dueDate": "03/20/2026", "status": "past due"}"#),
        1,
    );
    assert_eq!(s.id, "X9");
    assert_eq!(s.date.as_deref(), Some("2026-03-01"));
    assert_eq!(s.amount.amount, "12.00");
    assert_eq!(s.due_date.as_deref(), Some("2026-03-20"));
    assert_eq!(s.paid, Some(false));
}

#[test]
fn in_range_bounds() {
    assert!(in_range(Some("2026-07-15"), None, None));
    assert!(in_range(None, None, None));
    assert!(in_range(Some("2026-07-15"), Some("2026-07-01"), Some("2026-07-31")));
    assert!(!in_range(Some("2026-06-30"), Some("2026-07-01"), None));
    assert!(!in_range(Some("2026-08-01"), None, Some("2026-07-31")));
    assert!(!in_range(None, Some("2026-07-01"), None));
    assert!(!in_range(Some("pending"), Some("2026-07-01"), None));
}

#[test]
fn in_range_includes_both_ends() {
    assert!(in_range(Some("2026-07-01"), Some("2026-07-01"), Some("2026-07-01")));
}

#[test]
fn statement_list_counts_and_carries_each_statement() {
    let items = vec![statement_dto(&j(r#"{"statementId": "A", "statementBalance": 1}"#), 1)];
    let v = statement_list(&items);
    assert_eq!(text_at(&v, "schema"), Some("statement-list/v1"));
    assert_eq!(v.get("count").and_then(|c| c.as_u64()), Some(1));
    let first = match v.get("items") {
        Some(Json::Array(a)) => &a[0],
        _ => panic!("items must be a list"),
    };
    assert_eq!(text_at(first, "id"), Some("A"));
    assert_eq!(text_at(first.get("amount").unwrap(), "amount"), Some("1.00"));
    let s: &Statement = &items[0];
    assert!(s.to_json().get("date").is_none());
}

#[test]
fn iso_date_twice_is_iso_date_once() {
    for s in ["2026-07-30T00:00:00", "7/5/2026", "02/31/2026", "pending", "01/01/12345", "xT2026-01-01"] {
        let once = iso_date(s);
        assert_eq!(iso_date(&once), once, "for {s:?}");
    }
}

#[test]
fn money_text_reads_back_as_itself() {
    for s in ["45.3", "$1,234.50", "-12.345", " 0 ", "-0.004", "9.995"] {
        let once = Money::parse_usd(s).unwrap().amount;
        assert_eq!(Money::parse_usd(&once).unwrap().amount, once, "for {s:?}");
    }
}
