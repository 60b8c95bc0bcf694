//! Amount and date parsing.

use ekstre_core::store::{insert_reminded_at, latest_per_card};
use ekstre_core::{
    banks_from_raw, parse_amount, parse_amount_us, parse_date, parse_statement, Bank, RawBank,
    StatementRow,
};

/// An amount in kuruş as lira.
fn tl(kurus: i64) -> f64 {
    kurus as f64 / 100.0
}

#[test]
fn test_parse_amount() {
    assert_eq!(tl(parse_amount("12.345,67")), 12345.67);
    assert_eq!(tl(parse_amount("987,65")), 987.65);
    assert_eq!(tl(parse_amount("5.000,00")), 5000.0);
    // Turkish round-amount shorthand ",-" means ",00" (seen in TEB PDFs).
    assert_eq!(tl(parse_amount("24.396,-")), 24396.0);
    assert_eq!(tl(parse_amount("1.234,-")), 1234.0);
}

#[test]
fn test_parse_amount_us() {
    // Akbank business statements: comma thousands, dot decimal.
    assert_eq!(tl(parse_amount_us("10,964.11")), 10964.11);
    assert_eq!(tl(parse_amount_us("2,741.03")), 2741.03);
    assert_eq!(tl(parse_amount_us("125.00")), 125.0);
}

#[test]
fn test_parse_date() {
    assert_eq!(parse_date("25", "07", "2026"), "2026-07-25");
    assert_eq!(parse_date("5", "9", "2026"), "2026-09-05");
    assert_eq!(parse_date("7", "Mayıs", "2026"), "2026-05-07");
}

/// A TEB bank definition.
fn teb() -> Bank {
    let fields = [
        ("card", r"Kart No:\s*(\d{4})\*+(\d{4})"),
        ("total_due", r"Dönem Borcu:\s*([\d.]+,(?:\d{2}|-))"),
        ("min_due", r"Asgari:\s*([\d.]+,(?:\d{2}|-))"),
        ("due_date", r"Son Ödeme Tarihi:\s*(\d{1,2})[./ ](\d{1,2}|[^\s\d]+)[./ ](\d{4})"),
        ("statement_date", r"Hesap Kesim Tarihi:\s*(\d{2})\.(\d{2})\.(\d{4})"),
    ];
    let raw = RawBank {
        name: "TEB".to_string(),
        color: Some("#00a651".to_string()),
        source: Some("pdf".to_string()),
        match_from: Some("teb.com.tr".to_string()),
        match_subject: Some("Ekstre".to_string()),
        fallback_masked: None,
        amount_format: None,
        fields: fields.iter().map(|(k, v)| (k.to_string(), v.to_string())).collect(),
    };
    banks_from_raw(vec![raw]).unwrap().remove(0)
}

#[test]
fn test_missing_required_returns_none() {
    assert!(parse_statement(&teb(), "hiçbir şey yok").is_none());
}

/// A stored row of a statement of card `last4` due on `due`, inserted on
/// `today` at `now`.
fn stored(id: i64, last4: &str, due: &str, today: &str, now: &str) -> StatementRow {
    StatementRow {
        id,
        bank: "TEB".into(),
        card_last4: Some(last4.into()),
        card_masked: Some("m".into()),
        total_due: 1000,
        min_due: Some(100),
        due_date: due.into(),
        statement_date: None,
        reminded_at: insert_reminded_at(due, today, now),
    }
}

#[test]
fn test_past_due_captured_silently() {
    // A past-due statement is pre-marked reminded; an upcoming one stays pending.
    let today = "2026-07-25";
    let now = "2026-07-25 09:00:00";
    let past = stored(1, "1111", "2026-07-20", today, now);
    let upcoming = stored(2, "2222", "2026-07-30", today, now);
    let rows = latest_per_card(vec![past, upcoming]);
    let by_card: Vec<(String, Option<String>)> =
        rows.into_iter().map(|r| (r.card_last4.clone().unwrap(), r.reminded_at)).collect();
    let reminded = |card: &str| by_card.iter().find(|(c, _)| c == card).unwrap().1.clone();
    assert!(reminded("1111").is_some(), "already past due -> won't remind");
    assert!(reminded("2222").is_none(), "upcoming -> will remind on due day");
}
