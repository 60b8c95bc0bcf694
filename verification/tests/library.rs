//! The library on concrete values: calendar, amounts, bank packs, statement
//! reading, store rules, settings, dashboard values, mail planning, polls.

use ekstre_core::amount::{read_tr_amount, read_us_amount};
use ekstre_core::calendar::{civil_to_days, days_to_civil_i64, shift_back, shift_back_computable};
use ekstre_core::config::{parse_name_list, setup_settings, update_settings_pairs};
use ekstre_core::dashboard::{
    active_banks, bank_color, bank_infos, card_view, download_file_name, numbered_file_name,
    pdf_file_name, sanitize_filename,
};
use ekstre_core::mail::{header_text, imap_query, plan_message, MessagePlan};
use ekstre_core::parser::StatementFault;
use ekstre_core::poll::{
    lookback_days, not_configured_error, poll_precheck, reminder_notification, reminder_window_modifier,
    reminders_allowed, rows_to_mark, usable_password, PollTally,
};
use ekstre_core::pdf::first_pdf_statement;
use ekstre_core::store::{due_unreminded, insert_reminded_at, latest_per_card, sort_by_due, statement_id};
use ekstre_core::{
    banks_from_raw, days_left, format_amount_tr, imap_since, parse_amount, parse_iso,
    parse_statement, reminder_title_lead, try_parse_statement, AmountStyle, Bank, BankError,
    Config, ImapAccount, ImapForm, RawBank, Statement, StatementRow, StoredAccounts,
};

fn raw(name: &str, fields: &[(&str, &str)]) -> RawBank {
    RawBank {
        name: name.to_string(),
        color: None,
        source: None,
        match_from: Some("teb.com.tr".to_string()),
        match_subject: Some("Ekstre".to_string()),
        fallback_masked: Some("TEB Kart".to_string()),
        amount_format: None,
        fields: fields.iter().map(|(k, v)| (k.to_string(), v.to_string())).collect(),
    }
}

fn teb() -> Bank {
    let fields = [
        ("card", r"Kart No:\s*(\d{4})\*+(\d{4})"),
        ("total_due", r"Dönem Borcu:\s*([\d.]+,(?:\d{2}|-))"),
        ("min_due", r"Asgari:\s*([\d.]+,(?:\d{2}|-))"),
        ("due_date", r"Son Ödeme Tarihi:\s*(\d{1,2})[./ ](\d{1,2}|[^\s\d]+)[./ ](\d{4})"),
        ("statement_date", r"Hesap Kesim Tarihi:\s*(\d{2})\.(\d{2})\.(\d{4})"),
    ];
    banks_from_raw(vec![raw("TEB", &fields)]).unwrap().remove(0)
}

fn row(id: i64, bank: &str, last4: Option<&str>, due: &str, reminded: Option<&str>) -> StatementRow {
    StatementRow {
        id,
        bank: bank.to_string(),
        card_last4: last4.map(|s| s.to_string()),
        card_masked: None,
        total_due: 100,
        min_due: None,
        due_date: due.to_string(),
        statement_date: None,
        reminded_at: reminded.map(|s| s.to_string()),
    }
}

// --- calendar ---------------------------------------------------------------

#[test]
fn since_token_crosses_month_and_year_ends() {
    assert_eq!(imap_since((2026, 3, 1), 1), "28-Feb-2026");
    assert_eq!(imap_since((2024, 3, 1), 1), "29-Feb-2024");
    assert_eq!(imap_since((2026, 1, 5), 10), "26-Dec-2025");
    assert_eq!(imap_since((2026, 7, 25), 45), "10-Jun-2026");
    assert_eq!(imap_since((2026, 7, 25), 0), "25-Jul-2026");
    assert_eq!(imap_since((2000, 3, 1), 1), "29-Feb-2000");
    assert_eq!(imap_since((1900, 3, 1), 1), "28-Feb-1900");
    // A negative look-back moves forward.
    assert_eq!(imap_since((2026, 12, 31), -1), "01-Jan-2027");
}

#[test]
fn day_numbers_and_shifts() {
    assert_eq!(days_to_civil_i64(0), (1970, 1, 1));
    assert_eq!(days_to_civil_i64(-1), (1969, 12, 31));
    for t in [(2026, 7, 25), (2024, 2, 29), (1600, 3, 1), (-44, 3, 15)] {
        let (y, m, d) = days_to_civil_i64(civil_to_days(t));
        assert_eq!((y as i32, m, d), t);
    }
    assert_eq!(civil_to_days(days_to_civil_i64_as_i32(-123456)), -123456);
    assert_eq!(shift_back((2026, 1, 1), 1), (2025, 12, 31));
    assert_eq!(shift_back((2026, 3, 1), 1), (2026, 2, 28));
    assert_eq!(shift_back((2026, 3, 1), 0), (2026, 3, 1));
    assert_eq!(shift_back(shift_back((2026, 3, 1), 400), -150), shift_back((2026, 3, 1), 250));
    assert_eq!(shift_back(shift_back((2026, 3, 1), 400), -400), (2026, 3, 1));
}

fn days_to_civil_i64_as_i32(z: i64) -> (i32, u32, u32) {
    let (y, m, d) = days_to_civil_i64(z);
    (y as i32, m, d)
}

#[test]
fn since_window_bounds_are_checked() {
    assert!(shift_back_computable((2026, 7, 25), 45));
    assert!(shift_back_computable((2026, 7, 25), -45));
    assert!(!shift_back_computable((i32::MIN, 1, 1), 0));
    assert!(!shift_back_computable((2026, 7, 25), i64::MIN));
    assert!(shift_back_computable((2026, 7, 25), i64::MAX / 2));
}

#[test]
fn iso_dates_read() {
    assert_eq!(parse_iso("2026-07-25"), Some((2026, 7, 25)));
    assert_eq!(parse_iso("2026-07-25-extra"), Some((2026, 7, 25)));
    assert_eq!(parse_iso("2026-07"), None);
    assert_eq!(parse_iso("x-1-2"), None);
}

#[test]
fn days_left_is_antisymmetric_and_zero_on_the_day() {
    for (a, b) in [("2026-03-01", "2024-02-29"), ("1999-12-31", "2000-01-01"), ("2026-07-25", "2026-07-25")] {
        let x = days_left(a, b).unwrap();
        let y = days_left(b, a).unwrap();
        assert_eq!(x, -y);
    }
    assert_eq!(days_left("2026-03-01", "2026-02-28"), Some(1));
    assert_eq!(days_left("2024-03-01", "2024-02-28"), Some(2));
    assert_eq!(days_left("2026-07-25", "2026-13-01"), None);
    assert_eq!(days_left("2026-07-32", "2026-07-25"), None);
    assert_eq!(days_left("2100-03-01", "2100-02-28"), Some(1));
    assert_eq!(days_left("2000-03-01", "2000-02-28"), Some(2));
    // Days add up along a chain of dates.
    let ab = days_left("2026-05-10", "2025-12-31").unwrap();
    let bc = days_left("2027-01-02", "2026-05-10").unwrap();
    assert_eq!(days_left("2027-01-02", "2025-12-31"), Some(ab + bc));
    // Days past the month's end carry over into the next month.
    assert_eq!(days_left("2026-02-31", "2026-03-03"), Some(0));
}

// --- amounts ----------------------------------------------------------------

#[test]
fn amounts_written_and_read_back() {
    for k in [0i64, 1, -1, 99, 100, 123450, -98765432, 1_000_000_000, i64::MAX, i64::MIN] {
        assert_eq!(parse_amount(&format_amount_tr(k)), k);
    }
    assert_eq!(format_amount_tr(-123450), "-1.234,50");
    assert_eq!(format_amount_tr(5), "0,05");
}

#[test]
fn amount_writings_outside_the_grammar_are_refused() {
    assert_eq!(read_tr_amount("12,5"), Some(1250));
    // Further decimals round to the nearest kuruş, halves away from zero.
    assert_eq!(read_tr_amount("1,234"), Some(123));
    assert_eq!(read_tr_amount("1,235"), Some(124));
    assert_eq!(read_tr_amount("0,999"), Some(100));
    assert_eq!(read_tr_amount("-1,005"), Some(-101));
    assert_eq!(read_us_amount("1.2345"), Some(123));
    assert_eq!(read_us_amount("2,741.0351"), Some(274104));
    assert_eq!(read_tr_amount(""), None);
    assert_eq!(read_tr_amount("abc"), None);
    assert_eq!(read_tr_amount("99999999999999999,00"), None); // past i64 kuruş
    assert_eq!(read_us_amount("1,234.5"), Some(123450));
    assert_eq!(read_us_amount("1.2.3"), None);
}

// --- bank packs -------------------------------------------------------------

#[test]
fn bank_defaults_and_refused_patterns() {
    let b = teb();
    assert_eq!(b.color(), "#666666");
    assert_eq!(b.source(), "body");
    assert_eq!(b.amount_style(), AmountStyle::Turkish);
    let mut r = raw("X", &[("total_due", "(")]);
    r.amount_format = Some("us".to_string());
    match banks_from_raw(vec![r]) {
        Err(BankError::InvalidPattern(msg)) => assert!(!msg.is_empty()),
        other => panic!("expected a refused pattern, got {other:?}"),
    }
    let mut r = raw("Y", &[]);
    r.amount_format = Some("us".to_string());
    r.color = Some("#123456".to_string());
    r.source = Some("pdf".to_string());
    let b = banks_from_raw(vec![r]).unwrap().remove(0);
    assert_eq!(b.amount_style(), AmountStyle::Us);
    assert_eq!(b.color(), "#123456");
    assert_eq!(b.source(), "pdf");
}

// --- statements -------------------------------------------------------------

#[test]
fn statement_read_with_every_field() {
    let text = "Kart No: 1234********5678\nDönem Borcu: 12.345,67 TL\nAsgari: TL.1.234,-\n\
                Asgari: 1.234,-\nSon Ödeme Tarihi: 10.07.2026\nHesap Kesim Tarihi: 30.06.2026";
    let s = parse_statement(&teb(), text).unwrap();
    assert_eq!(s.bank, "TEB");
    assert_eq!(s.card_last4.as_deref(), Some("5678"));
    assert_eq!(s.card_masked.as_deref(), Some("1234 **** **** 5678"));
    assert_eq!(s.total_due, 1234567);
    assert_eq!(s.min_due, Some(123400));
    assert_eq!(s.due_date, "2026-07-10");
    assert_eq!(s.statement_date.as_deref(), Some("2026-06-30"));
}

#[test]
fn statement_without_card_takes_the_fallback_label() {
    let text = "dönem borcu: 3.000,00\nson ödeme tarihi: 5 Eylül 2026";
    let s = parse_statement(&teb(), text).unwrap();
    assert_eq!(s.card_last4, None);
    assert_eq!(s.card_masked.as_deref(), Some("TEB Kart"));
    assert_eq!(s.total_due, 300000);
    assert_eq!(s.min_due, None);
    assert_eq!(s.due_date, "2026-09-05");
    assert_eq!(s.statement_date, None);
}

#[test]
fn missing_required_fields_give_no_statement() {
    assert!(parse_statement(&teb(), "hiçbir şey yok").is_none());
    assert!(parse_statement(&teb(), "Dönem Borcu: 1,00").is_none());
    assert!(parse_statement(&teb(), "Son Ödeme Tarihi: 10.07.2026").is_none());
}

#[test]
fn us_amounts_follow_the_bank() {
    let mut r = raw("Axess", &[("total_due", r"Total:\s*([\d,]+\.\d{2})"), ("due_date", r"Due:\s*(\d+)/(\d+)/(\d+)")]);
    r.amount_format = Some("us".to_string());
    let b = banks_from_raw(vec![r]).unwrap().remove(0);
    let s = parse_statement(&b, "Total: 12,345.67 Due: 5/12/2026").unwrap();
    assert_eq!(s.total_due, 1234567);
    assert_eq!(s.due_date, "2026-12-05");
}

#[test]
fn unreadable_groups_are_a_fault() {
    let b = banks_from_raw(vec![raw("Z", &[("total_due", "Toplam"), ("due_date", r"(\d+)\.(\d+)\.(\d+)")])])
        .unwrap()
        .remove(0);
    assert_eq!(try_parse_statement(&b, "Toplam 1.2.2026").unwrap_err(), StatementFault::UnreadableGroups);
    assert_eq!(try_parse_statement(&b, "nothing").unwrap(), None);
    let ok = try_parse_statement(&teb(), "Dönem Borcu: 1,00 Son Ödeme Tarihi: 1.2.2026").unwrap().unwrap();
    assert_eq!(ok.due_date, "2026-02-01");
}

// --- store rules ------------------------------------------------------------

#[test]
fn past_due_statements_are_stored_as_reminded() {
    assert_eq!(insert_reminded_at("2026-07-20", "2026-07-25", "2026-07-25 09:00:00").as_deref(), Some("2026-07-25 09:00:00"));
    assert_eq!(insert_reminded_at("2026-07-25", "2026-07-25", "now"), None);
    assert_eq!(insert_reminded_at("2026-07-30", "2026-07-25", "now"), None);
}

#[test]
fn backfilled_statements_are_never_reminded() {
    let today = "2026-07-25";
    let past = insert_reminded_at("2026-07-01", today, "2026-07-25 08:00:00");
    let fresh = insert_reminded_at("2026-07-26", today, "2026-07-25 08:00:00");
    let mut a = row(1, "TEB", Some("1"), "2026-07-01", None);
    a.reminded_at = past;
    let mut b = row(2, "TEB", Some("2"), "2026-07-26", None);
    b.reminded_at = fresh;
    let ids: Vec<i64> = due_unreminded(vec![a, b], "2026-07-28").iter().map(|r| r.id).collect();
    assert_eq!(ids, vec![2]);
}

#[test]
fn due_unreminded_filters_and_orders() {
    let rows = vec![
        row(1, "TEB", Some("1"), "2026-07-28", None),
        row(2, "TEB", Some("2"), "2026-07-20", None),
        row(3, "TEB", Some("3"), "2026-07-10", Some("x")),
        row(4, "TEB", Some("4"), "2026-07-25", None),
        row(5, "TEB", Some("5"), "2026-08-01", None),
    ];
    let ids: Vec<i64> = due_unreminded(rows, "2026-07-28").iter().map(|r| r.id).collect();
    assert_eq!(ids, vec![2, 4, 1]);
}

#[test]
fn latest_statement_per_card() {
    let rows = vec![
        row(1, "TEB", Some("5678"), "2026-06-10", None),
        row(2, "TEB", Some("5678"), "2026-07-10", None),
        row(3, "TEB", None, "2026-05-01", None),
        row(4, "TEB", Some(""), "2026-04-01", None),
        row(5, "İş Bankası", Some("5678"), "2026-06-15", None),
    ];
    let ids: Vec<i64> = latest_per_card(rows).iter().map(|r| r.id).collect();
    assert_eq!(ids, vec![3, 5, 2]);
    let sorted: Vec<i64> = sort_by_due(vec![row(1, "A", None, "b", None), row(2, "A", None, "a", None)])
        .iter()
        .map(|r| r.id)
        .collect();
    assert_eq!(sorted, vec![2, 1]);
}

#[test]
fn statement_found_by_natural_key() {
    let rows = vec![row(7, "TEB", None, "2026-07-10", None), row(8, "TEB", Some("5678"), "2026-07-10", None)];
    let s = Statement {
        bank: "TEB".into(),
        card_last4: Some("".into()),
        card_masked: None,
        total_due: 1,
        min_due: None,
        due_date: "2026-07-10".into(),
        statement_date: None,
    };
    assert_eq!(statement_id(&rows, &s), Some(7));
    let t = Statement { card_last4: Some("5678".into()), ..s.clone() };
    assert_eq!(statement_id(&rows, &t), Some(8));
    let u = Statement { due_date: "2026-08-10".into(), ..s };
    assert_eq!(statement_id(&rows, &u), None);
}

// --- settings ---------------------------------------------------------------

fn settings(pairs: &[(&str, &str)]) -> Vec<(String, String)> {
    pairs.iter().map(|(k, v)| (k.to_string(), v.to_string())).collect()
}

#[test]
fn config_defaults_and_overrides() {
    let c = Config::from_settings(&settings(&[]), StoredAccounts::Absent, None);
    assert!(!c.is_configured());
    assert_eq!(c.lookback_days, 45);
    assert_eq!(c.poll_interval_min, 15);
    assert_eq!(c.reminder_hour, 9);
    assert_eq!(c.reminder_days_before, 3);
    assert!(c.selected_banks.is_empty());
    assert!(c.launch_at_login);
    let s = settings(&[
        ("lookback_days", "90"),
        ("poll_interval_min", "x"),
        ("reminder_hour", "-1"),
        ("selected_banks", " TEB , ,İş Bankası,"),
        ("launch_at_login", "false"),
        ("imap_user", "me@example.com"),
        ("imap_port", "143"),
    ]);
    let c = Config::from_settings(&s, StoredAccounts::Absent, Some(vec!["TEB|5678".into()]));
    assert_eq!(c.lookback_days, 90);
    assert_eq!(c.poll_interval_min, 15);
    assert_eq!(c.reminder_hour, 9);
    assert_eq!(c.selected_banks, vec!["TEB".to_string(), "İş Bankası".to_string()]);
    assert!(!c.launch_at_login);
    assert_eq!(c.accounts.len(), 1);
    assert_eq!(c.accounts[0].host, "imap.gmail.com");
    assert_eq!(c.accounts[0].port, 143);
    assert_eq!(c.accounts[0].mailbox, "INBOX");
    assert!(!c.is_card_enabled("TEB", Some("5678")));
    assert!(c.is_card_enabled("TEB", None));
    // A stored account list is the truth, even when empty or unreadable.
    assert!(!Config::from_settings(&s, StoredAccounts::Parsed(vec![]), None).is_configured());
    assert!(!Config::from_settings(&s, StoredAccounts::Unreadable, None).is_configured());
    let acct = ImapAccount { host: "h".into(), port: 993, user: "u".into(), mailbox: "INBOX".into() };
    assert!(Config::from_settings(&s, StoredAccounts::Parsed(vec![acct]), None).is_configured());
}

#[test]
fn card_keys_and_name_lists() {
    assert_eq!(Config::card_key("TEB", Some("5678")), "TEB|5678");
    assert_eq!(Config::card_key("TEB", None), "TEB|");
    assert_eq!(parse_name_list("a,,b , c"), vec!["a".to_string(), "b".to_string(), "c".to_string()]);
    assert!(parse_name_list("").is_empty());
}

#[test]
fn settings_written_by_the_wizard() {
    let sel = vec!["TEB".to_string(), "ENPARA".to_string()];
    let s = setup_settings("imap.gmail.com", 993, "me", "INBOX", &sel);
    assert_eq!(s[1], ("imap_port".to_string(), "993".to_string()));
    assert_eq!(s[4], ("selected_banks".to_string(), "TEB,ENPARA".to_string()));
    let u = update_settings_pairs("h", 1, "u", "m", &sel, -4, false);
    assert_eq!(u[5], ("reminder_days_before".to_string(), "0".to_string()));
    assert_eq!(u[6], ("launch_at_login".to_string(), "false".to_string()));
    let form = ImapForm { host: "h".into(), port: 2, user: "u".into(), password: "p".into(), mailbox: "m".into() };
    let cfg = form.into_config();
    assert_eq!((cfg.host.as_str(), cfg.port, cfg.password.as_str()), ("h", 2, "p"));
}

#[test]
fn wizard_settings_read_back() {
    let sel = vec!["TEB".to_string(), "İş Bankası".to_string()];
    let s = setup_settings("imap.example.com", 143, "me@example.com", "Ekstreler", &sel);
    let c = Config::from_settings(&s, StoredAccounts::Absent, None);
    assert_eq!(c.accounts.len(), 1);
    assert_eq!(c.accounts[0].host, "imap.example.com");
    assert_eq!(c.accounts[0].port, 143);
    assert_eq!(c.accounts[0].user, "me@example.com");
    assert_eq!(c.accounts[0].mailbox, "Ekstreler");
    assert_eq!(c.selected_banks, sel);
    let u = update_settings_pairs("h", 993, "u", "INBOX", &sel, 7, false);
    let c = Config::from_settings(&u, StoredAccounts::Absent, None);
    assert_eq!(c.reminder_days_before, 7);
    assert!(!c.launch_at_login);
    assert_eq!(c.selected_banks, sel);
    let u = update_settings_pairs("h", 993, "u", "INBOX", &vec![], -2, true);
    let c = Config::from_settings(&u, StoredAccounts::Absent, None);
    assert_eq!(c.reminder_days_before, 0);
    assert!(c.launch_at_login);
    assert!(c.selected_banks.is_empty());
}

// --- dashboard --------------------------------------------------------------

#[test]
fn dashboard_values() {
    let mut a = raw("TEB", &[]);
    a.color = Some("#111111".into());
    let mut b = raw("TEB", &[]);
    b.color = Some("#222222".into());
    let c = raw("ENPARA", &[]);
    let banks = banks_from_raw(vec![a, b, c]).unwrap();
    assert_eq!(bank_color(&banks, "TEB"), "#222222");
    assert_eq!(bank_color(&banks, "Yok"), "#666666");
    assert_eq!(bank_infos(&banks).len(), 3);
    assert_eq!(active_banks(&banks, &vec![]).len(), 3);
    let only = active_banks(&banks, &vec!["ENPARA".to_string()]);
    assert_eq!(only.len(), 1);
    assert_eq!(only[0].name(), "ENPARA");

    let mut r = row(3, "TEB", Some("5678"), "2026-07-25", None);
    r.total_due = 1234567;
    r.min_due = Some(5);
    let v = card_view(r, "2026-07-20", &banks);
    assert_eq!(v.total_due_fmt, "12.345,67");
    assert_eq!(v.min_due_fmt.as_deref(), Some("0,05"));
    assert_eq!(v.days_left, Some(5));
    assert_eq!(v.color, "#222222");
}

#[test]
fn file_names() {
    assert_eq!(sanitize_filename("İş Bankası/A-B_c"), "İş_Bankası_A-B_c");
    assert_eq!(download_file_name("Yapı Kredi", "2026-05-07"), "Yapı_Kredi_2026-05-07.pdf");
    assert_eq!(numbered_file_name("TEB_2026-07-10", 2, "pdf"), "TEB_2026-07-10 (2).pdf");
    assert_eq!(pdf_file_name(42), "42.pdf");
}

// --- mail -------------------------------------------------------------------

#[test]
fn search_query_of_a_bank() {
    let b = teb();
    assert_eq!(imap_query("01-Jun-2026", &b), "SINCE 01-Jun-2026 FROM \"teb.com.tr\"");
    let mut r = raw("İş", &[]);
    r.match_from = Some("işbank".into());
    let b = banks_from_raw(vec![r]).unwrap().remove(0);
    assert_eq!(imap_query("01-Jun-2026", &b), "SINCE 01-Jun-2026");
}

#[test]
fn address_headers_flattened() {
    let addrs = vec![(Some("TEB".to_string()), Some("noreply@teb.com.tr".to_string())), (None, Some("x@y".to_string()))];
    assert_eq!(header_text(&addrs), "TEB noreply@teb.com.tr x@y ");
    assert_eq!(header_text(&vec![]), "");
}

const BODY_MAIL: &str = "From: TEB <noreply@teb.com.tr>\r\nTo: me@example.com\r\nSubject: Kredi Karti Ekstreniz\r\n\
Content-Type: text/plain; charset=utf-8\r\n\r\n  Dönem Borcu: 1.000,00 Son Ödeme Tarihi: 01.08.2026  \r\n";

#[test]
fn body_messages_give_their_text() {
    match plan_message(&teb(), BODY_MAIL.as_bytes(), false) {
        MessagePlan::Text(t) => {
            assert!(t.starts_with("Dönem Borcu: 1.000,00"));
            let s = parse_statement(&teb(), &t).unwrap();
            assert_eq!(s.total_due, 100000);
        },
        other => panic!("expected body text, got {other:?}"),
    }
    let other = BODY_MAIL.replace("Ekstreniz", "Kampanya");
    assert!(matches!(plan_message(&teb(), other.as_bytes(), false), MessagePlan::Skip));
}

#[test]
fn pdf_messages_list_their_pdfs() {
    let mail = "From: TEB <noreply@teb.com.tr>\r\nSubject: Ekstre\r\nMIME-Version: 1.0\r\n\
Content-Type: multipart/mixed; boundary=\"b\"\r\n\r\n--b\r\nContent-Type: text/plain\r\n\r\nek\r\n\
--b\r\nContent-Type: application/octet-stream\r\nContent-Disposition: attachment; filename=\"EKSTRE.PDF\"\r\n\r\nPDFDATA\r\n\
--b\r\nContent-Type: image/png\r\nContent-Disposition: attachment; filename=\"logo.png\"\r\n\r\nPNG\r\n--b--\r\n";
    let mut r = raw("TEB", &[]);
    r.source = Some("pdf".into());
    let b = banks_from_raw(vec![r]).unwrap().remove(0);
    match plan_message(&b, mail.as_bytes(), true) {
        MessagePlan::Pdfs(v) => {
            assert_eq!(v.len(), 1);
            assert!(v[0].starts_with(b"PDFDATA"));
        },
        other => panic!("expected PDFs, got {other:?}"),
    }
    assert!(matches!(plan_message(&b, mail.as_bytes(), false), MessagePlan::Skip));
    assert!(matches!(plan_message(&b, b"\xff\xfe", true), MessagePlan::Skip | MessagePlan::Pdfs(_)));
}

// --- polls and reminders ----------------------------------------------------

#[test]
fn poll_outcome() {
    let empty = Config::from_settings(&vec![], StoredAccounts::Absent, None);
    assert_eq!(poll_precheck(&empty).unwrap_err(), not_configured_error());
    let one = Config::from_settings(&vec![("imap_user".to_string(), "me".to_string())], StoredAccounts::Absent, None);
    assert!(poll_precheck(&one).is_ok());
    let mut t = PollTally::new();
    t.missing_password("a@x");
    t.scan_failed("b@x", "timeout");
    assert_eq!(t.finish().unwrap_err(), "IMAP taraması başarısız: a@x: IMAP parolası ayarlı değil · b@x: timeout");
    t.scan_succeeded();
    t.statement_added();
    t.statement_added();
    assert_eq!(t.finish(), Ok(2));
    assert_eq!(not_configured_error(), "E-posta hesabı henüz ayarlanmadı.");
    let c = Config::from_settings(&settings(&[]), StoredAccounts::Absent, None);
    assert_eq!(lookback_days(None, &c), 45);
    assert_eq!(lookback_days(Some(365), &c), 365);
    assert_eq!(usable_password(Some(String::new())), None);
    assert_eq!(usable_password(Some("pw".into())), Some("pw".to_string()));
}

#[test]
fn reminder_gate_and_texts() {
    let c = Config::from_settings(&settings(&[("reminder_hour", "10")]), StoredAccounts::Absent, None);
    assert!(!reminders_allowed(9, &c));
    assert!(reminders_allowed(10, &c));
    assert_eq!(reminder_window_modifier(-2), "+0 days");
    assert_eq!(reminder_window_modifier(3), "+3 days");
    let r = row(1, "TEB", Some("5678"), "2026-07-25", None);
    assert_eq!(reminder_title_lead(&r, 0), "💳 TEB — son ödeme günü");
    assert_eq!(reminder_title_lead(&r, 3), "💳 TEB — son ödemeye 3 gün");
    assert_eq!(reminder_title_lead(&r, -2), "💳 TEB — son ödeme 2 gün geçti");
    let (title, body) = reminder_notification(&r, "2026-07-22");
    assert_eq!(title, "💳 TEB — son ödemeye 3 gün");
    assert_eq!(body, "- · Dönem borcu: 1,00 TL · Son ödeme: 2026-07-25");
}

#[test]
fn sent_reminders_are_marked() {
    let rows = vec![row(4, "TEB", None, "2026-07-20", None), row(5, "TEB", None, "2026-07-21", None), row(6, "TEB", None, "2026-07-22", None)];
    assert_eq!(rows_to_mark(&rows, &vec![true, false, true]), vec![4, 6]);
    assert_eq!(rows_to_mark(&rows, &vec![false]), Vec::<i64>::new());
}

#[test]
fn first_extracted_pdf_decides() {
    let b = teb();
    assert_eq!(first_pdf_statement(&b, &vec![]).unwrap(), None);
    assert_eq!(first_pdf_statement(&b, &vec![None, None]).unwrap(), None);
    let good = "Dönem Borcu: 1.234,56 Son Ödeme Tarihi: 10.07.2026".to_string();
    let (s, i) = first_pdf_statement(&b, &vec![None, Some(good.clone()), Some("x".into())]).unwrap().unwrap();
    assert_eq!((s.total_due, s.due_date.as_str(), i), (123456, "2026-07-10", 1));
    // The first extracted text decides, even when it holds no statement.
    assert_eq!(first_pdf_statement(&b, &vec![Some("boş".into()), Some(good)]).unwrap(), None);
}
