//! Presentation helpers: Turkish amount formatting and reminder text.

use vstd::prelude::*;
use crate::amount::{format_amount_tr, tr_amount_text};
use crate::banks::opt_string_view;
use crate::store::StatementRow;
use crate::text::{int_text, join_strings, join_with, push_int_text, push_str, string_of, views_of};

verus! {

/// The masked card, `-` when unknown.
pub open spec fn card_label(row: StatementRow) -> Seq<char> {
    match opt_string_view(row.card_masked) {
        Some(m) => m,
        None => "-"@,
    }
}

pub open spec fn total_line(row: StatementRow) -> Seq<char> {
    "Dönem borcu: "@ + tr_amount_text(row.total_due as int) + " TL"@
}

pub open spec fn min_line(min: i64) -> Seq<char> {
    "Asgari: "@ + tr_amount_text(min as int) + " TL"@
}

pub open spec fn due_line(row: StatementRow) -> Seq<char> {
    "Son ödeme: "@ + row.due_date@
}

/// The lines of the reminder message: the heading, the card, the period
/// debt, the minimum payment when known, the statement date when known and
/// not empty, and the due date.
pub open spec fn reminder_lines(row: StatementRow) -> Seq<Seq<char>> {
    let head = seq!["💳 "@ + row.bank@ + " kredi kartı — son ödeme günü!"@, "Kart: "@ + card_label(row), total_line(row)];
    let with_min = match row.min_due {
        Some(m) => head.push(min_line(m)),
        None => head,
    };
    let with_sd = match opt_string_view(row.statement_date) {
        Some(sd) => if sd.len() > 0 { with_min.push("Hesap kesim: "@ + sd) } else { with_min },
        None => with_min,
    };
    with_sd.push(due_line(row))
}

/// The parts of the notification body: card, period debt, minimum payment
/// when known, due date.
pub open spec fn body_parts(row: StatementRow) -> Seq<Seq<char>> {
    let head = seq![card_label(row), total_line(row)];
    let with_min = match row.min_due {
        Some(m) => head.push(min_line(m)),
        None => head,
    };
    with_min.push(due_line(row))
}

fn concat2(a: &str, b: &str) -> (s: String)
    ensures
        s@ == a@ + b@,
{
    let mut out: Vec<char> = Vec::new();
    push_str(&mut out, a);
    push_str(&mut out, b);
    assert(out@ =~= a@ + b@);
    string_of(out.as_slice())
}

fn concat3(a: &str, b: &str, c: &str) -> (s: String)
    ensures
        s@ == a@ + b@ + c@,
{
    let mut out: Vec<char> = Vec::new();
    push_str(&mut out, a);
    push_str(&mut out, b);
    push_str(&mut out, c);
    assert(out@ =~= a@ + b@ + c@);
    string_of(out.as_slice())
}

fn concat5(a: &str, b: &str, c: &str, d: &str, e: &str) -> (s: String)
    ensures
        s@ == a@ + b@ + c@ + d@ + e@,
{
    let mut out: Vec<char> = Vec::new();
    push_str(&mut out, a);
    push_str(&mut out, b);
    push_str(&mut out, c);
    push_str(&mut out, d);
    push_str(&mut out, e);
    assert(out@ =~= a@ + b@ + c@ + d@ + e@);
    string_of(out.as_slice())
}

fn card_label_text(row: &StatementRow) -> (s: String)
    ensures
        s@ == card_label(*row),
{
    match &row.card_masked {
        Some(m) => m.clone(),
        None => {
            let v = crate::text::chars_of("-");
            string_of(v.as_slice())
        },
    }
}

fn amount_line(label: &str, kurus: i64) -> (s: String)
    ensures
        s@ == label@ + tr_amount_text(kurus as int) + " TL"@,
{
    let a = format_amount_tr(kurus);
    concat3(label, a.as_str(), " TL")
}

/// The Turkish reminder message for a due statement.
pub fn reminder_text(row: &StatementRow) -> (s: String)
    ensures
        s@ == join_with(reminder_lines(*row), "\n"@),
{
    let card = card_label_text(row);
    let mut lines: Vec<String> = Vec::new();
    lines.push(concat3("💳 ", row.bank.as_str(), " kredi kartı — son ödeme günü!"));
    lines.push(concat2("Kart: ", card.as_str()));
    lines.push(amount_line("Dönem borcu: ", row.total_due));
    if let Some(min) = row.min_due {
        lines.push(amount_line("Asgari: ", min));
    }
    if let Some(sd) = &row.statement_date {
        if crate::text::chars_of(sd.as_str()).len() > 0 {
            lines.push(concat2("Hesap kesim: ", sd.as_str()));
        }
    }
    lines.push(concat2("Son ödeme: ", row.due_date.as_str()));
    assert(views_of(lines@) =~= reminder_lines(*row));
    join_strings(&lines, "\n")
}

/// `"💳 {bank} — son ödeme günü"`.
pub open spec fn title_text(row: StatementRow) -> Seq<char> {
    "💳 "@ + row.bank@ + " — son ödeme günü"@
}

/// Native-notification title for a due statement (short, single line).
pub fn reminder_title(row: &StatementRow) -> (s: String)
    ensures
        s@ == title_text(*row),
{
    concat3("💳 ", row.bank.as_str(), " — son ödeme günü")
}

/// The notification title `days_left` days before the due date: the due-day
/// title on the day (or when unknown, 0), the days to go before it, the days
/// past after it.
pub open spec fn lead_title_text(row: StatementRow, days_left: i64) -> Seq<char> {
    if days_left > 0 {
        "💳 "@ + row.bank@ + " — son ödemeye "@ + int_text(days_left as int) + " gün"@
    } else if days_left == 0 {
        title_text(row)
    } else {
        "💳 "@ + row.bank@ + " — son ödeme "@ + int_text(-(days_left as int)) + " gün geçti"@
    }
}

/// Native-notification title that names how far the due date is.
pub fn reminder_title_lead(row: &StatementRow, days_left: i64) -> (s: String)
    ensures
        s@ == lead_title_text(*row, days_left),
{
    if days_left == 0 {
        return reminder_title(row);
    }
    let mut n: Vec<char> = Vec::new();
    if days_left > 0 {
        push_int_text(&mut n, days_left);
        let t = string_of(n.as_slice());
        concat5("💳 ", row.bank.as_str(), " — son ödemeye ", t.as_str(), " gün")
    } else {
        let past: i128 = 0i128 - days_left as i128;
        let mut digits: Vec<char> = Vec::new();
        crate::text::push_nat_text(&mut digits, past as u64);
        assert(int_text(-(days_left as int)) == crate::text::nat_text(past as nat));
        let t = string_of(digits.as_slice());
        concat5("💳 ", row.bank.as_str(), " — son ödeme ", t.as_str(), " gün geçti")
    }
}

/// Native-notification body: card, period debt, minimum payment when known,
/// due date, separated by ` · `.
pub fn reminder_body(row: &StatementRow) -> (s: String)
    ensures
        s@ == join_with(body_parts(*row), " · "@),
{
    let mut parts: Vec<String> = Vec::new();
    parts.push(card_label_text(row));
    parts.push(amount_line("Dönem borcu: ", row.total_due));
    if let Some(min) = row.min_due {
        parts.push(amount_line("Asgari: ", min));
    }
    parts.push(concat2("Son ödeme: ", row.due_date.as_str()));
    assert(views_of(parts@) =~= body_parts(*row));
    join_strings(&parts, " · ")
}

/// The notification body depends on the card, the period debt, the minimum
/// payment and the due date alone (not on the bank or the statement date):
/// two rows that agree on those give the same body. It names the minimum
/// payment exactly when there is one, as its third part, between the debt
/// and the due date.
pub proof fn lemma_body_fields(r1: StatementRow, r2: StatementRow)
    ensures
        opt_string_view(r1.card_masked) == opt_string_view(r2.card_masked) && r1.total_due == r2.total_due
            && r1.min_due == r2.min_due && r1.due_date@ == r2.due_date@
            ==> join_with(body_parts(r1), " · "@) == join_with(body_parts(r2), " · "@),
        r1.min_due matches Some(m) ==> body_parts(r1).len() == 4
            && body_parts(r1)[2] == "Asgari: "@ + tr_amount_text(m as int) + " TL"@
            && body_parts(r1)[3] == "Son ödeme: "@ + r1.due_date@,
        r1.min_due is None ==> body_parts(r1).len() == 3
            && body_parts(r1)[2] == "Son ödeme: "@ + r1.due_date@,
        body_parts(r1)[1] == "Dönem borcu: "@ + tr_amount_text(r1.total_due as int) + " TL"@,
{
}

/// The reminder message names the minimum payment exactly when there is
/// one, whatever the statement date holds: then it is the fourth line,
/// after the heading, the card and the period debt; without one, no line
/// is an `Asgari: ` line.
pub proof fn lemma_reminder_min_line(row: StatementRow)
    ensures
        row.min_due matches Some(m) ==> reminder_lines(row)[3] == "Asgari: "@ + tr_amount_text(m as int) + " TL"@,
        row.min_due is None ==> forall|i: int| 0 <= i < reminder_lines(row).len()
            ==> (#[trigger] reminder_lines(row)[i]).len() > 0 && reminder_lines(row)[i][0] != 'A',
{
    reveal_strlit("💳 ");
    reveal_strlit("Kart: ");
    reveal_strlit("Dönem borcu: ");
    reveal_strlit("Asgari: ");
    reveal_strlit("Hesap kesim: ");
    reveal_strlit("Son ödeme: ");
    let l = reminder_lines(row);
    if row.min_due is None {
        assert forall|i: int| 0 <= i < l.len() implies (#[trigger] l[i]).len() > 0 && l[i][0] != 'A' by {
            if i == 0 {
                assert(l[0][0] == "💳 "@[0]);
            } else if i == 1 {
                assert(l[1][0] == 'K');
            } else if i == 2 {
                assert(l[2][0] == 'D');
            } else if i == l.len() - 1 {
                assert(l[i][0] == 'S');
            } else {
                assert(l[i][0] == 'H');
            }
        }
    }
}

} // verus!
