//! Reading a statement out of a mail or PDF text with a bank's field
//! patterns.
//!
//! A statement is valid **iff both `total_due` and `due_date` match**;
//! otherwise there is none. All other fields are optional. Group contract per
//! field: `card` -> (first4, last4); `total_due`/`min_due` -> 1 amount group;
//! `due_date`/`statement_date` -> 3 date groups (day, month, year).

use vstd::prelude::*;
use crate::amount::{read_tr_amount, read_us_amount, tr_amount, us_amount};
use crate::banks::{AmountStyle, Bank, BankView, caps_view, field_groups, opt_string_view};
use crate::pattern::groups_view;
use crate::text::{
    chars_of, int_text_padded, is_digit, parse_i32, parse_i32_spec, parse_u32, parse_u32_spec,
    push_int_padded, push_str, same_chars, string_of,
};

verus! {

/// A credit-card statement. Amounts are in kuruş.
#[derive(Debug, Clone, PartialEq)]
pub struct Statement {
    pub bank: String,
    pub card_last4: Option<String>,
    pub card_masked: Option<String>,
    pub total_due: i64,
    pub min_due: Option<i64>,
    /// ISO `YYYY-MM-DD`.
    pub due_date: String,
    /// ISO `YYYY-MM-DD`; the "hesap kesim tarihi". Not all banks send it.
    pub statement_date: Option<String>,
}

/// What a statement holds.
pub struct StatementView {
    pub bank: Seq<char>,
    pub card_last4: Option<Seq<char>>,
    pub card_masked: Option<Seq<char>>,
    pub total_due: int,
    pub min_due: Option<int>,
    pub due_date: Seq<char>,
    pub statement_date: Option<Seq<char>>,
}

impl View for Statement {
    type V = StatementView;

    open spec fn view(&self) -> StatementView {
        StatementView {
            bank: self.bank@,
            card_last4: opt_string_view(self.card_last4),
            card_masked: opt_string_view(self.card_masked),
            total_due: self.total_due as int,
            min_due: match self.min_due { Some(v) => Some(v as int), None => None },
            due_date: self.due_date@,
            statement_date: opt_string_view(self.statement_date),
        }
    }
}

// ---------------------------------------------------------------------------
// Dates
// ---------------------------------------------------------------------------

/// The number of a Turkish month name, written capitalized, in lower case or
/// in upper case (`Mayıs`, `mayıs`, `MAYIS` are 5).
pub open spec fn turkish_month(s: Seq<char>) -> Option<int> {
    if s == "Ocak"@ || s == "ocak"@ || s == "OCAK"@ { Some(1) }
    else if s == "Şubat"@ || s == "şubat"@ || s == "ŞUBAT"@ { Some(2) }
    else if s == "Mart"@ || s == "mart"@ || s == "MART"@ { Some(3) }
    else if s == "Nisan"@ || s == "nisan"@ || s == "NİSAN"@ { Some(4) }
    else if s == "Mayıs"@ || s == "mayıs"@ || s == "MAYIS"@ { Some(5) }
    else if s == "Haziran"@ || s == "haziran"@ || s == "HAZİRAN"@ { Some(6) }
    else if s == "Temmuz"@ || s == "temmuz"@ || s == "TEMMUZ"@ { Some(7) }
    else if s == "Ağustos"@ || s == "ağustos"@ || s == "AĞUSTOS"@ { Some(8) }
    else if s == "Eylül"@ || s == "eylül"@ || s == "EYLÜL"@ { Some(9) }
    else if s == "Ekim"@ || s == "ekim"@ || s == "EKİM"@ { Some(10) }
    else if s == "Kasım"@ || s == "kasım"@ || s == "KASIM"@ { Some(11) }
    else if s == "Aralık"@ || s == "aralık"@ || s == "ARALIK"@ { Some(12) }
    else { None }
}

/// The Turkish month names in calendar order, January (`Ocak`) first, as
/// capitalized, lower-case and upper-case words.
pub open spec fn turkish_month_names() -> Seq<Seq<char>> {
    seq!["Ocak"@, "Şubat"@, "Mart"@, "Nisan"@, "Mayıs"@, "Haziran"@, "Temmuz"@, "Ağustos"@, "Eylül"@, "Ekim"@, "Kasım"@, "Aralık"@]
}

pub open spec fn turkish_month_names_lower() -> Seq<Seq<char>> {
    seq!["ocak"@, "şubat"@, "mart"@, "nisan"@, "mayıs"@, "haziran"@, "temmuz"@, "ağustos"@, "eylül"@, "ekim"@, "kasım"@, "aralık"@]
}

pub open spec fn turkish_month_names_upper() -> Seq<Seq<char>> {
    seq!["OCAK"@, "ŞUBAT"@, "MART"@, "NİSAN"@, "MAYIS"@, "HAZİRAN"@, "TEMMUZ"@, "AĞUSTOS"@, "EYLÜL"@, "EKİM"@, "KASIM"@, "ARALIK"@]
}

/// Each Turkish month name reads as its month's calendar number, in any of
/// its three casings: the `i`-th name of the calendar is month `i`.
pub proof fn lemma_turkish_month_calendar_order(i: int)
    requires
        1 <= i <= 12,
    ensures
        turkish_month(turkish_month_names()[i - 1]) == Some(i),
        turkish_month(turkish_month_names_lower()[i - 1]) == Some(i),
        turkish_month(turkish_month_names_upper()[i - 1]) == Some(i),
        month_value(turkish_month_names()[i - 1]) == Some(i),
        month_value(turkish_month_names_lower()[i - 1]) == Some(i),
        month_value(turkish_month_names_upper()[i - 1]) == Some(i),
{
    if i == 1 {
        lemma_month_name_1();
    } else if i == 2 {
        lemma_month_name_2();
    } else if i == 3 {
        lemma_month_name_3();
    } else if i == 4 {
        lemma_month_name_4();
    } else if i == 5 {
        lemma_month_name_5();
    } else if i == 6 {
        lemma_month_name_6();
    } else if i == 7 {
        lemma_month_name_7();
    } else if i == 8 {
        lemma_month_name_8();
    } else if i == 9 {
        lemma_month_name_9();
    } else if i == 10 {
        lemma_month_name_10();
    } else if i == 11 {
        lemma_month_name_11();
    } else if i == 12 {
        lemma_month_name_12();
    }
}

/// A Turkish month name in a date's month group gives that month in the ISO
/// date: `5 Ekim 2026` is `2026-10-05`.
pub proof fn lemma_month_name_date(day: Seq<char>, i: int, year: Seq<char>)
    requires
        1 <= i <= 12,
        parse_u32_spec(day) is Some,
        parse_i32_spec(year) is Some,
    ensures
        date_text(day, turkish_month_names()[i - 1], year)
            == iso_text(parse_i32_spec(year).unwrap(), i, parse_u32_spec(day).unwrap()),
        date_text(day, turkish_month_names_lower()[i - 1], year)
            == iso_text(parse_i32_spec(year).unwrap(), i, parse_u32_spec(day).unwrap()),
        date_text(day, turkish_month_names_upper()[i - 1], year)
            == iso_text(parse_i32_spec(year).unwrap(), i, parse_u32_spec(day).unwrap()),
{
    lemma_turkish_month_calendar_order(i);
}

proof fn lemma_month_name_1()
    ensures
        turkish_month("Ocak"@) == Some(1int),
        turkish_month("ocak"@) == Some(1int),
        turkish_month("OCAK"@) == Some(1int),
        month_value("Ocak"@) == Some(1int),
        month_value("ocak"@) == Some(1int),
        month_value("OCAK"@) == Some(1int),
{
    reveal_strlit("Ocak"); reveal_strlit("ocak"); reveal_strlit("OCAK");
    assert("Ocak"@.len() > 0 && !is_digit("Ocak"@[0]) && "Ocak"@[0] != '+' && "Ocak"@[0] != '-');
    assert("ocak"@.len() > 0 && !is_digit("ocak"@[0]) && "ocak"@[0] != '+' && "ocak"@[0] != '-');
    assert("OCAK"@.len() > 0 && !is_digit("OCAK"@[0]) && "OCAK"@[0] != '+' && "OCAK"@[0] != '-');
}

proof fn lemma_month_name_2()
    ensures
        turkish_month("Şubat"@) == Some(2int),
        turkish_month("şubat"@) == Some(2int),
        turkish_month("ŞUBAT"@) == Some(2int),
        month_value("Şubat"@) == Some(2int),
        month_value("şubat"@) == Some(2int),
        month_value("ŞUBAT"@) == Some(2int),
{
    reveal_strlit("Şubat"); reveal_strlit("şubat"); reveal_strlit("ŞUBAT"); reveal_strlit("Ocak");
    reveal_strlit("ocak"); reveal_strlit("OCAK");
    assert("Şubat"@.len() != "Ocak"@.len() && "Şubat"@.len() != "ocak"@.len()
        && "Şubat"@.len() != "OCAK"@.len());
    assert("şubat"@.len() != "Ocak"@.len() && "şubat"@.len() != "ocak"@.len()
        && "şubat"@.len() != "OCAK"@.len());
    assert("ŞUBAT"@.len() != "Ocak"@.len() && "ŞUBAT"@.len() != "ocak"@.len()
        && "ŞUBAT"@.len() != "OCAK"@.len());
    assert("Şubat"@.len() > 0 && !is_digit("Şubat"@[0]) && "Şubat"@[0] != '+' && "Şubat"@[0] != '-');
    assert("şubat"@.len() > 0 && !is_digit("şubat"@[0]) && "şubat"@[0] != '+' && "şubat"@[0] != '-');
    assert("ŞUBAT"@.len() > 0 && !is_digit("ŞUBAT"@[0]) && "ŞUBAT"@[0] != '+' && "ŞUBAT"@[0] != '-');
}

proof fn lemma_month_name_3()
    ensures
        turkish_month("Mart"@) == Some(3int),
        turkish_month("mart"@) == Some(3int),
        turkish_month("MART"@) == Some(3int),
        month_value("Mart"@) == Some(3int),
        month_value("mart"@) == Some(3int),
        month_value("MART"@) == Some(3int),
{
    reveal_strlit("Mart"); reveal_strlit("mart"); reveal_strlit("MART"); reveal_strlit("Ocak");
    reveal_strlit("ocak"); reveal_strlit("OCAK"); reveal_strlit("Şubat"); reveal_strlit("şubat");
    reveal_strlit("ŞUBAT");
    assert("Mart"@[0] != "Ocak"@[0] && "Mart"@[0] != "ocak"@[0] && "Mart"@[0] != "OCAK"@[0]
        && "Mart"@.len() != "Şubat"@.len() && "Mart"@.len() != "şubat"@.len()
        && "Mart"@.len() != "ŞUBAT"@.len());
    assert("mart"@[0] != "Ocak"@[0] && "mart"@[0] != "ocak"@[0] && "mart"@[0] != "OCAK"@[0]
        && "mart"@.len() != "Şubat"@.len() && "mart"@.len() != "şubat"@.len()
        && "mart"@.len() != "ŞUBAT"@.len());
    assert("MART"@[0] != "Ocak"@[0] && "MART"@[0] != "ocak"@[0] && "MART"@[0] != "OCAK"@[0]
        && "MART"@.len() != "Şubat"@.len() && "MART"@.len() != "şubat"@.len()
        && "MART"@.len() != "ŞUBAT"@.len());
    assert("Mart"@.len() > 0 && !is_digit("Mart"@[0]) && "Mart"@[0] != '+' && "Mart"@[0] != '-');
    assert("mart"@.len() > 0 && !is_digit("mart"@[0]) && "mart"@[0] != '+' && "mart"@[0] != '-');
    assert("MART"@.len() > 0 && !is_digit("MART"@[0]) && "MART"@[0] != '+' && "MART"@[0] != '-');
}

proof fn lemma_month_name_4()
    ensures
        turkish_month("Nisan"@) == Some(4int),
        turkish_month("nisan"@) == Some(4int),
        turkish_month("NİSAN"@) == Some(4int),
        month_value("Nisan"@) == Some(4int),
        month_value("nisan"@) == Some(4int),
        month_value("NİSAN"@) == Some(4int),
{
    reveal_strlit("Nisan"); reveal_strlit("nisan"); reveal_strlit("NİSAN"); reveal_strlit("Ocak");
    reveal_strlit("ocak"); reveal_strlit("OCAK"); reveal_strlit("Şubat"); reveal_strlit("şubat");
    reveal_strlit("ŞUBAT"); reveal_strlit("Mart"); reveal_strlit("mart"); reveal_strlit("MART");
    assert("Nisan"@.len() != "Ocak"@.len() && "Nisan"@.len() != "ocak"@.len()
        && "Nisan"@.len() != "OCAK"@.len() && "Nisan"@[0] != "Şubat"@[0] && "Nisan"@[0] != "şubat"@[0]
        && "Nisan"@[0] != "ŞUBAT"@[0] && "Nisan"@.len() != "Mart"@.len() && "Nisan"@.len() != "mart"@.len()
        && "Nisan"@.len() != "MART"@.len());
    assert("nisan"@.len() != "Ocak"@.len() && "nisan"@.len() != "ocak"@.len()
        && "nisan"@.len() != "OCAK"@.len() && "nisan"@[0] != "Şubat"@[0] && "nisan"@[0] != "şubat"@[0]
        && "nisan"@[0] != "ŞUBAT"@[0] && "nisan"@.len() != "Mart"@.len() && "nisan"@.len() != "mart"@.len()
        && "nisan"@.len() != "MART"@.len());
    assert("NİSAN"@.len() != "Ocak"@.len() && "NİSAN"@.len() != "ocak"@.len()
        && "NİSAN"@.len() != "OCAK"@.len() && "NİSAN"@[0] != "Şubat"@[0] && "NİSAN"@[0] != "şubat"@[0]
        && "NİSAN"@[0] != "ŞUBAT"@[0] && "NİSAN"@.len() != "Mart"@.len() && "NİSAN"@.len() != "mart"@.len()
        && "NİSAN"@.len() != "MART"@.len());
    assert("Nisan"@.len() > 0 && !is_digit("Nisan"@[0]) && "Nisan"@[0] != '+' && "Nisan"@[0] != '-');
    assert("nisan"@.len() > 0 && !is_digit("nisan"@[0]) && "nisan"@[0] != '+' && "nisan"@[0] != '-');
    assert("NİSAN"@.len() > 0 && !is_digit("NİSAN"@[0]) && "NİSAN"@[0] != '+' && "NİSAN"@[0] != '-');
}

proof fn lemma_month_name_5()
    ensures
        turkish_month("Mayıs"@) == Some(5int),
        turkish_month("mayıs"@) == Some(5int),
        turkish_month("MAYIS"@) == Some(5int),
        month_value("Mayıs"@) == Some(5int),
        month_value("mayıs"@) == Some(5int),
        month_value("MAYIS"@) == Some(5int),
{
    reveal_strlit("Mayıs"); reveal_strlit("mayıs"); reveal_strlit("MAYIS"); reveal_strlit("Ocak");
    reveal_strlit("ocak"); reveal_strlit("OCAK"); reveal_strlit("Şubat"); reveal_strlit("şubat");
    reveal_strlit("ŞUBAT"); reveal_strlit("Mart"); reveal_strlit("mart"); reveal_strlit("MART");
    reveal_strlit("Nisan"); reveal_strlit("nisan"); reveal_strlit("NİSAN");
    assert("Mayıs"@.len() != "Ocak"@.len() && "Mayıs"@.len() != "ocak"@.len()
        && "Mayıs"@.len() != "OCAK"@.len() && "Mayıs"@[0] != "Şubat"@[0] && "Mayıs"@[0] != "şubat"@[0]
        && "Mayıs"@[0] != "ŞUBAT"@[0] && "Mayıs"@.len() != "Mart"@.len() && "Mayıs"@.len() != "mart"@.len()
        && "Mayıs"@.len() != "MART"@.len() && "Mayıs"@[0] != "Nisan"@[0] && "Mayıs"@[0] != "nisan"@[0]
        && "Mayıs"@[0] != "NİSAN"@[0]);
    assert("mayıs"@.len() != "Ocak"@.len() && "mayıs"@.len() != "ocak"@.len()
        && "mayıs"@.len() != "OCAK"@.len() && "mayıs"@[0] != "Şubat"@[0] && "mayıs"@[0] != "şubat"@[0]
        && "mayıs"@[0] != "ŞUBAT"@[0] && "mayıs"@.len() != "Mart"@.len() && "mayıs"@.len() != "mart"@.len()
        && "mayıs"@.len() != "MART"@.len() && "mayıs"@[0] != "Nisan"@[0] && "mayıs"@[0] != "nisan"@[0]
        && "mayıs"@[0] != "NİSAN"@[0]);
    assert("MAYIS"@.len() != "Ocak"@.len() && "MAYIS"@.len() != "ocak"@.len()
        && "MAYIS"@.len() != "OCAK"@.len() && "MAYIS"@[0] != "Şubat"@[0] && "MAYIS"@[0] != "şubat"@[0]
        && "MAYIS"@[0] != "ŞUBAT"@[0] && "MAYIS"@.len() != "Mart"@.len() && "MAYIS"@.len() != "mart"@.len()
        && "MAYIS"@.len() != "MART"@.len() && "MAYIS"@[0] != "Nisan"@[0] && "MAYIS"@[0] != "nisan"@[0]
        && "MAYIS"@[0] != "NİSAN"@[0]);
    assert("Mayıs"@.len() > 0 && !is_digit("Mayıs"@[0]) && "Mayıs"@[0] != '+' && "Mayıs"@[0] != '-');
    assert("mayıs"@.len() > 0 && !is_digit("mayıs"@[0]) && "mayıs"@[0] != '+' && "mayıs"@[0] != '-');
    assert("MAYIS"@.len() > 0 && !is_digit("MAYIS"@[0]) && "MAYIS"@[0] != '+' && "MAYIS"@[0] != '-');
}

proof fn lemma_month_name_6()
    ensures
        turkish_month("Haziran"@) == Some(6int),
        turkish_month("haziran"@) == Some(6int),
        turkish_month("HAZİRAN"@) == Some(6int),
        month_value("Haziran"@) == Some(6int),
        month_value("haziran"@) == Some(6int),
        month_value("HAZİRAN"@) == Some(6int),
{
    reveal_strlit("Haziran"); reveal_strlit("haziran"); reveal_strlit("HAZİRAN"); reveal_strlit("Ocak");
    reveal_strlit("ocak"); reveal_strlit("OCAK"); reveal_strlit("Şubat"); reveal_strlit("şubat");
    reveal_strlit("ŞUBAT"); reveal_strlit("Mart"); reveal_strlit("mart"); reveal_strlit("MART");
    reveal_strlit("Nisan"); reveal_strlit("nisan"); reveal_strlit("NİSAN"); reveal_strlit("Mayıs");
    reveal_strlit("mayıs"); reveal_strlit("MAYIS");
    assert("Haziran"@.len() != "Ocak"@.len() && "Haziran"@.len() != "ocak"@.len()
        && "Haziran"@.len() != "OCAK"@.len() && "Haziran"@.len() != "Şubat"@.len()
        && "Haziran"@.len() != "şubat"@.len() && "Haziran"@.len() != "ŞUBAT"@.len()
        && "Haziran"@.len() != "Mart"@.len() && "Haziran"@.len() != "mart"@.len()
        && "Haziran"@.len() != "MART"@.len() && "Haziran"@.len() != "Nisan"@.len()
        && "Haziran"@.len() != "nisan"@.len() && "Haziran"@.len() != "NİSAN"@.len()
        && "Haziran"@.len() != "Mayıs"@.len() && "Haziran"@.len() != "mayıs"@.len()
        && "Haziran"@.len() != "MAYIS"@.len());
    assert("haziran"@.len() != "Ocak"@.len() && "haziran"@.len() != "ocak"@.len()
        && "haziran"@.len() != "OCAK"@.len() && "haziran"@.len() != "Şubat"@.len()
        && "haziran"@.len() != "şubat"@.len() && "haziran"@.len() != "ŞUBAT"@.len()
        && "haziran"@.len() != "Mart"@.len() && "haziran"@.len() != "mart"@.len()
        && "haziran"@.len() != "MART"@.len() && "haziran"@.len() != "Nisan"@.len()
        && "haziran"@.len() != "nisan"@.len() && "haziran"@.len() != "NİSAN"@.len()
        && "haziran"@.len() != "Mayıs"@.len() && "haziran"@.len() != "mayıs"@.len()
        && "haziran"@.len() != "MAYIS"@.len());
    assert("HAZİRAN"@.len() != "Ocak"@.len() && "HAZİRAN"@.len() != "ocak"@.len()
        && "HAZİRAN"@.len() != "OCAK"@.len() && "HAZİRAN"@.len() != "Şubat"@.len()
        && "HAZİRAN"@.len() != "şubat"@.len() && "HAZİRAN"@.len() != "ŞUBAT"@.len()
        && "HAZİRAN"@.len() != "Mart"@.len() && "HAZİRAN"@.len() != "mart"@.len()
        && "HAZİRAN"@.len() != "MART"@.len() && "HAZİRAN"@.len() != "Nisan"@.len()
        && "HAZİRAN"@.len() != "nisan"@.len() && "HAZİRAN"@.len() != "NİSAN"@.len()
        && "HAZİRAN"@.len() != "Mayıs"@.len() && "HAZİRAN"@.len() != "mayıs"@.len()
        && "HAZİRAN"@.len() != "MAYIS"@.len());
    assert("Haziran"@.len() > 0 && !is_digit("Haziran"@[0]) && "Haziran"@[0] != '+' && "Haziran"@[0] != '-');
    assert("haziran"@.len() > 0 && !is_digit("haziran"@[0]) && "haziran"@[0] != '+' && "haziran"@[0] != '-');
    assert("HAZİRAN"@.len() > 0 && !is_digit("HAZİRAN"@[0]) && "HAZİRAN"@[0] != '+' && "HAZİRAN"@[0] != '-');
}

proof fn lemma_month_name_7()
    ensures
        turkish_month("Temmuz"@) == Some(7int),
        turkish_month("temmuz"@) == Some(7int),
        turkish_month("TEMMUZ"@) == Some(7int),
        month_value("Temmuz"@) == Some(7int),
        month_value("temmuz"@) == Some(7int),
        month_value("TEMMUZ"@) == Some(7int),
{
    reveal_strlit("Temmuz"); reveal_strlit("temmuz"); reveal_strlit("TEMMUZ"); reveal_strlit("Ocak");
    reveal_strlit("ocak"); reveal_strlit("OCAK"); reveal_strlit("Şubat"); reveal_strlit("şubat");
    reveal_strlit("ŞUBAT"); reveal_strlit("Mart"); reveal_strlit("mart"); reveal_strlit("MART");
    reveal_strlit("Nisan"); reveal_strlit("nisan"); reveal_strlit("NİSAN"); reveal_strlit("Mayıs");
    reveal_strlit("mayıs"); reveal_strlit("MAYIS"); reveal_strlit("Haziran"); reveal_strlit("haziran");
    reveal_strlit("HAZİRAN");
    assert("Temmuz"@.len() != "Ocak"@.len() && "Temmuz"@.len() != "ocak"@.len()
        && "Temmuz"@.len() != "OCAK"@.len() && "Temmuz"@.len() != "Şubat"@.len()
        && "Temmuz"@.len() != "şubat"@.len() && "Temmuz"@.len() != "ŞUBAT"@.len()
        && "Temmuz"@.len() != "Mart"@.len() && "Temmuz"@.len() != "mart"@.len()
        && "Temmuz"@.len() != "MART"@.len() && "Temmuz"@.len() != "Nisan"@.len()
        && "Temmuz"@.len() != "nisan"@.len() && "Temmuz"@.len() != "NİSAN"@.len()
        && "Temmuz"@.len() != "Mayıs"@.len() && "Temmuz"@.len() != "mayıs"@.len()
        && "Temmuz"@.len() != "MAYIS"@.len() && "Temmuz"@.len() != "Haziran"@.len()
        && "Temmuz"@.len() != "haziran"@.len() && "Temmuz"@.len() != "HAZİRAN"@.len());
    assert("temmuz"@.len() != "Ocak"@.len() && "temmuz"@.len() != "ocak"@.len()
        && "temmuz"@.len() != "OCAK"@.len() && "temmuz"@.len() != "Şubat"@.len()
        && "temmuz"@.len() != "şubat"@.len() && "temmuz"@.len() != "ŞUBAT"@.len()
        && "temmuz"@.len() != "Mart"@.len() && "temmuz"@.len() != "mart"@.len()
        && "temmuz"@.len() != "MART"@.len() && "temmuz"@.len() != "Nisan"@.len()
        && "temmuz"@.len() != "nisan"@.len() && "temmuz"@.len() != "NİSAN"@.len()
        && "temmuz"@.len() != "Mayıs"@.len() && "temmuz"@.len() != "mayıs"@.len()
        && "temmuz"@.len() != "MAYIS"@.len() && "temmuz"@.len() != "Haziran"@.len()
        && "temmuz"@.len() != "haziran"@.len() && "temmuz"@.len() != "HAZİRAN"@.len());
    assert("TEMMUZ"@.len() != "Ocak"@.len() && "TEMMUZ"@.len() != "ocak"@.len()
        && "TEMMUZ"@.len() != "OCAK"@.len() && "TEMMUZ"@.len() != "Şubat"@.len()
        && "TEMMUZ"@.len() != "şubat"@.len() && "TEMMUZ"@.len() != "ŞUBAT"@.len()
        && "TEMMUZ"@.len() != "Mart"@.len() && "TEMMUZ"@.len() != "mart"@.len()
        && "TEMMUZ"@.len() != "MART"@.len() && "TEMMUZ"@.len() != "Nisan"@.len()
        && "TEMMUZ"@.len() != "nisan"@.len() && "TEMMUZ"@.len() != "NİSAN"@.len()
        && "TEMMUZ"@.len() != "Mayıs"@.len() && "TEMMUZ"@.len() != "mayıs"@.len()
        && "TEMMUZ"@.len() != "MAYIS"@.len() && "TEMMUZ"@.len() != "Haziran"@.len()
        && "TEMMUZ"@.len() != "haziran"@.len() && "TEMMUZ"@.len() != "HAZİRAN"@.len());
    assert("Temmuz"@.len() > 0 && !is_digit("Temmuz"@[0]) && "Temmuz"@[0] != '+' && "Temmuz"@[0] != '-');
    assert("temmuz"@.len() > 0 && !is_digit("temmuz"@[0]) && "temmuz"@[0] != '+' && "temmuz"@[0] != '-');
    assert("TEMMUZ"@.len() > 0 && !is_digit("TEMMUZ"@[0]) && "TEMMUZ"@[0] != '+' && "TEMMUZ"@[0] != '-');
}

proof fn lemma_month_name_8()
    ensures
        turkish_month("Ağustos"@) == Some(8int),
        turkish_month("ağustos"@) == Some(8int),
        turkish_month("AĞUSTOS"@) == Some(8int),
        month_value("Ağustos"@) == Some(8int),
        month_value("ağustos"@) == Some(8int),
        month_value("AĞUSTOS"@) == Some(8int),
{
    reveal_strlit("Ağustos"); reveal_strlit("ağustos"); reveal_strlit("AĞUSTOS"); reveal_strlit("Ocak");
    reveal_strlit("ocak"); reveal_strlit("OCAK"); reveal_strlit("Şubat"); reveal_strlit("şubat");
    reveal_strlit("ŞUBAT"); reveal_strlit("Mart"); reveal_strlit("mart"); reveal_strlit("MART");
    reveal_strlit("Nisan"); reveal_strlit("nisan"); reveal_strlit("NİSAN"); reveal_strlit("Mayıs");
    reveal_strlit("mayıs"); reveal_strlit("MAYIS"); reveal_strlit("Haziran"); reveal_strlit("haziran");
    reveal_strlit("HAZİRAN"); reveal_strlit("Temmuz"); reveal_strlit("temmuz"); reveal_strlit("TEMMUZ");
    assert("Ağustos"@.len() != "Ocak"@.len() && "Ağustos"@.len() != "ocak"@.len()
        && "Ağustos"@.len() != "OCAK"@.len() && "Ağustos"@.len() != "Şubat"@.len()
        && "Ağustos"@.len() != "şubat"@.len() && "Ağustos"@.len() != "ŞUBAT"@.len()
        && "Ağustos"@.len() != "Mart"@.len() && "Ağustos"@.len() != "mart"@.len()
        && "Ağustos"@.len() != "MART"@.len() && "Ağustos"@.len() != "Nisan"@.len()
        && "Ağustos"@.len() != "nisan"@.len() && "Ağustos"@.len() != "NİSAN"@.len()
        && "Ağustos"@.len() != "Mayıs"@.len() && "Ağustos"@.len() != "mayıs"@.len()
        && "Ağustos"@.len() != "MAYIS"@.len() && "Ağustos"@[0] != "Haziran"@[0]
        && "Ağustos"@[0] != "haziran"@[0] && "Ağustos"@[0] != "HAZİRAN"@[0]
        && "Ağustos"@.len() != "Temmuz"@.len() && "Ağustos"@.len() != "temmuz"@.len()
        && "Ağustos"@.len() != "TEMMUZ"@.len());
    assert("ağustos"@.len() != "Ocak"@.len() && "ağustos"@.len() != "ocak"@.len()
        && "ağustos"@.len() != "OCAK"@.len() && "ağustos"@.len() != "Şubat"@.len()
        && "ağustos"@.len() != "şubat"@.len() && "ağustos"@.len() != "ŞUBAT"@.len()
        && "ağustos"@.len() != "Mart"@.len() && "ağustos"@.len() != "mart"@.len()
        && "ağustos"@.len() != "MART"@.len() && "ağustos"@.len() != "Nisan"@.len()
        && "ağustos"@.len() != "nisan"@.len() && "ağustos"@.len() != "NİSAN"@.len()
        && "ağustos"@.len() != "Mayıs"@.len() && "ağustos"@.len() != "mayıs"@.len()
        && "ağustos"@.len() != "MAYIS"@.len() && "ağustos"@[0] != "Haziran"@[0]
        && "ağustos"@[0] != "haziran"@[0] && "ağustos"@[0] != "HAZİRAN"@[0]
        && "ağustos"@.len() != "Temmuz"@.len() && "ağustos"@.len() != "temmuz"@.len()
        && "ağustos"@.len() != "TEMMUZ"@.len());
    assert("AĞUSTOS"@.len() != "Ocak"@.len() && "AĞUSTOS"@.len() != "ocak"@.len()
        && "AĞUSTOS"@.len() != "OCAK"@.len() && "AĞUSTOS"@.len() != "Şubat"@.len()
        && "AĞUSTOS"@.len() != "şubat"@.len() && "AĞUSTOS"@.len() != "ŞUBAT"@.len()
        && "AĞUSTOS"@.len() != "Mart"@.len() && "AĞUSTOS"@.len() != "mart"@.len()
        && "AĞUSTOS"@.len() != "MART"@.len() && "AĞUSTOS"@.len() != "Nisan"@.len()
        && "AĞUSTOS"@.len() != "nisan"@.len() && "AĞUSTOS"@.len() != "NİSAN"@.len()
        && "AĞUSTOS"@.len() != "Mayıs"@.len() && "AĞUSTOS"@.len() != "mayıs"@.len()
        && "AĞUSTOS"@.len() != "MAYIS"@.len() && "AĞUSTOS"@[0] != "Haziran"@[0]
        && "AĞUSTOS"@[0] != "haziran"@[0] && "AĞUSTOS"@[0] != "HAZİRAN"@[0]
        && "AĞUSTOS"@.len() != "Temmuz"@.len() && "AĞUSTOS"@.len() != "temmuz"@.len()
        && "AĞUSTOS"@.len() != "TEMMUZ"@.len());
    assert("Ağustos"@.len() > 0 && !is_digit("Ağustos"@[0]) && "Ağustos"@[0] != '+' && "Ağustos"@[0] != '-');
    assert("ağustos"@.len() > 0 && !is_digit("ağustos"@[0]) && "ağustos"@[0] != '+' && "ağustos"@[0] != '-');
    assert("AĞUSTOS"@.len() > 0 && !is_digit("AĞUSTOS"@[0]) && "AĞUSTOS"@[0] != '+' && "AĞUSTOS"@[0] != '-');
}

proof fn lemma_month_name_9()
    ensures
        turkish_month("Eylül"@) == Some(9int),
        turkish_month("eylül"@) == Some(9int),
        turkish_month("EYLÜL"@) == Some(9int),
        month_value("Eylül"@) == Some(9int),
        month_value("eylül"@) == Some(9int),
        month_value("EYLÜL"@) == Some(9int),
{
    reveal_strlit("Eylül"); reveal_strlit("eylül"); reveal_strlit("EYLÜL"); reveal_strlit("Ocak");
    reveal_strlit("ocak"); reveal_strlit("OCAK"); reveal_strlit("Şubat"); reveal_strlit("şubat");
    reveal_strlit("ŞUBAT"); reveal_strlit("Mart"); reveal_strlit("mart"); reveal_strlit("MART");
    reveal_strlit("Nisan"); reveal_strlit("nisan"); reveal_strlit("NİSAN"); reveal_strlit("Mayıs");
    reveal_strlit("mayıs"); reveal_strlit("MAYIS"); reveal_strlit("Haziran"); reveal_strlit("haziran");
    reveal_strlit("HAZİRAN"); reveal_strlit("Temmuz"); reveal_strlit("temmuz"); reveal_strlit("TEMMUZ");
    reveal_strlit("Ağustos"); reveal_strlit("ağustos"); reveal_strlit("AĞUSTOS");
    assert("Eylül"@.len() != "Ocak"@.len() && "Eylül"@.len() != "ocak"@.len()
        && "Eylül"@.len() != "OCAK"@.len() && "Eylül"@[0] != "Şubat"@[0] && "Eylül"@[0] != "şubat"@[0]
        && "Eylül"@[0] != "ŞUBAT"@[0] && "Eylül"@.len() != "Mart"@.len() && "Eylül"@.len() != "mart"@.len()
        && "Eylül"@.len() != "MART"@.len() && "Eylül"@[0] != "Nisan"@[0] && "Eylül"@[0] != "nisan"@[0]
        && "Eylül"@[0] != "NİSAN"@[0] && "Eylül"@[0] != "Mayıs"@[0] && "Eylül"@[0] != "mayıs"@[0]
        && "Eylül"@[0] != "MAYIS"@[0] && "Eylül"@.len() != "Haziran"@.len()
        && "Eylül"@.len() != "haziran"@.len() && "Eylül"@.len() != "HAZİRAN"@.len()
        && "Eylül"@.len() != "Temmuz"@.len() && "Eylül"@.len() != "temmuz"@.len()
        && "Eylül"@.len() != "TEMMUZ"@.len() && "Eylül"@.len() != "Ağustos"@.len()
        && "Eylül"@.len() != "ağustos"@.len() && "Eylül"@.len() != "AĞUSTOS"@.len());
    assert("eylül"@.len() != "Ocak"@.len() && "eylül"@.len() != "ocak"@.len()
        && "eylül"@.len() != "OCAK"@.len() && "eylül"@[0] != "Şubat"@[0] && "eylül"@[0] != "şubat"@[0]
        && "eylül"@[0] != "ŞUBAT"@[0] && "eylül"@.len() != "Mart"@.len() && "eylül"@.len() != "mart"@.len()
        && "eylül"@.len() != "MART"@.len() && "eylül"@[0] != "Nisan"@[0] && "eylül"@[0] != "nisan"@[0]
        && "eylül"@[0] != "NİSAN"@[0] && "eylül"@[0] != "Mayıs"@[0] && "eylül"@[0] != "mayıs"@[0]
        && "eylül"@[0] != "MAYIS"@[0] && "eylül"@.len() != "Haziran"@.len()
        && "eylül"@.len() != "haziran"@.len() && "eylül"@.len() != "HAZİRAN"@.len()
        && "eylül"@.len() != "Temmuz"@.len() && "eylül"@.len() != "temmuz"@.len()
        && "eylül"@.len() != "TEMMUZ"@.len() && "eylül"@.len() != "Ağustos"@.len()
        && "eylül"@.len() != "ağustos"@.len() && "eylül"@.len() != "AĞUSTOS"@.len());
    assert("EYLÜL"@.len() != "Ocak"@.len() && "EYLÜL"@.len() != "ocak"@.len()
        && "EYLÜL"@.len() != "OCAK"@.len() && "EYLÜL"@[0] != "Şubat"@[0] && "EYLÜL"@[0] != "şubat"@[0]
        && "EYLÜL"@[0] != "ŞUBAT"@[0] && "EYLÜL"@.len() != "Mart"@.len() && "EYLÜL"@.len() != "mart"@.len()
        && "EYLÜL"@.len() != "MART"@.len() && "EYLÜL"@[0] != "Nisan"@[0] && "EYLÜL"@[0] != "nisan"@[0]
        && "EYLÜL"@[0] != "NİSAN"@[0] && "EYLÜL"@[0] != "Mayıs"@[0] && "EYLÜL"@[0] != "mayıs"@[0]
        && "EYLÜL"@[0] != "MAYIS"@[0] && "EYLÜL"@.len() != "Haziran"@.len()
        && "EYLÜL"@.len() != "haziran"@.len() && "EYLÜL"@.len() != "HAZİRAN"@.len()
        && "EYLÜL"@.len() != "Temmuz"@.len() && "EYLÜL"@.len() != "temmuz"@.len()
        && "EYLÜL"@.len() != "TEMMUZ"@.len() && "EYLÜL"@.len() != "Ağustos"@.len()
        && "EYLÜL"@.len() != "ağustos"@.len() && "EYLÜL"@.len() != "AĞUSTOS"@.len());
    assert("Eylül"@.len() > 0 && !is_digit("Eylül"@[0]) && "Eylül"@[0] != '+' && "Eylül"@[0] != '-');
    assert("eylül"@.len() > 0 && !is_digit("eylül"@[0]) && "eylül"@[0] != '+' && "eylül"@[0] != '-');
    assert("EYLÜL"@.len() > 0 && !is_digit("EYLÜL"@[0]) && "EYLÜL"@[0] != '+' && "EYLÜL"@[0] != '-');
}

proof fn lemma_month_name_10()
    ensures
        turkish_month("Ekim"@) == Some(10int),
        turkish_month("ekim"@) == Some(10int),
        turkish_month("EKİM"@) == Some(10int),
        month_value("Ekim"@) == Some(10int),
        month_value("ekim"@) == Some(10int),
        month_value("EKİM"@) == Some(10int),
{
    reveal_strlit("Ekim"); reveal_strlit("ekim"); reveal_strlit("EKİM"); reveal_strlit("Ocak");
    reveal_strlit("ocak"); reveal_strlit("OCAK"); reveal_strlit("Şubat"); reveal_strlit("şubat");
    reveal_strlit("ŞUBAT"); reveal_strlit("Mart"); reveal_strlit("mart"); reveal_strlit("MART");
    reveal_strlit("Nisan"); reveal_strlit("nisan"); reveal_strlit("NİSAN"); reveal_strlit("Mayıs");
    reveal_strlit("mayıs"); reveal_strlit("MAYIS"); reveal_strlit("Haziran"); reveal_strlit("haziran");
    reveal_strlit("HAZİRAN"); reveal_strlit("Temmuz"); reveal_strlit("temmuz"); reveal_strlit("TEMMUZ");
    reveal_strlit("Ağustos"); reveal_strlit("ağustos"); reveal_strlit("AĞUSTOS"); reveal_strlit("Eylül");
    reveal_strlit("eylül"); reveal_strlit("EYLÜL");
    assert("Ekim"@[0] != "Ocak"@[0] && "Ekim"@[0] != "ocak"@[0] && "Ekim"@[0] != "OCAK"@[0]
        && "Ekim"@.len() != "Şubat"@.len() && "Ekim"@.len() != "şubat"@.len()
        && "Ekim"@.len() != "ŞUBAT"@.len() && "Ekim"@[0] != "Mart"@[0] && "Ekim"@[0] != "mart"@[0]
        && "Ekim"@[0] != "MART"@[0] && "Ekim"@.len() != "Nisan"@.len() && "Ekim"@.len() != "nisan"@.len()
        && "Ekim"@.len() != "NİSAN"@.len() && "Ekim"@.len() != "Mayıs"@.len()
        && "Ekim"@.len() != "mayıs"@.len() && "Ekim"@.len() != "MAYIS"@.len()
        && "Ekim"@.len() != "Haziran"@.len() && "Ekim"@.len() != "haziran"@.len()
        && "Ekim"@.len() != "HAZİRAN"@.len() && "Ekim"@.len() != "Temmuz"@.len()
        && "Ekim"@.len() != "temmuz"@.len() && "Ekim"@.len() != "TEMMUZ"@.len()
        && "Ekim"@.len() != "Ağustos"@.len() && "Ekim"@.len() != "ağustos"@.len()
        && "Ekim"@.len() != "AĞUSTOS"@.len() && "Ekim"@.len() != "Eylül"@.len()
        && "Ekim"@.len() != "eylül"@.len() && "Ekim"@.len() != "EYLÜL"@.len());
    assert("ekim"@[0] != "Ocak"@[0] && "ekim"@[0] != "ocak"@[0] && "ekim"@[0] != "OCAK"@[0]
        && "ekim"@.len() != "Şubat"@.len() && "ekim"@.len() != "şubat"@.len()
        && "ekim"@.len() != "ŞUBAT"@.len() && "ekim"@[0] != "Mart"@[0] && "ekim"@[0] != "mart"@[0]
        && "ekim"@[0] != "MART"@[0] && "ekim"@.len() != "Nisan"@.len() && "ekim"@.len() != "nisan"@.len()
        && "ekim"@.len() != "NİSAN"@.len() && "ekim"@.len() != "Mayıs"@.len()
        && "ekim"@.len() != "mayıs"@.len() && "ekim"@.len() != "MAYIS"@.len()
        && "ekim"@.len() != "Haziran"@.len() && "ekim"@.len() != "haziran"@.len()
        && "ekim"@.len() != "HAZİRAN"@.len() && "ekim"@.len() != "Temmuz"@.len()
        && "ekim"@.len() != "temmuz"@.len() && "ekim"@.len() != "TEMMUZ"@.len()
        && "ekim"@.len() != "Ağustos"@.len() && "ekim"@.len() != "ağustos"@.len()
        && "ekim"@.len() != "AĞUSTOS"@.len() && "ekim"@.len() != "Eylül"@.len()
        && "ekim"@.len() != "eylül"@.len() && "ekim"@.len() != "EYLÜL"@.len());
    assert("EKİM"@[0] != "Ocak"@[0] && "EKİM"@[0] != "ocak"@[0] && "EKİM"@[0] != "OCAK"@[0]
        && "EKİM"@.len() != "Şubat"@.len() && "EKİM"@.len() != "şubat"@.len()
        && "EKİM"@.len() != "ŞUBAT"@.len() && "EKİM"@[0] != "Mart"@[0] && "EKİM"@[0] != "mart"@[0]
        && "EKİM"@[0] != "MART"@[0] && "EKİM"@.len() != "Nisan"@.len() && "EKİM"@.len() != "nisan"@.len()
        && "EKİM"@.len() != "NİSAN"@.len() && "EKİM"@.len() != "Mayıs"@.len()
        && "EKİM"@.len() != "mayıs"@.len() && "EKİM"@.len() != "MAYIS"@.len()
        && "EKİM"@.len() != "Haziran"@.len() && "EKİM"@.len() != "haziran"@.len()
        && "EKİM"@.len() != "HAZİRAN"@.len() && "EKİM"@.len() != "Temmuz"@.len()
        && "EKİM"@.len() != "temmuz"@.len() && "EKİM"@.len() != "TEMMUZ"@.len()
        && "EKİM"@.len() != "Ağustos"@.len() && "EKİM"@.len() != "ağustos"@.len()
        && "EKİM"@.len() != "AĞUSTOS"@.len() && "EKİM"@.len() != "Eylül"@.len()
        && "EKİM"@.len() != "eylül"@.len() && "EKİM"@.len() != "EYLÜL"@.len());
    assert("Ekim"@.len() > 0 && !is_digit("Ekim"@[0]) && "Ekim"@[0] != '+' && "Ekim"@[0] != '-');
    assert("ekim"@.len() > 0 && !is_digit("ekim"@[0]) && "ekim"@[0] != '+' && "ekim"@[0] != '-');
    assert("EKİM"@.len() > 0 && !is_digit("EKİM"@[0]) && "EKİM"@[0] != '+' && "EKİM"@[0] != '-');
}

proof fn lemma_month_name_11()
    ensures
        turkish_month("Kasım"@) == Some(11int),
        turkish_month("kasım"@) == Some(11int),
        turkish_month("KASIM"@) == Some(11int),
        month_value("Kasım"@) == Some(11int),
        month_value("kasım"@) == Some(11int),
        month_value("KASIM"@) == Some(11int),
{
    reveal_strlit("Kasım"); reveal_strlit("kasım"); reveal_strlit("KASIM"); reveal_strlit("Ocak");
    reveal_strlit("ocak"); reveal_strlit("OCAK"); reveal_strlit("Şubat"); reveal_strlit("şubat");
    reveal_strlit("ŞUBAT"); reveal_strlit("Mart"); reveal_strlit("mart"); reveal_strlit("MART");
    reveal_strlit("Nisan"); reveal_strlit("nisan"); reveal_strlit("NİSAN"); reveal_strlit("Mayıs");
    reveal_strlit("mayıs"); reveal_strlit("MAYIS"); reveal_strlit("Haziran"); reveal_strlit("haziran");
    reveal_strlit("HAZİRAN"); reveal_strlit("Temmuz"); reveal_strlit("temmuz"); reveal_strlit("TEMMUZ");
    reveal_strlit("Ağustos"); reveal_strlit("ağustos"); reveal_strlit("AĞUSTOS"); reveal_strlit("Eylül");
    reveal_strlit("eylül"); reveal_strlit("EYLÜL"); reveal_strlit("Ekim"); reveal_strlit("ekim");
    reveal_strlit("EKİM");
    assert("Kasım"@.len() != "Ocak"@.len() && "Kasım"@.len() != "ocak"@.len()
        && "Kasım"@.len() != "OCAK"@.len() && "Kasım"@[0] != "Şubat"@[0] && "Kasım"@[0] != "şubat"@[0]
        && "Kasım"@[0] != "ŞUBAT"@[0] && "Kasım"@.len() != "Mart"@.len() && "Kasım"@.len() != "mart"@.len()
        && "Kasım"@.len() != "MART"@.len() && "Kasım"@[0] != "Nisan"@[0] && "Kasım"@[0] != "nisan"@[0]
        && "Kasım"@[0] != "NİSAN"@[0] && "Kasım"@[0] != "Mayıs"@[0] && "Kasım"@[0] != "mayıs"@[0]
        && "Kasım"@[0] != "MAYIS"@[0] && "Kasım"@.len() != "Haziran"@.len()
        && "Kasım"@.len() != "haziran"@.len() && "Kasım"@.len() != "HAZİRAN"@.len()
        && "Kasım"@.len() != "Temmuz"@.len() && "Kasım"@.len() != "temmuz"@.len()
        && "Kasım"@.len() != "TEMMUZ"@.len() && "Kasım"@.len() != "Ağustos"@.len()
        && "Kasım"@.len() != "ağustos"@.len() && "Kasım"@.len() != "AĞUSTOS"@.len()
        && "Kasım"@[0] != "Eylül"@[0] && "Kasım"@[0] != "eylül"@[0] && "Kasım"@[0] != "EYLÜL"@[0]
        && "Kasım"@.len() != "Ekim"@.len() && "Kasım"@.len() != "ekim"@.len()
        && "Kasım"@.len() != "EKİM"@.len());
    assert("kasım"@.len() != "Ocak"@.len() && "kasım"@.len() != "ocak"@.len()
        && "kasım"@.len() != "OCAK"@.len() && "kasım"@[0] != "Şubat"@[0] && "kasım"@[0] != "şubat"@[0]
        && "kasım"@[0] != "ŞUBAT"@[0] && "kasım"@.len() != "Mart"@.len() && "kasım"@.len() != "mart"@.len()
        && "kasım"@.len() != "MART"@.len() && "kasım"@[0] != "Nisan"@[0] && "kasım"@[0] != "nisan"@[0]
        && "kasım"@[0] != "NİSAN"@[0] && "kasım"@[0] != "Mayıs"@[0] && "kasım"@[0] != "mayıs"@[0]
        && "kasım"@[0] != "MAYIS"@[0] && "kasım"@.len() != "Haziran"@.len()
        && "kasım"@.len() != "haziran"@.len() && "kasım"@.len() != "HAZİRAN"@.len()
        && "kasım"@.len() != "Temmuz"@.len() && "kasım"@.len() != "temmuz"@.len()
        && "kasım"@.len() != "TEMMUZ"@.len() && "kasım"@.len() != "Ağustos"@.len()
        && "kasım"@.len() != "ağustos"@.len() && "kasım"@.len() != "AĞUSTOS"@.len()
        && "kasım"@[0] != "Eylül"@[0] && "kasım"@[0] != "eylül"@[0] && "kasım"@[0] != "EYLÜL"@[0]
        && "kasım"@.len() != "Ekim"@.len() && "kasım"@.len() != "ekim"@.len()
        && "kasım"@.len() != "EKİM"@.len());
    assert("KASIM"@.len() != "Ocak"@.len() && "KASIM"@.len() != "ocak"@.len()
        && "KASIM"@.len() != "OCAK"@.len() && "KASIM"@[0] != "Şubat"@[0] && "KASIM"@[0] != "şubat"@[0]
        && "KASIM"@[0] != "ŞUBAT"@[0] && "KASIM"@.len() != "Mart"@.len() && "KASIM"@.len() != "mart"@.len()
        && "KASIM"@.len() != "MART"@.len() && "KASIM"@[0] != "Nisan"@[0] && "KASIM"@[0] != "nisan"@[0]
        && "KASIM"@[0] != "NİSAN"@[0] && "KASIM"@[0] != "Mayıs"@[0] && "KASIM"@[0] != "mayıs"@[0]
        && "KASIM"@[0] != "MAYIS"@[0] && "KASIM"@.len() != "Haziran"@.len()
        && "KASIM"@.len() != "haziran"@.len() && "KASIM"@.len() != "HAZİRAN"@.len()
        && "KASIM"@.len() != "Temmuz"@.len() && "KASIM"@.len() != "temmuz"@.len()
        && "KASIM"@.len() != "TEMMUZ"@.len() && "KASIM"@.len() != "Ağustos"@.len()
        && "KASIM"@.len() != "ağustos"@.len() && "KASIM"@.len() != "AĞUSTOS"@.len()
        && "KASIM"@[0] != "Eylül"@[0] && "KASIM"@[0] != "eylül"@[0] && "KASIM"@[0] != "EYLÜL"@[0]
        && "KASIM"@.len() != "Ekim"@.len() && "KASIM"@.len() != "ekim"@.len()
        && "KASIM"@.len() != "EKİM"@.len());
    assert("Kasım"@.len() > 0 && !is_digit("Kasım"@[0]) && "Kasım"@[0] != '+' && "Kasım"@[0] != '-');
    assert("kasım"@.len() > 0 && !is_digit("kasım"@[0]) && "kasım"@[0] != '+' && "kasım"@[0] != '-');
    assert("KASIM"@.len() > 0 && !is_digit("KASIM"@[0]) && "KASIM"@[0] != '+' && "KASIM"@[0] != '-');
}

proof fn lemma_month_name_12()
    ensures
        turkish_month("Aralık"@) == Some(12int),
        turkish_month("aralık"@) == Some(12int),
        turkish_month("ARALIK"@) == Some(12int),
        month_value("Aralık"@) == Some(12int),
        month_value("aralık"@) == Some(12int),
        month_value("ARALIK"@) == Some(12int),
{
    reveal_strlit("Aralık"); reveal_strlit("aralık"); reveal_strlit("ARALIK"); reveal_strlit("Ocak");
    reveal_strlit("ocak"); reveal_strlit("OCAK"); reveal_strlit("Şubat"); reveal_strlit("şubat");
    reveal_strlit("ŞUBAT"); reveal_strlit("Mart"); reveal_strlit("mart"); reveal_strlit("MART");
    reveal_strlit("Nisan"); reveal_strlit("nisan"); reveal_strlit("NİSAN"); reveal_strlit("Mayıs");
    reveal_strlit("mayıs"); reveal_strlit("MAYIS"); reveal_strlit("Haziran"); reveal_strlit("haziran");
    reveal_strlit("HAZİRAN"); reveal_strlit("Temmuz"); reveal_strlit("temmuz"); reveal_strlit("TEMMUZ");
    reveal_strlit("Ağustos"); reveal_strlit("ağustos"); reveal_strlit("AĞUSTOS"); reveal_strlit("Eylül");
    reveal_strlit("eylül"); reveal_strlit("EYLÜL"); reveal_strlit("Ekim"); reveal_strlit("ekim");
    reveal_strlit("EKİM"); reveal_strlit("Kasım"); reveal_strlit("kasım"); reveal_strlit("KASIM");
    assert("Aralık"@.len() != "Ocak"@.len() && "Aralık"@.len() != "ocak"@.len()
        && "Aralık"@.len() != "OCAK"@.len() && "Aralık"@.len() != "Şubat"@.len()
        && "Aralık"@.len() != "şubat"@.len() && "Aralık"@.len() != "ŞUBAT"@.len()
        && "Aralık"@.len() != "Mart"@.len() && "Aralık"@.len() != "mart"@.len()
        && "Aralık"@.len() != "MART"@.len() && "Aralık"@.len() != "Nisan"@.len()
        && "Aralık"@.len() != "nisan"@.len() && "Aralık"@.len() != "NİSAN"@.len()
        && "Aralık"@.len() != "Mayıs"@.len() && "Aralık"@.len() != "mayıs"@.len()
        && "Aralık"@.len() != "MAYIS"@.len() && "Aralık"@.len() != "Haziran"@.len()
        && "Aralık"@.len() != "haziran"@.len() && "Aralık"@.len() != "HAZİRAN"@.len()
        && "Aralık"@[0] != "Temmuz"@[0] && "Aralık"@[0] != "temmuz"@[0] && "Aralık"@[0] != "TEMMUZ"@[0]
        && "Aralık"@.len() != "Ağustos"@.len() && "Aralık"@.len() != "ağustos"@.len()
        && "Aralık"@.len() != "AĞUSTOS"@.len() && "Aralık"@.len() != "Eylül"@.len()
        && "Aralık"@.len() != "eylül"@.len() && "Aralık"@.len() != "EYLÜL"@.len()
        && "Aralık"@.len() != "Ekim"@.len() && "Aralık"@.len() != "ekim"@.len()
        && "Aralık"@.len() != "EKİM"@.len() && "Aralık"@.len() != "Kasım"@.len()
        && "Aralık"@.len() != "kasım"@.len() && "Aralık"@.len() != "KASIM"@.len());
    assert("aralık"@.len() != "Ocak"@.len() && "aralık"@.len() != "ocak"@.len()
        && "aralık"@.len() != "OCAK"@.len() && "aralık"@.len() != "Şubat"@.len()
        && "aralık"@.len() != "şubat"@.len() && "aralık"@.len() != "ŞUBAT"@.len()
        && "aralık"@.len() != "Mart"@.len() && "aralık"@.len() != "mart"@.len()
        && "aralık"@.len() != "MART"@.len() && "aralık"@.len() != "Nisan"@.len()
        && "aralık"@.len() != "nisan"@.len() && "aralık"@.len() != "NİSAN"@.len()
        && "aralık"@.len() != "Mayıs"@.len() && "aralık"@.len() != "mayıs"@.len()
        && "aralık"@.len() != "MAYIS"@.len() && "aralık"@.len() != "Haziran"@.len()
        && "aralık"@.len() != "haziran"@.len() && "aralık"@.len() != "HAZİRAN"@.len()
        && "aralık"@[0] != "Temmuz"@[0] && "aralık"@[0] != "temmuz"@[0] && "aralık"@[0] != "TEMMUZ"@[0]
        && "aralık"@.len() != "Ağustos"@.len() && "aralık"@.len() != "ağustos"@.len()
        && "aralık"@.len() != "AĞUSTOS"@.len() && "aralık"@.len() != "Eylül"@.len()
        && "aralık"@.len() != "eylül"@.len() && "aralık"@.len() != "EYLÜL"@.len()
        && "aralık"@.len() != "Ekim"@.len() && "aralık"@.len() != "ekim"@.len()
        && "aralık"@.len() != "EKİM"@.len() && "aralık"@.len() != "Kasım"@.len()
        && "aralık"@.len() != "kasım"@.len() && "aralık"@.len() != "KASIM"@.len());
    assert("ARALIK"@.len() != "Ocak"@.len() && "ARALIK"@.len() != "ocak"@.len()
        && "ARALIK"@.len() != "OCAK"@.len() && "ARALIK"@.len() != "Şubat"@.len()
        && "ARALIK"@.len() != "şubat"@.len() && "ARALIK"@.len() != "ŞUBAT"@.len()
        && "ARALIK"@.len() != "Mart"@.len() && "ARALIK"@.len() != "mart"@.len()
        && "ARALIK"@.len() != "MART"@.len() && "ARALIK"@.len() != "Nisan"@.len()
        && "ARALIK"@.len() != "nisan"@.len() && "ARALIK"@.len() != "NİSAN"@.len()
        && "ARALIK"@.len() != "Mayıs"@.len() && "ARALIK"@.len() != "mayıs"@.len()
        && "ARALIK"@.len() != "MAYIS"@.len() && "ARALIK"@.len() != "Haziran"@.len()
        && "ARALIK"@.len() != "haziran"@.len() && "ARALIK"@.len() != "HAZİRAN"@.len()
        && "ARALIK"@[0] != "Temmuz"@[0] && "ARALIK"@[0] != "temmuz"@[0] && "ARALIK"@[0] != "TEMMUZ"@[0]
        && "ARALIK"@.len() != "Ağustos"@.len() && "ARALIK"@.len() != "ağustos"@.len()
        && "ARALIK"@.len() != "AĞUSTOS"@.len() && "ARALIK"@.len() != "Eylül"@.len()
        && "ARALIK"@.len() != "eylül"@.len() && "ARALIK"@.len() != "EYLÜL"@.len()
        && "ARALIK"@.len() != "Ekim"@.len() && "ARALIK"@.len() != "ekim"@.len()
        && "ARALIK"@.len() != "EKİM"@.len() && "ARALIK"@.len() != "Kasım"@.len()
        && "ARALIK"@.len() != "kasım"@.len() && "ARALIK"@.len() != "KASIM"@.len());
    assert("Aralık"@.len() > 0 && !is_digit("Aralık"@[0]) && "Aralık"@[0] != '+' && "Aralık"@[0] != '-');
    assert("aralık"@.len() > 0 && !is_digit("aralık"@[0]) && "aralık"@[0] != '+' && "aralık"@[0] != '-');
    assert("ARALIK"@.len() > 0 && !is_digit("ARALIK"@[0]) && "ARALIK"@[0] != '+' && "ARALIK"@[0] != '-');
}

fn is_text(a: &[char], lit: &str) -> (r: bool)
    ensures
        r == (a@ == lit@),
{
    let b = chars_of(lit);
    same_chars(a, b.as_slice())
}

fn is_any(a: &[char], x: &str, y: &str, z: &str) -> (r: bool)
    ensures
        r == (a@ == x@ || a@ == y@ || a@ == z@),
{
    is_text(a, x) || is_text(a, y) || is_text(a, z)
}

fn month_from_name(s: &[char]) -> (r: Option<u32>)
    ensures
        r matches Some(m) ==> turkish_month(s@) == Some(m as int),
        r is None ==> turkish_month(s@) is None,
{
    if is_any(s, "Ocak", "ocak", "OCAK") { Some(1) }
    else if is_any(s, "Şubat", "şubat", "ŞUBAT") { Some(2) }
    else if is_any(s, "Mart", "mart", "MART") { Some(3) }
    else if is_any(s, "Nisan", "nisan", "NİSAN") { Some(4) }
    else if is_any(s, "Mayıs", "mayıs", "MAYIS") { Some(5) }
    else if is_any(s, "Haziran", "haziran", "HAZİRAN") { Some(6) }
    else if is_any(s, "Temmuz", "temmuz", "TEMMUZ") { Some(7) }
    else if is_any(s, "Ağustos", "ağustos", "AĞUSTOS") { Some(8) }
    else if is_any(s, "Eylül", "eylül", "EYLÜL") { Some(9) }
    else if is_any(s, "Ekim", "ekim", "EKİM") { Some(10) }
    else if is_any(s, "Kasım", "kasım", "KASIM") { Some(11) }
    else if is_any(s, "Aralık", "aralık", "ARALIK") { Some(12) }
    else { None }
}

/// The month read from a month group: a number, or a Turkish month name.
pub open spec fn month_value(s: Seq<char>) -> Option<int> {
    match parse_u32_spec(s) {
        Some(m) => Some(m),
        None => turkish_month(s),
    }
}

/// The three date groups read as a day, a month and a year.
pub open spec fn date_parts_ok(day: Seq<char>, month: Seq<char>, year: Seq<char>) -> bool {
    parse_u32_spec(day) is Some && month_value(month) is Some && parse_i32_spec(year) is Some
}

/// The ISO writing `YYYY-MM-DD` of year, month and day, each zero-padded.
pub open spec fn iso_text(y: int, m: int, d: int) -> Seq<char> {
    int_text_padded(y, 4) + seq!['-'] + int_text_padded(m, 2) + seq!['-'] + int_text_padded(d, 2)
}

/// The ISO date written by three date groups.
pub open spec fn date_text(day: Seq<char>, month: Seq<char>, year: Seq<char>) -> Seq<char> {
    iso_text(parse_i32_spec(year).unwrap(), month_value(month).unwrap(), parse_u32_spec(day).unwrap())
}

fn month_number(s: &[char]) -> (r: Option<u32>)
    ensures
        r matches Some(m) ==> month_value(s@) == Some(m as int),
        r is None ==> month_value(s@) is None,
{
    match parse_u32(s) {
        Some(m) => Some(m),
        None => month_from_name(s),
    }
}

fn date_of_chars(day: &[char], month: &[char], year: &[char]) -> (r: Option<String>)
    ensures
        r is Some <==> date_parts_ok(day@, month@, year@),
        r matches Some(s) ==> s@ == date_text(day@, month@, year@),
{
    let d = match parse_u32(day) {
        Some(d) => d,
        None => return None,
    };
    let m = match month_number(month) {
        Some(m) => m,
        None => return None,
    };
    let y = match parse_i32(year) {
        Some(y) => y,
        None => return None,
    };
    let mut out: Vec<char> = Vec::new();
    push_int_padded(&mut out, y as i64, 4);
    out.push('-');
    push_int_padded(&mut out, m as i64, 2);
    out.push('-');
    push_int_padded(&mut out, d as i64, 2);
    Some(string_of(out.as_slice()))
}

/// Three date groups (day, month, year) to zero-padded ISO `YYYY-MM-DD`;
/// the month may be a number or a Turkish month name.
pub fn parse_date(day: &str, month: &str, year: &str) -> (r: String)
    requires
        date_parts_ok(day@, month@, year@),
    ensures
        r@ == date_text(day@, month@, year@),
{
    let a = chars_of(day);
    let b = chars_of(month);
    let c = chars_of(year);
    match date_of_chars(a.as_slice(), b.as_slice(), c.as_slice()) {
        Some(s) => s,
        None => String::new(),
    }
}

// ---------------------------------------------------------------------------
// Field captures
// ---------------------------------------------------------------------------

/// The capture groups of the five statement fields.
pub struct FieldCaptures {
    pub total_due: Option<Vec<Option<String>>>,
    pub due_date: Option<Vec<Option<String>>>,
    pub min_due: Option<Vec<Option<String>>>,
    pub card: Option<Vec<Option<String>>>,
    pub statement_date: Option<Vec<Option<String>>>,
}

/// What the five fields capture.
pub struct CapturesView {
    pub total_due: Option<Seq<Option<Seq<char>>>>,
    pub due_date: Option<Seq<Option<Seq<char>>>>,
    pub min_due: Option<Seq<Option<Seq<char>>>>,
    pub card: Option<Seq<Option<Seq<char>>>>,
    pub statement_date: Option<Seq<Option<Seq<char>>>>,
}

impl View for FieldCaptures {
    type V = CapturesView;

    open spec fn view(&self) -> CapturesView {
        CapturesView {
            total_due: caps_view(self.total_due),
            due_date: caps_view(self.due_date),
            min_due: caps_view(self.min_due),
            card: caps_view(self.card),
            statement_date: caps_view(self.statement_date),
        }
    }
}

/// What the fields of `bank` capture in `text`.
pub open spec fn captures_in(bank: BankView, text: Seq<char>) -> CapturesView {
    CapturesView {
        total_due: field_groups(bank, "total_due"@, text),
        due_date: field_groups(bank, "due_date"@, text),
        min_due: field_groups(bank, "min_due"@, text),
        card: field_groups(bank, "card"@, text),
        statement_date: field_groups(bank, "statement_date"@, text),
    }
}

/// Runs the five field patterns of `bank` over `text`.
pub fn capture_fields(bank: &Bank, text: &str) -> (r: FieldCaptures)
    ensures
        r@ == captures_in(bank@, text@),
{
    FieldCaptures {
        total_due: bank.capture("total_due", text),
        due_date: bank.capture("due_date", text),
        min_due: bank.capture("min_due", text),
        card: bank.capture("card", text),
        statement_date: bank.capture("statement_date", text),
    }
}

// ---------------------------------------------------------------------------
// Statements from captures
// ---------------------------------------------------------------------------

/// Group `i` took part in the match.
pub open spec fn has_group(g: Seq<Option<Seq<char>>>, i: int) -> bool {
    0 <= i < g.len() && g[i] is Some
}

pub open spec fn group(g: Seq<Option<Seq<char>>>, i: int) -> Seq<char> {
    g[i].unwrap()
}

/// The amount of an amount group, written in the bank's style.
pub open spec fn styled_amount(style: AmountStyle, raw: Seq<char>) -> Option<int> {
    match style {
        AmountStyle::Turkish => tr_amount(raw),
        AmountStyle::Us => us_amount(raw),
    }
}

pub open spec fn amount_group_ok(style: AmountStyle, g: Seq<Option<Seq<char>>>) -> bool {
    has_group(g, 1) && styled_amount(style, group(g, 1)) is Some
}

pub open spec fn date_groups_ok(g: Seq<Option<Seq<char>>>) -> bool {
    has_group(g, 1) && has_group(g, 2) && has_group(g, 3)
        && date_parts_ok(group(g, 1), group(g, 2), group(g, 3))
}

/// When both required fields match, every group that is read is there and
/// reads: the card's two groups, the amounts, the dates.
pub open spec fn captures_usable(style: AmountStyle, c: CapturesView) -> bool {
    (c.total_due is Some && c.due_date is Some) ==> {
        &&& amount_group_ok(style, c.total_due.unwrap())
        &&& date_groups_ok(c.due_date.unwrap())
        &&& (c.min_due matches Some(g) ==> amount_group_ok(style, g))
        &&& (c.card matches Some(g) ==> has_group(g, 1) && has_group(g, 2))
        &&& (c.statement_date matches Some(g) ==> date_groups_ok(g))
    }
}

/// `"{first4} **** **** {last4}"`.
pub open spec fn masked_card(first4: Seq<char>, last4: Seq<char>) -> Seq<char> {
    first4 + " **** **** "@ + last4
}

/// The statement that captures give: none unless both `total_due` and
/// `due_date` matched; the card's last four digits and masked number from the
/// `card` groups, or the bank's fallback label without them.
pub open spec fn statement_of(bank: BankView, c: CapturesView) -> Option<StatementView> {
    if c.total_due is Some && c.due_date is Some {
        let t = c.total_due.unwrap();
        let d = c.due_date.unwrap();
        Some(StatementView {
            bank: bank.name,
            card_last4: match c.card { Some(g) => Some(group(g, 2)), None => None },
            card_masked: match c.card {
                Some(g) => Some(masked_card(group(g, 1), group(g, 2))),
                None => bank.fallback_masked,
            },
            total_due: styled_amount(bank.amount_style, group(t, 1)).unwrap(),
            min_due: match c.min_due {
                Some(g) => Some(styled_amount(bank.amount_style, group(g, 1)).unwrap()),
                None => None,
            },
            due_date: date_text(group(d, 1), group(d, 2), group(d, 3)),
            statement_date: match c.statement_date {
                Some(g) => Some(date_text(group(g, 1), group(g, 2), group(g, 3))),
                None => None,
            },
        })
    } else {
        None
    }
}

fn group_text(g: &Vec<Option<String>>, i: usize) -> (r: Option<String>)
    ensures
        r is Some <==> has_group(groups_view(g@), i as int),
        r matches Some(s) ==> s@ == group(groups_view(g@), i as int),
{
    if i < g.len() {
        match &g[i] {
            Some(s) => Some(s.clone()),
            None => None,
        }
    } else {
        None
    }
}

fn read_amount(style: AmountStyle, g: &Vec<Option<String>>) -> (r: Option<i64>)
    ensures
        r is Some <==> amount_group_ok(style, groups_view(g@)),
        r matches Some(v) ==> styled_amount(style, group(groups_view(g@), 1)) == Some(v as int),
{
    let raw = match group_text(g, 1) {
        Some(s) => s,
        None => return None,
    };
    match style {
        AmountStyle::Turkish => read_tr_amount(raw.as_str()),
        AmountStyle::Us => read_us_amount(raw.as_str()),
    }
}

fn read_date(g: &Vec<Option<String>>) -> (r: Option<String>)
    ensures
        r is Some <==> date_groups_ok(groups_view(g@)),
        r matches Some(s) ==> s@ == date_text(
            group(groups_view(g@), 1),
            group(groups_view(g@), 2),
            group(groups_view(g@), 3),
        ),
{
    let d = match group_text(g, 1) {
        Some(s) => s,
        None => return None,
    };
    let m = match group_text(g, 2) {
        Some(s) => s,
        None => return None,
    };
    let y = match group_text(g, 3) {
        Some(s) => s,
        None => return None,
    };
    let a = chars_of(d.as_str());
    let b = chars_of(m.as_str());
    let c = chars_of(y.as_str());
    date_of_chars(a.as_slice(), b.as_slice(), c.as_slice())
}

/// Whether the captures can be read (`captures_usable`).
pub fn captures_readable(style: AmountStyle, c: &FieldCaptures) -> (r: bool)
    ensures
        r == captures_usable(style, c@),
{
    let (t, d) = match (&c.total_due, &c.due_date) {
        (Some(t), Some(d)) => (t, d),
        _ => return true,
    };
    if read_amount(style, t).is_none() || read_date(d).is_none() {
        return false;
    }
    if let Some(g) = &c.min_due {
        if read_amount(style, g).is_none() {
            return false;
        }
    }
    if let Some(g) = &c.card {
        if group_text(g, 1).is_none() || group_text(g, 2).is_none() {
            return false;
        }
    }
    if let Some(g) = &c.statement_date {
        if read_date(g).is_none() {
            return false;
        }
    }
    true
}

/// The statement that the captures of `bank`'s fields give.
pub fn statement_from_captures(bank: &Bank, c: &FieldCaptures) -> (r: Option<Statement>)
    requires
        captures_usable(bank@.amount_style, c@),
    ensures
        match (r, statement_of(bank@, c@)) {
            (Some(s), Some(v)) => s@ == v,
            (None, None) => true,
            _ => false,
        },
{
    let style = bank.amount_style();
    let (t, d) = match (&c.total_due, &c.due_date) {
        (Some(t), Some(d)) => (t, d),
        _ => return None,
    };
    let total_due = match read_amount(style, t) {
        Some(v) => v,
        None => return None,
    };
    let due_date = match read_date(d) {
        Some(s) => s,
        None => return None,
    };
    let min_due = match &c.min_due {
        Some(g) => match read_amount(style, g) {
            Some(v) => Some(v),
            None => return None,
        },
        None => None,
    };
    let statement_date = match &c.statement_date {
        Some(g) => match read_date(g) {
            Some(s) => Some(s),
            None => return None,
        },
        None => None,
    };
    let (card_last4, card_masked) = match &c.card {
        Some(g) => {
            let first4 = match group_text(g, 1) {
                Some(s) => s,
                None => return None,
            };
            let last4 = match group_text(g, 2) {
                Some(s) => s,
                None => return None,
            };
            let mut m: Vec<char> = Vec::new();
            push_str(&mut m, first4.as_str());
            push_str(&mut m, " **** **** ");
            push_str(&mut m, last4.as_str());
            (Some(last4), Some(string_of(m.as_slice())))
        },
        None => (None, crate::banks::clone_opt(bank.fallback_masked())),
    };
    Some(Statement {
        bank: bank.name().clone(),
        card_last4,
        card_masked,
        total_due,
        min_due,
        due_date,
        statement_date,
    })
}

/// The statement that `bank`'s field patterns read in `text`.
pub open spec fn parse_statement_spec(bank: BankView, text: Seq<char>) -> Option<StatementView> {
    statement_of(bank, captures_in(bank, text))
}

/// A statement is read exactly when both `total_due` and `due_date` match;
/// it carries the bank's name.
pub proof fn lemma_statement_needs_total_and_due(bank: BankView, text: Seq<char>)
    ensures
        parse_statement_spec(bank, text) is Some <==> (field_groups(bank, "total_due"@, text) is Some
            && field_groups(bank, "due_date"@, text) is Some),
        parse_statement_spec(bank, text) matches Some(v) ==> v.bank == bank.name,
{
}

/// Parse `text` against a bank's field regexes.
///
/// A statement is valid **iff both `total_due` and `due_date` match**; otherwise
/// `None`. All other fields are optional. Group contract per field:
/// `card` -> (first4, last4); `total_due`/`min_due` -> 1 amount group;
/// `due_date`/`statement_date` -> 3 date groups.
pub fn parse_statement(bank: &Bank, text: &str) -> (r: Option<Statement>)
    requires
        captures_usable(bank@.amount_style, captures_in(bank@, text@)),
    ensures
        match (r, parse_statement_spec(bank@, text@)) {
            (Some(s), Some(v)) => s@ == v,
            (None, None) => true,
            _ => false,
        },
{
    let c = capture_fields(bank, text);
    statement_from_captures(bank, &c)
}

/// Why a text could not be read with a bank's patterns.
#[derive(Debug, Clone, Copy, PartialEq, Eq, Structural)]
pub enum StatementFault {
    /// Both required fields matched, but a group that is read is missing, or
    /// an amount or date group does not read as one.
    UnreadableGroups,
}

/// `parse_statement` where the captures can be read, a fault where they
/// cannot.
pub fn try_parse_statement(bank: &Bank, text: &str) -> (r: Result<Option<Statement>, StatementFault>)
    ensures
        r is Ok <==> captures_usable(bank@.amount_style, captures_in(bank@, text@)),
        r matches Ok(o) ==> match (o, parse_statement_spec(bank@, text@)) {
            (Some(s), Some(v)) => s@ == v,
            (None, None) => true,
            _ => false,
        },
{
    let c = capture_fields(bank, text);
    if captures_readable(bank.amount_style(), &c) {
        Ok(parse_statement(bank, text))
    } else {
        Err(StatementFault::UnreadableGroups)
    }
}

} // verus!
