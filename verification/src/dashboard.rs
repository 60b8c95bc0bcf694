//! The dashboard view-model and the other values the desktop shell builds
//! from the library: the card views, the bank list of the setup wizard, the
//! bank selection, and the names of stored and downloaded statement files.

use vstd::prelude::*;
use crate::amount::{format_amount_tr, tr_amount_text};
use crate::banks::{Bank, BankView, opt_string_view};
use crate::calendar::{days_left, days_left_defined, days_left_spec};
use crate::store::StatementRow;
use crate::text::{chars_of, push_int_text, push_str, int_text, same_chars, string_of, views_of};

verus! {

/// One dashboard card.
#[derive(Debug, Clone)]
pub struct CardView {
    pub id: i64,
    pub bank: String,
    pub card_masked: Option<String>,
    pub total_due_fmt: String,
    pub min_due_fmt: Option<String>,
    pub due_date: String,
    pub statement_date: Option<String>,
    pub days_left: Option<i64>,
    pub color: String,
}

/// The built-in bank list, for the wizard's checkboxes.
#[derive(Debug, Clone)]
pub struct BankInfo {
    pub name: String,
    pub color: String,
}

pub open spec fn bank_views(banks: Seq<Bank>) -> Seq<BankView> {
    banks.map_values(|b: Bank| b@)
}

/// The dashboard color of a bank: that of the last bank of that name, or
/// `#666666` when there is none.
pub open spec fn color_of(banks: Seq<BankView>, name: Seq<char>) -> Seq<char>
    decreases banks.len(),
{
    if banks.len() == 0 {
        "#666666"@
    } else if banks.last().name == name {
        banks.last().color
    } else {
        color_of(banks.drop_last(), name)
    }
}

/// The dashboard color of the bank named `name`.
pub fn bank_color(banks: &Vec<Bank>, name: &str) -> (r: String)
    ensures
        r@ == color_of(bank_views(banks@), name@),
{
    let n = chars_of(name);
    let ghost all = bank_views(banks@);
    let mut i: usize = banks.len();
    assert(all.take(i as int) =~= all);
    while i > 0
        invariant
            i <= banks.len(),
            n@ == name@,
            all == bank_views(banks@),
            color_of(all, name@) == color_of(all.take(i as int), name@),
        decreases i,
    {
        let ghost pre = all.take(i as int);
        assert(pre.last() == banks@[i - 1]@);
        assert(pre.drop_last() =~= all.take(i - 1));
        let bn = chars_of(banks[i - 1].name().as_str());
        if same_chars(bn.as_slice(), n.as_slice()) {
            return banks[i - 1].color().clone();
        }
        i = i - 1;
    }
    assert(all.take(0) =~= Seq::<BankView>::empty());
    string_of(chars_of("#666666").as_slice())
}

/// The wizard's list: name and color of every bank.
pub fn bank_infos(banks: &Vec<Bank>) -> (r: Vec<BankInfo>)
    ensures
        r@.len() == banks@.len(),
        forall|i: int| 0 <= i < r@.len() ==> #[trigger] r@[i].name@ == banks@[i]@.name && r@[i].color@ == banks@[i]@.color,
{
    let mut r: Vec<BankInfo> = Vec::new();
    let mut i: usize = 0;
    while i < banks.len()
        invariant
            i <= banks.len(),
            r@.len() == i,
            forall|j: int| 0 <= j < i ==> #[trigger] r@[j].name@ == banks@[j]@.name && r@[j].color@ == banks@[j]@.color,
        decreases banks.len() - i,
    {
        r.push(BankInfo { name: banks[i].name().clone(), color: banks[i].color().clone() });
        i = i + 1;
    }
    r
}

/// The banks to scan: all of them when nothing is selected, otherwise those
/// whose name is selected, in pack order.
pub open spec fn active_banks_spec(banks: Seq<BankView>, selected: Seq<Seq<char>>) -> Seq<BankView> {
    if selected.len() == 0 {
        banks
    } else {
        banks.filter(|b: BankView| selected.contains(b.name))
    }
}

fn is_selected(selected: &Vec<String>, name: &str) -> (r: bool)
    ensures
        r == views_of(selected@).contains(name@),
{
    let mut i: usize = 0;
    while i < selected.len()
        invariant
            i <= selected.len(),
            forall|j: int| 0 <= j < i ==> #[trigger] selected@[j]@ != name@,
        decreases selected.len() - i,
    {
        if crate::text::same_text(selected[i].as_str(), name) {
            assert(views_of(selected@)[i as int] == name@);
            return true;
        }
        i = i + 1;
    }
    assert forall|j: int| 0 <= j < views_of(selected@).len() implies #[trigger] views_of(selected@)[j] != name@ by {
        assert(selected@[j]@ != name@);
    }
    false
}

/// The banks to scan given the selection (empty selection = all).
pub fn active_banks(banks: &Vec<Bank>, selected: &Vec<String>) -> (r: Vec<Bank>)
    ensures
        bank_views(r@) == active_banks_spec(bank_views(banks@), views_of(selected@)),
{
    let ghost all = bank_views(banks@);
    let ghost sel = views_of(selected@);
    let ghost keep = |b: BankView| sel.contains(b.name);
    let mut r: Vec<Bank> = Vec::new();
    let mut i: usize = 0;
    let none = selected.len() == 0;
    assert(all.take(0).filter(keep) =~= Seq::<BankView>::empty()) by {
        reveal_with_fuel(Seq::filter, 1);
    }
    while i < banks.len()
        invariant
            i <= banks.len(),
            all == bank_views(banks@),
            sel == views_of(selected@),
            keep == (|b: BankView| sel.contains(b.name)),
            none == (selected@.len() == 0),
            none ==> bank_views(r@) == all.take(i as int),
            !none ==> bank_views(r@) == all.take(i as int).filter(keep),
        decreases banks.len() - i,
    {
        let b = &banks[i];
        proof {
            assert(all.take(i + 1) =~= all.take(i as int).push(all[i as int]));
            all.take(i as int).lemma_filter_push(all[i as int], keep);
        }
        let ghost before = bank_views(r@);
        if none || is_selected(selected, b.name().as_str()) {
            r.push(b.clone());
            assert(bank_views(r@) =~= before.push(all[i as int]));
        }
        i = i + 1;
    }
    assert(all.take(banks.len() as int) =~= all);
    r
}

// ---------------------------------------------------------------------------
// Card views
// ---------------------------------------------------------------------------

/// The dashboard card of a stored statement, on `today` (ISO date):
/// amounts written the Turkish way, the days left, and the bank's color.
pub open spec fn card_view_spec(r: StatementRow, today: Seq<char>, banks: Seq<BankView>, v: CardView) -> bool {
    &&& v.id == r.id
    &&& v.bank@ == r.bank@
    &&& opt_string_view(v.card_masked) == opt_string_view(r.card_masked)
    &&& v.total_due_fmt@ == tr_amount_text(r.total_due as int)
    &&& opt_string_view(v.min_due_fmt) == match r.min_due { Some(m) => Some(tr_amount_text(m as int)), None => None }
    &&& v.due_date@ == r.due_date@
    &&& opt_string_view(v.statement_date) == opt_string_view(r.statement_date)
    &&& match v.days_left { Some(n) => days_left_spec(r.due_date@, today) == Some(n as int), None => days_left_spec(r.due_date@, today) is None }
    &&& v.color@ == color_of(banks, r.bank@)
}

/// The dashboard card of a stored statement.
pub fn card_view(r: StatementRow, today: &str, banks: &Vec<Bank>) -> (v: CardView)
    requires
        days_left_defined(r.due_date@, today@),
    ensures
        card_view_spec(r, today@, bank_views(banks@), v),
{
    let dl = days_left(r.due_date.as_str(), today);
    let color = bank_color(banks, r.bank.as_str());
    let total = format_amount_tr(r.total_due);
    let min = match r.min_due {
        Some(m) => Some(format_amount_tr(m)),
        None => None,
    };
    CardView {
        id: r.id,
        days_left: dl,
        color,
        total_due_fmt: total,
        min_due_fmt: min,
        bank: r.bank,
        card_masked: r.card_masked,
        due_date: r.due_date,
        statement_date: r.statement_date,
    }
}

// ---------------------------------------------------------------------------
// File names
// ---------------------------------------------------------------------------

/// Whether `c` is alphabetic or numeric in Unicode (`char::is_alphanumeric`).
pub uninterp spec fn unicode_alphanumeric(c: char) -> bool;

/// `c.is_alphanumeric()`.
#[verifier::external_body]
pub(crate) fn is_alphanumeric(c: char) -> (r: bool)
    ensures
        r == unicode_alphanumeric(c),
{
    c.is_alphanumeric()
}

/// `s` with every character that is not alphanumeric, `-` or `_` replaced
/// by `_`.
pub open spec fn sanitized(s: Seq<char>) -> Seq<char> {
    s.map_values(|c: char| if unicode_alphanumeric(c) || c == '-' || c == '_' { c } else { '_' })
}

/// Replace path-hostile characters (separators, Turkish quirks aside) with `_`.
pub fn sanitize_filename(s: &str) -> (r: String)
    ensures
        r@ == sanitized(s@),
{
    let cs = chars_of(s);
    let mut out: Vec<char> = Vec::new();
    let mut i: usize = 0;
    while i < cs.len()
        invariant
            i <= cs.len(),
            cs@ == s@,
            out@ =~= sanitized(cs@.take(i as int)),
        decreases cs.len() - i,
    {
        let c = cs[i];
        if is_alphanumeric(c) || c == '-' || c == '_' {
            out.push(c);
        } else {
            out.push('_');
        }
        i = i + 1;
        assert(out@ =~= sanitized(cs@.take(i as int)));
    }
    assert(cs@.take(cs.len() as int) =~= cs@);
    string_of(out.as_slice())
}

/// The readable download name of a statement: `{bank}_{due_date}.pdf`, the
/// bank name sanitized.
pub fn download_file_name(bank: &str, due_date: &str) -> (r: String)
    ensures
        r@ == sanitized(bank@) + seq!['_'] + due_date@ + ".pdf"@,
{
    let b = sanitize_filename(bank);
    let mut out: Vec<char> = Vec::new();
    push_str(&mut out, b.as_str());
    out.push('_');
    push_str(&mut out, due_date);
    push_str(&mut out, ".pdf");
    assert(out@ =~= sanitized(bank@) + seq!['_'] + due_date@ + ".pdf"@);
    string_of(out.as_slice())
}

/// `"{stem} ({n}).{ext}"`, the n-th alternative name of a taken file name.
pub fn numbered_file_name(stem: &str, n: u64, ext: &str) -> (r: String)
    ensures
        r@ == stem@ + " ("@ + int_text(n as int) + ")."@ + ext@,
{
    let mut out: Vec<char> = Vec::new();
    push_str(&mut out, stem);
    push_str(&mut out, " (");
    crate::text::push_nat_text(&mut out, n);
    push_str(&mut out, ").");
    push_str(&mut out, ext);
    assert(out@ =~= stem@ + " ("@ + int_text(n as int) + ")."@ + ext@);
    string_of(out.as_slice())
}

/// `"{id}.pdf"`, the name a statement's PDF is stored under.
pub fn pdf_file_name(id: i64) -> (r: String)
    ensures
        r@ == int_text(id as int) + ".pdf"@,
{
    let mut out: Vec<char> = Vec::new();
    push_int_text(&mut out, id);
    push_str(&mut out, ".pdf");
    assert(out@ =~= int_text(id as int) + ".pdf"@);
    string_of(out.as_slice())
}

} // verus!
