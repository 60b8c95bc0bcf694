//! The rules of the statement store: the dedup key, backfill suppression on
//! insert, which statements are due for a reminder, and the newest statement
//! per card. The store itself (SQLite) lives in the application; it hands
//! rows here and writes back what these rules decide.

use vstd::prelude::*;
use crate::banks::opt_string_view;
use crate::parser::Statement;
use crate::text::{chars_of, compare_chars, lemma_text_lt_asymmetric, lemma_text_lt_irreflexive,
    lemma_text_lt_total, lemma_text_lt_transitive, same_text, text_le, text_lt};

verus! {

/// A row read back from the store (the statement plus its `id` and
/// `reminded_at`). Amounts are in kuruş.
#[derive(Debug, Clone)]
pub struct StatementRow {
    pub id: i64,
    pub bank: String,
    pub card_last4: Option<String>,
    pub card_masked: Option<String>,
    pub total_due: i64,
    pub min_due: Option<i64>,
    pub due_date: String,
    pub statement_date: Option<String>,
    pub reminded_at: Option<String>,
}

/// The last four digits of a card, `""` when unknown (`ifnull(card_last4, '')`).
pub open spec fn last4_or_empty(l: Option<Seq<char>>) -> Seq<char> {
    match l {
        Some(s) => s,
        None => Seq::<char>::empty(),
    }
}

/// The card a row belongs to: its bank and last four digits (or `""`).
pub open spec fn card_of(r: StatementRow) -> (Seq<char>, Seq<char>) {
    (r.bank@, last4_or_empty(opt_string_view(r.card_last4)))
}

/// The natural key of a statement, the one the store dedups on: bank, last
/// four digits (or `""`) and due date.
pub open spec fn statement_key(bank: Seq<char>, last4: Option<Seq<char>>, due_date: Seq<char>) -> (Seq<char>, Seq<char>, Seq<char>) {
    (bank, last4_or_empty(last4), due_date)
}

pub open spec fn row_key(r: StatementRow) -> (Seq<char>, Seq<char>, Seq<char>) {
    statement_key(r.bank@, opt_string_view(r.card_last4), r.due_date@)
}

// ---------------------------------------------------------------------------
// Insert
// ---------------------------------------------------------------------------

/// The `reminded_at` of a statement due on `due_date` stored on `today` at
/// `now`: `now` when it is already past due, else none.
pub open spec fn stored_reminded_at(due_date: Seq<char>, today: Seq<char>, now: Seq<char>) -> Option<Seq<char>> {
    if text_lt(due_date, today) { Some(now) } else { None }
}

/// The `reminded_at` a new statement is stored with: statements already past
/// their due date when captured (due date before today) are stored as
/// reminded at `now`, so backfilling history never floods the reminder job;
/// the others are stored unreminded.
pub fn insert_reminded_at(due_date: &str, today: &str, now: &str) -> (r: Option<String>)
    ensures
        opt_string_view(r) == stored_reminded_at(due_date@, today@, now@),
{
    if crate::text::text_less(due_date, today) {
        let v = chars_of(now);
        Some(crate::text::string_of(v.as_slice()))
    } else {
        None
    }
}

// ---------------------------------------------------------------------------
// Sorting by due date
// ---------------------------------------------------------------------------

pub open spec fn due_le(a: StatementRow, b: StatementRow) -> bool {
    text_le(a.due_date@, b.due_date@)
}

/// Rows in due-date order.
pub open spec fn sorted_by_due(s: Seq<StatementRow>) -> bool {
    forall|i: int, j: int| 0 <= i < j < s.len() ==> due_le(#[trigger] s[i], #[trigger] s[j])
}

proof fn lemma_text_le_trans(a: Seq<char>, b: Seq<char>, c: Seq<char>)
    requires
        text_le(a, b),
        text_le(b, c),
    ensures
        text_le(a, c),
{
    if text_lt(a, b) && text_lt(b, c) {
        lemma_text_lt_transitive(a, b, c);
    }
}

/// `a.due_date < b.due_date`.
fn due_before(a: &StatementRow, b: &StatementRow) -> (r: bool)
    ensures
        r == text_lt(a.due_date@, b.due_date@),
{
    let x = chars_of(a.due_date.as_str());
    let y = chars_of(b.due_date.as_str());
    compare_chars(x.as_slice(), y.as_slice()) < 0
}

/// Inserts `x` into sorted `out` after every row due no later than it.
fn insert_by_due(out: &mut Vec<StatementRow>, x: StatementRow)
    requires
        sorted_by_due(old(out)@),
    ensures
        sorted_by_due(final(out)@),
        final(out)@.to_multiset() == old(out)@.to_multiset().insert(x),
{
    let mut j: usize = 0;
    while j < out.len() && !due_before(&x, &out[j])
        invariant
            j <= out.len(),
            forall|k: int| 0 <= k < j ==> due_le(#[trigger] out@[k], x),
        decreases out.len() - j,
    {
        proof {
            lemma_text_lt_total(x.due_date@, out@[j as int].due_date@);
        }
        j = j + 1;
    }
    let ghost before = out@;
    proof {
        vstd::seq_lib::to_multiset_insert(before, j as int, x);
        assert forall|k: int| j <= k < before.len() implies due_le(x, #[trigger] before[k]) by {
            assert(text_lt(x.due_date@, before[j as int].due_date@));
            if k > j {
                assert(due_le(before[j as int], before[k]));
                if text_lt(before[j as int].due_date@, before[k].due_date@) {
                    lemma_text_lt_transitive(x.due_date@, before[j as int].due_date@, before[k].due_date@);
                }
            }
        }
    }
    out.insert(j, x);
    proof {
        let a = out@;
        assert forall|p: int, q: int| 0 <= p < q < a.len() implies due_le(#[trigger] a[p], #[trigger] a[q]) by {
            if q < j {
                assert(a[p] == before[p] && a[q] == before[q]);
            } else if q == j {
                assert(a[p] == before[p]);
            } else if p < j {
                assert(a[p] == before[p] && a[q] == before[q - 1]);
                assert(due_le(before[p], x));
                assert(due_le(x, before[q - 1]));
                lemma_text_le_trans(before[p].due_date@, x.due_date@, before[q - 1].due_date@);
            } else if p == j {
                assert(a[q] == before[q - 1]);
            } else {
                assert(a[p] == before[p - 1] && a[q] == before[q - 1]);
            }
        }
    }
}

/// Whether a row is due for a reminder: due no later than `cutoff` and not
/// reminded yet.
pub open spec fn due_unreminded_row(r: StatementRow, cutoff: Seq<char>) -> bool {
    text_le(r.due_date@, cutoff) && r.reminded_at is None
}

/// `due_unreminded_row` as a predicate.
pub open spec fn due_pred(cutoff: Seq<char>) -> spec_fn(StatementRow) -> bool {
    |x: StatementRow| due_unreminded_row(x, cutoff)
}

fn is_due_unreminded(r: &StatementRow, cutoff: &str) -> (b: bool)
    ensures
        b == due_unreminded_row(*r, cutoff@),
{
    if r.reminded_at.is_some() {
        return false;
    }
    let x = chars_of(r.due_date.as_str());
    let y = chars_of(cutoff);
    compare_chars(x.as_slice(), y.as_slice()) <= 0
}

/// The rows that are due no later than `cutoff` (today plus the reminder
/// lead, as the store's clock gives it) and not yet reminded, oldest due date
/// first.
pub fn due_unreminded(rows: Vec<StatementRow>, cutoff: &str) -> (r: Vec<StatementRow>)
    ensures
        sorted_by_due(r@),
        r@.to_multiset() == rows@.filter(due_pred(cutoff@)).to_multiset(),
{
    broadcast use vstd::seq_lib::group_to_multiset_ensures, vstd::multiset::group_multiset_axioms;
    let ghost pred = due_pred(cutoff@);
    let ghost all = rows@;
    let mut rest = rows;
    let mut out: Vec<StatementRow> = Vec::new();
    proof {
        assert(out@ =~= Seq::<StatementRow>::empty());
        assert(out@.to_multiset().len() == 0);
        assert(out@.to_multiset() =~= vstd::multiset::Multiset::<StatementRow>::empty());
        assert(rest@ == all);
    }
    while rest.len() > 0
        invariant
            sorted_by_due(out@),
            pred == due_pred(cutoff@),
            out@.to_multiset().add(rest@.filter(pred).to_multiset()) == all.filter(pred).to_multiset(),
        decreases rest.len(),
    {
        let ghost before = rest@;
        let x = rest.pop().unwrap();
        let ghost fr = rest@.filter(pred);
        let ghost fb = before.filter(pred);
        proof {
            assert(before =~= rest@.push(x));
            rest@.lemma_filter_push(x, pred);
            assert(fb == if pred(x) { fr.push(x) } else { fr });
        }
        if is_due_unreminded(&x, cutoff) {
            let ghost o = out@;
            insert_by_due(&mut out, x);
            proof {
                assert(pred(x));
                vstd::seq_lib::to_multiset_build(fr, x);
                assert(fb.to_multiset() == fr.to_multiset().insert(x));
                assert(out@.to_multiset() == o.to_multiset().insert(x));
                assert(out@.to_multiset().add(fr.to_multiset()) =~= o.to_multiset().add(fb.to_multiset()));
            }
        } else {
            assert(!pred(x));
            assert(fb == fr);
        }
    }
    proof {
        assert(rest@ =~= Seq::<StatementRow>::empty());
        assert(rest@.filter(pred) =~= Seq::<StatementRow>::empty());
        broadcast use vstd::multiset::group_multiset_axioms;
        assert(out@.to_multiset() =~= out@.to_multiset().add(rest@.filter(pred).to_multiset()));
    }
    out
}


/// A row stored as reminded is never due for a reminder again, whatever the
/// cutoff: neither a statement backfilled past its due date (stored reminded
/// by `insert_reminded_at`) nor one whose reminder was sent.
pub proof fn lemma_reminded_never_due(rows: Seq<StatementRow>, cutoff: Seq<char>, r: StatementRow)
    requires
        r.reminded_at is Some,
    ensures
        !rows.filter(due_pred(cutoff)).contains(r),
        rows.filter(due_pred(cutoff)).to_multiset().count(r) == 0,
{
    broadcast use vstd::seq_lib::group_to_multiset_ensures;
    let f = rows.filter(due_pred(cutoff));
    if f.contains(r) {
        let i = choose|i: int| 0 <= i < f.len() && f[i] == r;
        rows.lemma_filter_pred(due_pred(cutoff), i);
    }
}

/// A statement captured after its due date is stored reminded, so no
/// reminder is ever sent for it.
pub proof fn lemma_backfill_never_due(rows: Seq<StatementRow>, cutoff: Seq<char>, r: StatementRow, today: Seq<char>, now: Seq<char>)
    requires
        text_lt(r.due_date@, today),
        opt_string_view(r.reminded_at) == stored_reminded_at(r.due_date@, today, now),
    ensures
        !rows.filter(due_pred(cutoff)).contains(r),
{
    lemma_reminded_never_due(rows, cutoff, r);
}

/// The rows in due-date order.
pub fn sort_by_due(rows: Vec<StatementRow>) -> (r: Vec<StatementRow>)
    ensures
        sorted_by_due(r@),
        r@.to_multiset() == rows@.to_multiset(),
{
    broadcast use vstd::seq_lib::group_to_multiset_ensures, vstd::multiset::group_multiset_axioms;
    let ghost all = rows@;
    let mut rest = rows;
    let mut out: Vec<StatementRow> = Vec::new();
    proof {
        assert(out@ =~= Seq::<StatementRow>::empty());
        assert(out@.to_multiset().len() == 0);
        assert(out@.to_multiset() =~= vstd::multiset::Multiset::<StatementRow>::empty());
    }
    while rest.len() > 0
        invariant
            sorted_by_due(out@),
            out@.to_multiset().add(rest@.to_multiset()) == all.to_multiset(),
        decreases rest.len(),
    {
        let ghost before = rest@;
        let x = rest.pop().unwrap();
        let ghost o = out@;
        proof {
            assert(before =~= rest@.push(x));
            vstd::seq_lib::to_multiset_build(rest@, x);
        }
        insert_by_due(&mut out, x);
        proof {
            assert(out@.to_multiset().add(rest@.to_multiset()) =~= o.to_multiset().add(before.to_multiset()));
        }
    }
    proof {
        assert(rest@ =~= Seq::<StatementRow>::empty());
        assert(out@.to_multiset() =~= out@.to_multiset().add(rest@.to_multiset()));
    }
    out
}

/// Whether two rows belong to the same card.
fn same_card(a: &StatementRow, b: &StatementRow) -> (r: bool)
    ensures
        r == (card_of(*a) == card_of(*b)),
{
    if !same_text(a.bank.as_str(), b.bank.as_str()) {
        return false;
    }
    let x = match &a.card_last4 { Some(s) => chars_of(s.as_str()), None => Vec::new() };
    let y = match &b.card_last4 { Some(s) => chars_of(s.as_str()), None => Vec::new() };
    assert(x@ == last4_or_empty(opt_string_view(a.card_last4)));
    assert(y@ == last4_or_empty(opt_string_view(b.card_last4)));
    crate::text::same_chars(x.as_slice(), y.as_slice())
}

/// The newest statement of each card: one row per card (bank and last four
/// digits), each an input row, none older than any input row of its card;
/// ordered by due date.
pub open spec fn latest_per_card_spec(rows: Seq<StatementRow>, r: Seq<StatementRow>) -> bool {
    &&& sorted_by_due(r)
    &&& forall|i: int| 0 <= i < r.len() ==> rows.contains(#[trigger] r[i])
    &&& forall|i: int, j: int| 0 <= i < j < r.len() ==> card_of(#[trigger] r[i]) != card_of(#[trigger] r[j])
    &&& forall|k: int| 0 <= k < rows.len() ==> has_newer_of_card(r, #[trigger] rows[k])
}

/// `r` holds a row of `x`'s card due no earlier than `x`.
pub open spec fn has_newer_of_card(r: Seq<StatementRow>, x: StatementRow) -> bool {
    exists|i: int| 0 <= i < r.len() && card_of(#[trigger] r[i]) == card_of(x) && due_le(x, r[i])
}

/// What the scan of `latest_per_card` keeps after the first `i` rows of the
/// sorted input `s0`: every kept row is one of them, kept cards are
/// distinct, and each of them has its card kept with a due date at least
/// its own.
pub open spec fn latest_inv(s0: Seq<StatementRow>, i: int, out: Seq<StatementRow>) -> bool {
    &&& forall|e: int| 0 <= e < out.len() ==> exists|k: int| 0 <= k < i && #[trigger] out[e] == s0[k]
    &&& forall|e: int, f: int| 0 <= e < f < out.len() ==> card_of(#[trigger] out[e]) != card_of(#[trigger] out[f])
    &&& forall|k: int| 0 <= k < i ==> exists|e: int| 0 <= e < out.len()
            && card_of(#[trigger] out[e]) == card_of(#[trigger] s0[k]) && due_le(s0[k], out[e])
}

#[verifier::spinoff_prover]
#[verifier::rlimit(40)]
proof fn lemma_latest_step(s0: Seq<StatementRow>, i: int, o: Seq<StatementRow>, j: int, found: bool)
    requires
        sorted_by_due(s0),
        0 <= i < s0.len(),
        sorted_by_due(o),
        latest_inv(s0, i, o),
        0 <= j <= o.len(),
        found == (j < o.len()),
        found ==> card_of(o[j]) == card_of(s0[i]),
        forall|e: int| 0 <= e < j ==> card_of(#[trigger] o[e]) != card_of(s0[i]),
    ensures
        ({
            let n = (if found { o.remove(j) } else { o }).push(s0[i]);
            sorted_by_due(n) && latest_inv(s0, i + 1, n)
        }),
{
    let x = s0[i];
    let mid = if found { o.remove(j) } else { o };
    let n = mid.push(x);
    assert forall|e: int| 0 <= e < o.len() implies due_le(#[trigger] o[e], x) by {
        let k = choose|k: int| 0 <= k < i && o[e] == s0[k];
        assert(due_le(s0[k], s0[i]));
    }
    assert forall|e: int| 0 <= e < mid.len() implies #[trigger] mid[e] == (if found && e >= j { o[e + 1] } else { o[e] }) by {}
    assert(n.last() == x);
    assert forall|p: int, q: int| 0 <= p < q < n.len() implies due_le(#[trigger] n[p], #[trigger] n[q]) by {
        if q == n.len() - 1 {
            assert(n[p] == mid[p]);
        } else {
            assert(n[p] == mid[p] && n[q] == mid[q]);
            if found && p >= j {
                assert(due_le(o[p + 1], o[q + 1]));
            } else if found && q >= j {
                assert(due_le(o[p], o[q + 1]));
            }
        }
    }
    assert forall|e: int| 0 <= e < n.len() implies exists|k: int| 0 <= k < i + 1 && #[trigger] n[e] == s0[k] by {
        if e == n.len() - 1 {
            assert(n[e] == s0[i]);
        } else {
            let oe = if found && e >= j { e + 1 } else { e };
            assert(n[e] == o[oe]);
            let k = choose|k: int| 0 <= k < i && o[oe] == s0[k];
            assert(n[e] == s0[k]);
        }
    }
    assert forall|p: int, q: int| 0 <= p < q < n.len() implies card_of(#[trigger] n[p]) != card_of(#[trigger] n[q]) by {
        let op = if found && p >= j { p + 1 } else { p };
        assert(n[p] == o[op]);
        if q == n.len() - 1 {
            if found {
                assert(op != j);
                assert(card_of(o[op]) != card_of(o[j])) by {
                    if op < j {
                    } else {
                    }
                }
            } else {
                assert(op < j);
            }
        } else {
            let oq = if found && q >= j { q + 1 } else { q };
            assert(n[q] == o[oq]);
            assert(op < oq);
        }
    }
    assert forall|k: int| 0 <= k < i + 1 implies exists|e: int| 0 <= e < n.len()
        && card_of(#[trigger] n[e]) == card_of(#[trigger] s0[k]) && due_le(s0[k], n[e]) by {
        if k == i {
            assert(n[n.len() - 1] == s0[k]);
            assert(due_le(s0[k], n[n.len() - 1]));
        } else {
            let e = choose|e: int| 0 <= e < o.len()
                && card_of(#[trigger] o[e]) == card_of(#[trigger] s0[k]) && due_le(s0[k], o[e]);
            if found && e == j {
                assert(due_le(o[e], x));
                lemma_text_le_trans(s0[k].due_date@, o[e].due_date@, x.due_date@);
                assert(n[n.len() - 1] == x);
            } else if found && e > j {
                assert(n[e - 1] == o[e]);
            } else {
                assert(n[e] == o[e]);
            }
        }
    }
}

proof fn lemma_latest_cover(input: Seq<StatementRow>, s0: Seq<StatementRow>, out: Seq<StatementRow>, k: int)
    requires
        s0.to_multiset() == input.to_multiset(),
        latest_inv(s0, s0.len() as int, out),
        0 <= k < input.len(),
    ensures
        has_newer_of_card(out, input[k]),
{
    broadcast use vstd::seq_lib::group_to_multiset_ensures, vstd::multiset::group_multiset_axioms;
    assert(input.contains(input[k]));
    assert(input.to_multiset().count(input[k]) > 0);
    assert(s0.contains(input[k]));
    let k2 = choose|k2: int| 0 <= k2 < s0.len() && s0[k2] == input[k];
    let e = choose|e: int| 0 <= e < out.len()
        && card_of(#[trigger] out[e]) == card_of(#[trigger] s0[k2]) && due_le(s0[k2], out[e]);
    assert(card_of(out[e]) == card_of(input[k]) && due_le(input[k], out[e]));
}

proof fn lemma_latest_final(input: Seq<StatementRow>, s0: Seq<StatementRow>, out: Seq<StatementRow>)
    requires
        s0.to_multiset() == input.to_multiset(),
        latest_inv(s0, s0.len() as int, out),
        sorted_by_due(out),
    ensures
        latest_per_card_spec(input, out),
{
    broadcast use vstd::seq_lib::group_to_multiset_ensures, vstd::multiset::group_multiset_axioms;
    assert forall|e: int| 0 <= e < out.len() implies input.contains(#[trigger] out[e]) by {
        let k = choose|k: int| 0 <= k < s0.len() && out[e] == s0[k];
        assert(s0.contains(s0[k]));
        assert(s0.to_multiset().count(s0[k]) > 0);
    }
    assert forall|k: int| 0 <= k < input.len() implies has_newer_of_card(out, #[trigger] input[k]) by {
        lemma_latest_cover(input, s0, out, k);
    }
}

/// The newest statement per (bank, card_last4) group, ordered by due_date asc.
/// This is the dashboard's data source.
pub fn latest_per_card(rows: Vec<StatementRow>) -> (r: Vec<StatementRow>)
    ensures
        latest_per_card_spec(rows@, r@),
{
    broadcast use vstd::seq_lib::group_to_multiset_ensures, vstd::multiset::group_multiset_axioms;
    let ghost input = rows@;
    let sorted = sort_by_due(rows);
    let ghost s0 = sorted@;
    let mut s = sorted;
    let mut out: Vec<StatementRow> = Vec::new();
    let ghost mut i: int = 0;
    assert(s@ =~= s0.skip(0));
    while s.len() > 0
        invariant
            0 <= i <= s0.len(),
            s@ == s0.skip(i),
            sorted_by_due(s0),
            s0.to_multiset() == input.to_multiset(),
            sorted_by_due(out@),
            latest_inv(s0, i, out@),
        decreases s.len(),
    {
        let x = s.remove(0);
        assert(x == s0[i]);
        assert(s@ =~= s0.skip(i + 1));
        let ghost o = out@;
        let mut j: usize = 0;
        while j < out.len() && !same_card(&out[j], &x)
            invariant
                j <= out.len(),
                out@ == o,
                forall|e: int| 0 <= e < j ==> card_of(#[trigger] o[e]) != card_of(x),
            decreases out.len() - j,
        {
            j = j + 1;
        }
        proof {
            lemma_latest_step(s0, i, o, j as int, j < out.len());
        }
        if j < out.len() {
            out.remove(j);
        }
        out.push(x);
        proof {
            i = i + 1;
        }
    }
    proof {
        lemma_latest_final(input, s0, out@);
    }
    out
}


/// The natural key of a statement.
pub open spec fn stmt_key(s: Statement) -> (Seq<char>, Seq<char>, Seq<char>) {
    statement_key(s.bank@, opt_string_view(s.card_last4), s.due_date@)
}

fn opt_chars(o: &Option<String>) -> (r: Vec<char>)
    ensures
        r@ == last4_or_empty(opt_string_view(*o)),
{
    match o {
        Some(s) => chars_of(s.as_str()),
        None => Vec::new(),
    }
}

/// The id of the row holding a statement, found by its natural key (bank,
/// card_last4 or `""`, due_date), the tuple the store dedups on: the first
/// such row, `None` when there is none.
pub fn statement_id(rows: &Vec<StatementRow>, s: &Statement) -> (r: Option<i64>)
    ensures
        r matches Some(id) ==> exists|k: int| 0 <= k < rows@.len() && #[trigger] rows@[k].id == id
            && row_key(rows@[k]) == stmt_key(*s)
            && forall|j: int| 0 <= j < k ==> row_key(#[trigger] rows@[j]) != stmt_key(*s),
        r is None ==> forall|k: int| 0 <= k < rows@.len() ==> row_key(#[trigger] rows@[k]) != stmt_key(*s),
{
    let b = chars_of(s.bank.as_str());
    let l = opt_chars(&s.card_last4);
    let d = chars_of(s.due_date.as_str());
    let mut i: usize = 0;
    while i < rows.len()
        invariant
            i <= rows.len(),
            b@ == s.bank@,
            l@ == last4_or_empty(opt_string_view(s.card_last4)),
            d@ == s.due_date@,
            forall|k: int| 0 <= k < i ==> row_key(#[trigger] rows@[k]) != stmt_key(*s),
        decreases rows.len() - i,
    {
        let rb = chars_of(rows[i].bank.as_str());
        let rl = opt_chars(&rows[i].card_last4);
        let rd = chars_of(rows[i].due_date.as_str());
        if crate::text::same_chars(rb.as_slice(), b.as_slice())
            && crate::text::same_chars(rl.as_slice(), l.as_slice())
            && crate::text::same_chars(rd.as_slice(), d.as_slice()) {
            assert(row_key(rows@[i as int]) == stmt_key(*s));
            assert(rows@[i as int].id == rows[i as int].id);
            return Some(rows[i].id);
        }
        i = i + 1;
    }
    None
}

/// Where no two rows share a natural key (the store's unique index), the
/// row of a key is the only one: any row with the key that `statement_id`
/// reports is that row.
pub proof fn lemma_key_row_unique(rows: Seq<StatementRow>, s: Statement, k1: int, k2: int)
    requires
        forall|i: int, j: int| 0 <= i < j < rows.len() ==> row_key(#[trigger] rows[i]) != row_key(#[trigger] rows[j]),
        0 <= k1 < rows.len(),
        0 <= k2 < rows.len(),
        row_key(rows[k1]) == stmt_key(s),
        row_key(rows[k2]) == stmt_key(s),
    ensures
        k1 == k2,
{
    if k1 < k2 {
        assert(row_key(rows[k1]) != row_key(rows[k2]));
    } else if k2 < k1 {
        assert(row_key(rows[k2]) != row_key(rows[k1]));
    }
}

} // verus!
