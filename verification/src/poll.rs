//! The decisions of a poll and of the reminder pass. The application runs
//! the loops (IMAP sessions, the keychain, the store, notifications) and
//! reports each outcome here; these functions say what follows.

use vstd::prelude::*;
use crate::calendar::{days_left, days_left_defined, days_left_spec};
use crate::config::Config;
use crate::format::{body_parts, lead_title_text, reminder_body, reminder_title_lead};
use crate::store::StatementRow;
use crate::text::{chars_of, int_text, join_strings, join_with, push_int_text, push_str, string_of, views_of};

verus! {

/// The running count of a poll over all accounts.
#[derive(Debug)]
pub struct PollTally {
    added: usize,
    succeeded: usize,
    errors: Vec<String>,
}

/// The error of a poll without any account.
pub open spec fn not_configured_text() -> Seq<char> {
    "E-posta hesabı henüz ayarlanmadı."@
}

pub fn not_configured_error() -> (s: String)
    ensures
        s@ == not_configured_text(),
{
    string_of(chars_of("E-posta hesabı henüz ayarlanmadı.").as_slice())
}

/// Whether a poll can start: it needs at least one account, else it fails
/// with `not_configured_text`.
pub fn poll_precheck(cfg: &Config) -> (r: Result<(), String>)
    ensures
        r is Ok <==> cfg.accounts@.len() > 0,
        r matches Err(e) ==> e@ == not_configured_text(),
{
    if cfg.is_configured() {
        Ok(())
    } else {
        Err(not_configured_error())
    }
}

/// The look-back window of a poll: the override when given, else the
/// configured one.
pub fn lookback_days(over: Option<i64>, cfg: &Config) -> (r: i64)
    ensures
        r == match over { Some(d) => d, None => cfg.lookback_days },
{
    match over {
        Some(d) => d,
        None => cfg.lookback_days,
    }
}

/// A password that is set: `None` for a missing or empty one.
pub fn usable_password(p: Option<String>) -> (r: Option<String>)
    ensures
        match p {
            Some(s) => if s@.len() > 0 { r == Some(s) } else { r is None },
            None => r is None,
        },
{
    match p {
        Some(s) => if chars_of(s.as_str()).len() > 0 { Some(s) } else { None },
        None => None,
    }
}

impl PollTally {
    pub closed spec fn added_spec(&self) -> nat {
        self.added as nat
    }

    pub closed spec fn succeeded_spec(&self) -> nat {
        self.succeeded as nat
    }

    pub closed spec fn errors_spec(&self) -> Seq<Seq<char>> {
        views_of(self.errors@)
    }

    /// No account scanned yet.
    pub fn new() -> (t: Self)
        ensures
            t.added_spec() == 0,
            t.succeeded_spec() == 0,
            t.errors_spec() == Seq::<Seq<char>>::empty(),
    {
        let t = PollTally { added: 0, succeeded: 0, errors: Vec::new() };
        assert(t.errors_spec() =~= Seq::<Seq<char>>::empty());
        t
    }

    /// Statements added so far.
    pub fn added(&self) -> (r: usize)
        ensures
            r == self.added_spec(),
    {
        self.added
    }

    /// Accounts scanned so far.
    pub fn succeeded(&self) -> (r: usize)
        ensures
            r == self.succeeded_spec(),
    {
        self.succeeded
    }

    /// The errors so far, one line per failed account.
    pub fn errors(&self) -> (r: &Vec<String>)
        ensures
            views_of(r@) == self.errors_spec(),
    {
        &self.errors
    }

    /// An account without a stored password: `"{user}: IMAP parolası ayarlı değil"`.
    pub fn missing_password(&mut self, user: &str)
        ensures
            final(self).added_spec() == old(self).added_spec(),
            final(self).succeeded_spec() == old(self).succeeded_spec(),
            final(self).errors_spec() == old(self).errors_spec().push(user@ + ": IMAP parolası ayarlı değil"@),
    {
        let mut v: Vec<char> = Vec::new();
        push_str(&mut v, user);
        push_str(&mut v, ": IMAP parolası ayarlı değil");
        self.errors.push(string_of(v.as_slice()));
        assert(self.errors_spec() =~= old(self).errors_spec().push(user@ + ": IMAP parolası ayarlı değil"@));
    }

    /// An account whose scan failed: `"{user}: {error}"`.
    pub fn scan_failed(&mut self, user: &str, error: &str)
        ensures
            final(self).added_spec() == old(self).added_spec(),
            final(self).succeeded_spec() == old(self).succeeded_spec(),
            final(self).errors_spec() == old(self).errors_spec().push(user@ + ": "@ + error@),
    {
        let mut v: Vec<char> = Vec::new();
        push_str(&mut v, user);
        push_str(&mut v, ": ");
        push_str(&mut v, error);
        self.errors.push(string_of(v.as_slice()));
        assert(self.errors_spec() =~= old(self).errors_spec().push(user@ + ": "@ + error@));
    }

    /// An account scanned.
    pub fn scan_succeeded(&mut self)
        requires
            old(self).succeeded_spec() < usize::MAX,
        ensures
            final(self).added_spec() == old(self).added_spec(),
            final(self).succeeded_spec() == old(self).succeeded_spec() + 1,
            final(self).errors_spec() == old(self).errors_spec(),
    {
        self.succeeded = self.succeeded + 1;
    }

    /// A statement newly stored.
    pub fn statement_added(&mut self)
        requires
            old(self).added_spec() < usize::MAX,
        ensures
            final(self).added_spec() == old(self).added_spec() + 1,
            final(self).succeeded_spec() == old(self).succeeded_spec(),
            final(self).errors_spec() == old(self).errors_spec(),
    {
        self.added = self.added + 1;
    }

    /// The outcome of the poll: the statements added, as long as at least one
    /// account was scanned; errors only surface when every account failed,
    /// as `"IMAP taraması başarısız: "` and the errors joined with ` · `.
    pub fn finish(&self) -> (r: Result<usize, String>)
        ensures
            self.succeeded_spec() > 0 ==> r == Ok::<usize, String>(self.added_spec() as usize),
            self.succeeded_spec() == 0 ==> (r matches Err(e)
                && e@ == "IMAP taraması başarısız: "@ + join_with(self.errors_spec(), " · "@)),
    {
        if self.succeeded == 0 {
            let j = join_strings(&self.errors, " · ");
            let mut v: Vec<char> = Vec::new();
            push_str(&mut v, "IMAP taraması başarısız: ");
            push_str(&mut v, j.as_str());
            assert(v@ =~= "IMAP taraması başarısız: "@ + join_with(self.errors_spec(), " · "@));
            Err(string_of(v.as_slice()))
        } else {
            Ok(self.added)
        }
    }
}

// ---------------------------------------------------------------------------
// Reminders
// ---------------------------------------------------------------------------

/// Reminders are sent from the configured hour on, to avoid odd-hour pings.
pub fn reminders_allowed(local_hour: u32, cfg: &Config) -> (r: bool)
    ensures
        r == (local_hour >= cfg.reminder_hour),
{
    local_hour >= cfg.reminder_hour
}

/// The date modifier of the reminder window: `"+{n} days"` with the lead
/// days, negative leads counted as 0.
pub fn reminder_window_modifier(days_before: i64) -> (s: String)
    ensures
        s@ == "+"@ + int_text(if days_before > 0 { days_before as int } else { 0 }) + " days"@,
{
    let n: i64 = if days_before > 0 { days_before } else { 0 };
    let mut v: Vec<char> = Vec::new();
    push_str(&mut v, "+");
    push_int_text(&mut v, n);
    push_str(&mut v, " days");
    assert(v@ =~= "+"@ + int_text(n as int) + " days"@);
    string_of(v.as_slice())
}

/// The title and body of the notification of a due statement on `today`:
/// the title names the days left (0 when they cannot be told).
pub fn reminder_notification(row: &StatementRow, today: &str) -> (r: (String, String))
    requires
        days_left_defined(row.due_date@, today@),
    ensures
        r.0@ == lead_title_text(*row, match days_left_spec(row.due_date@, today@) { Some(n) => n as i64, None => 0 }),
        r.1@ == join_with(body_parts(*row), " · "@),
{
    let left = match days_left(row.due_date.as_str(), today) {
        Some(n) => n,
        None => 0,
    };
    (reminder_title_lead(row, left), reminder_body(row))
}

/// The ids of the due rows whose notification was sent (`sent[i]` for
/// `rows[i]`), in order: those get marked reminded; the others are tried
/// again at the next pass. Rows past the end of `sent` count as not sent.
pub open spec fn sent_ids(rows: Seq<StatementRow>, sent: Seq<bool>) -> Seq<i64>
    decreases rows.len(),
{
    if rows.len() == 0 || sent.len() == 0 {
        Seq::empty()
    } else {
        let rest = sent_ids(rows.drop_first(), sent.drop_first());
        if sent[0] { seq![rows[0].id] + rest } else { rest }
    }
}

/// The rows to mark reminded after a reminder pass: those whose
/// notification was sent (send before mark, so a failed notification is
/// retried).
pub fn rows_to_mark(rows: &Vec<StatementRow>, sent: &Vec<bool>) -> (r: Vec<i64>)
    ensures
        r@ == sent_ids(rows@, sent@),
{
    let mut r: Vec<i64> = Vec::new();
    let mut i: usize = 0;
    assert(rows@.skip(0) =~= rows@);
    assert(sent@.skip(0) =~= sent@);
    while i < rows.len() && i < sent.len()
        invariant
            i <= rows.len(),
            i <= sent.len(),
            r@ + sent_ids(rows@.skip(i as int), sent@.skip(i as int)) == sent_ids(rows@, sent@),
        decreases rows.len() - i,
    {
        let ghost a = rows@.skip(i as int);
        let ghost b = sent@.skip(i as int);
        assert(a.drop_first() =~= rows@.skip(i + 1));
        assert(b.drop_first() =~= sent@.skip(i + 1));
        assert(a[0] == rows@[i as int]);
        assert(b[0] == sent@[i as int]);
        let ghost before = r@;
        if sent[i] {
            r.push(rows[i].id);
            assert(r@ + sent_ids(rows@.skip(i + 1), sent@.skip(i + 1))
                =~= before + sent_ids(a, b));
        }
        i = i + 1;
    }
    assert(sent_ids(rows@.skip(i as int), sent@.skip(i as int)) == Seq::<i64>::empty());
    assert(r@ + Seq::<i64>::empty() =~= r@);
    r
}

} // verus!
