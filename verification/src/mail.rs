//! IMAP polling decisions: the search query of a bank, reading a fetched
//! message (through the `mail-parser` crate), matching it against a bank,
//! and choosing the text a statement is read from (the plain/HTML body, or
//! the first PDF attachment whose text can be extracted). The network and
//! PDF work happen in the application, which hands the results here.

use vstd::prelude::*;
use crate::banks::{Bank, BankView, opt_string_view};
use crate::matcher::{body_text, body_text_spec, header_matches_spec, opt_str_view};
use mail_parser::MimeHeaders;
use crate::parser::Statement;
use crate::text::{chars_of, ends_with_chars, has_suffix, push_str, same_text, string_of, to_lower, unicode_lowercase};

verus! {

/// The connection settings of one mailbox.
#[derive(Debug, Clone)]
pub struct ImapConfig {
    pub host: String,
    pub port: u16,
    pub user: String,
    pub password: String,
    pub mailbox: String,
}

/// IMAP form fields sent from the setup wizard.
#[derive(Debug, Clone)]
pub struct ImapForm {
    pub host: String,
    pub port: u16,
    pub user: String,
    pub password: String,
    pub mailbox: String,
}

impl ImapForm {
    /// The connection settings the form describes.
    pub fn into_config(self) -> (c: ImapConfig)
        ensures
            c.host == self.host,
            c.port == self.port,
            c.user == self.user,
            c.password == self.password,
            c.mailbox == self.mailbox,
    {
        ImapConfig { host: self.host, port: self.port, user: self.user, password: self.password, mailbox: self.mailbox }
    }
}

/// A statement found by a scan, with the PDF it was read from, if any.
#[derive(Debug)]
pub struct Scanned {
    pub statement: Statement,
    pub pdf: Option<Vec<u8>>,
}

// ---------------------------------------------------------------------------
// The search query
// ---------------------------------------------------------------------------

/// `SINCE {since}`, plus ` FROM "{from}"` when the bank's From needle is
/// ASCII (non-ASCII IMAP SEARCH is unreliable; headers are matched again
/// after fetching anyway).
pub open spec fn imap_query_text(since: Seq<char>, match_from: Option<Seq<char>>) -> Seq<char> {
    let base = "SINCE "@ + since;
    match match_from {
        Some(f) => if vstd::utf8::is_ascii_chars(f) { base + " FROM \""@ + f + "\""@ } else { base },
        None => base,
    }
}

/// The IMAP SEARCH query of a bank over the look-back window.
pub fn imap_query(since: &str, bank: &Bank) -> (q: String)
    ensures
        q@ == imap_query_text(since@, bank@.match_from),
{
    let mut out: Vec<char> = Vec::new();
    push_str(&mut out, "SINCE ");
    push_str(&mut out, since);
    if let Some(f) = bank.match_from() {
        if f.as_str().is_ascii() {
            push_str(&mut out, " FROM \"");
            push_str(&mut out, f.as_str());
            push_str(&mut out, "\"");
        }
    }
    assert(out@ =~= imap_query_text(since@, bank@.match_from));
    string_of(out.as_slice())
}

// ---------------------------------------------------------------------------
// Reading a message (mail-parser)
// ---------------------------------------------------------------------------

/// The From addresses (display name, address) and the Subject of a raw
/// RFC 822 message as `mail-parser` reads them; `None` if it cannot parse it.
pub uninterp spec fn mail_headers_of(raw: Seq<u8>) -> Option<(Seq<(Option<Seq<char>>, Option<Seq<char>>)>, Option<Seq<char>>)>;

/// The first plain-text and first HTML body of a raw message as
/// `mail-parser` gives them (`body_text(0)`, `body_html(0)`).
pub uninterp spec fn mail_bodies_of(raw: Seq<u8>) -> Option<(Option<Seq<char>>, Option<Seq<char>>)>;

/// The attachments of a raw message as `mail-parser` lists them: file name,
/// content type and subtype, and decoded contents.
pub uninterp spec fn mail_attachments_of(raw: Seq<u8>) -> Option<Seq<(Option<Seq<char>>, Seq<char>, Option<Seq<char>>, Seq<u8>)>>;

pub open spec fn addrs_view(v: Seq<(Option<String>, Option<String>)>) -> Seq<(Option<Seq<char>>, Option<Seq<char>>)> {
    v.map_values(|a: (Option<String>, Option<String>)| (opt_string_view(a.0), opt_string_view(a.1)))
}

pub open spec fn atts_view(v: Seq<(Option<String>, String, Option<String>, Vec<u8>)>) -> Seq<(Option<Seq<char>>, Seq<char>, Option<Seq<char>>, Seq<u8>)> {
    v.map_values(|a: (Option<String>, String, Option<String>, Vec<u8>)| (opt_string_view(a.0), a.1@, opt_string_view(a.2), a.3@))
}

/// `MessageParser::parse`, then the From addresses and the Subject.
#[verifier::external_body]
pub(crate) fn mail_headers(raw: &[u8]) -> (r: Option<(Vec<(Option<String>, Option<String>)>, Option<String>)>)
    ensures
        r is Some <==> mail_headers_of(raw@) is Some,
        r matches Some(h) ==> (addrs_view(h.0@), opt_string_view(h.1)) == mail_headers_of(raw@).unwrap(),
{
    let m = mail_parser::MessageParser::default().parse(raw)?;
    let from = m.from().map(|a| a.iter().map(|x| (x.name().map(String::from), x.address().map(String::from))).collect());
    Some((from.unwrap_or_default(), m.subject().map(String::from)))
}

/// `MessageParser::parse`, then `body_text(0)` and `body_html(0)`.
#[verifier::external_body]
pub(crate) fn mail_bodies(raw: &[u8]) -> (r: Option<(Option<String>, Option<String>)>)
    ensures
        r is Some <==> mail_bodies_of(raw@) is Some,
        r matches Some(b) ==> (opt_string_view(b.0), opt_string_view(b.1)) == mail_bodies_of(raw@).unwrap(),
{
    let m = mail_parser::MessageParser::default().parse(raw)?;
    Some((m.body_text(0).map(|t| t.into_owned()), m.body_html(0).map(|t| t.into_owned())))
}

/// `MessageParser::parse`, then each attachment's name, content type and
/// contents.
#[verifier::external_body]
pub(crate) fn mail_attachments(raw: &[u8]) -> (r: Option<Vec<(Option<String>, String, Option<String>, Vec<u8>)>>)
    ensures
        r is Some <==> mail_attachments_of(raw@) is Some,
        r matches Some(a) ==> atts_view(a@) == mail_attachments_of(raw@).unwrap(),
{
    let m = mail_parser::MessageParser::default().parse(raw)?;
    Some(m.attachments().map(|p| {
        let ct = p.content_type();
        (p.attachment_name().map(String::from), ct.map(|c| c.ctype().to_string()).unwrap_or_default(),
            ct.and_then(|c| c.subtype().map(String::from)), p.contents().to_vec())
    }).collect())
}

// ---------------------------------------------------------------------------
// Matching a message
// ---------------------------------------------------------------------------

pub open spec fn opt_or_empty(o: Option<Seq<char>>) -> Seq<char> {
    match o {
        Some(s) => s,
        None => Seq::empty(),
    }
}

/// An address header flattened into a searchable `"Name address "` string:
/// for each address its display name and its address, each followed by a
/// space, when present.
pub open spec fn header_text_spec(addrs: Seq<(Option<Seq<char>>, Option<Seq<char>>)>) -> Seq<char>
    decreases addrs.len(),
{
    if addrs.len() == 0 {
        Seq::empty()
    } else {
        let a = addrs.last();
        header_text_spec(addrs.drop_last())
            + match a.0 { Some(n) => n + seq![' '], None => Seq::<char>::empty() }
            + match a.1 { Some(e) => e + seq![' '], None => Seq::<char>::empty() }
    }
}

/// Flatten an address header into a searchable "Name <addr>" string.
pub fn header_text(addrs: &Vec<(Option<String>, Option<String>)>) -> (s: String)
    ensures
        s@ == header_text_spec(addrs_view(addrs@)),
{
    let mut out: Vec<char> = Vec::new();
    let mut i: usize = 0;
    while i < addrs.len()
        invariant
            i <= addrs.len(),
            out@ == header_text_spec(addrs_view(addrs@).take(i as int)),
        decreases addrs.len() - i,
    {
        let ghost before = out@;
        if let Some(n) = &addrs[i].0 {
            push_str(&mut out, n.as_str());
            out.push(' ');
        }
        let ghost mid = out@;
        if let Some(e) = &addrs[i].1 {
            push_str(&mut out, e.as_str());
            out.push(' ');
        }
        proof {
            let v = addrs_view(addrs@);
            assert(v.take(i + 1).drop_last() =~= v.take(i as int));
            assert(v.take(i + 1).last() == v[i as int]);
            assert(out@ =~= header_text_spec(v.take(i + 1)));
        }
        i = i + 1;
    }
    assert(addrs_view(addrs@).take(addrs.len() as int) =~= addrs_view(addrs@));
    string_of(out.as_slice())
}

/// ASCII case folding of one character.
pub open spec fn ascii_fold(c: char) -> int {
    if 'A' <= c && c <= 'Z' { (c as int) + 32 } else { c as int }
}

/// Equal ignoring ASCII case (`str::eq_ignore_ascii_case`).
pub open spec fn eq_ignore_ascii_case(a: Seq<char>, b: Seq<char>) -> bool {
    a.len() == b.len() && forall|i: int| 0 <= i < a.len() ==> ascii_fold(#[trigger] a[i]) == ascii_fold(b[i])
}

fn fold(c: char) -> (r: u32)
    ensures
        r == ascii_fold(c),
{
    if 'A' <= c && c <= 'Z' { (c as u32) + 32 } else { c as u32 }
}

fn same_ignoring_ascii_case(a: &str, b: &str) -> (r: bool)
    ensures
        r == eq_ignore_ascii_case(a@, b@),
{
    let x = chars_of(a);
    let y = chars_of(b);
    if x.len() != y.len() {
        return false;
    }
    let mut i: usize = 0;
    while i < x.len()
        invariant
            i <= x.len(),
            x.len() == y.len(),
            x@ == a@,
            y@ == b@,
            forall|j: int| 0 <= j < i ==> ascii_fold(#[trigger] x@[j]) == ascii_fold(y@[j]),
        decreases x.len() - i,
    {
        if fold(x[i]) != fold(y[i]) {
            return false;
        }
        i = i + 1;
    }
    true
}

/// A PDF attachment: content type `application/pdf` (ASCII case ignored), or
/// a file name ending in `.pdf` once lowercased.
pub open spec fn is_pdf_attachment(a: (Option<Seq<char>>, Seq<char>, Option<Seq<char>>, Seq<u8>)) -> bool {
    (eq_ignore_ascii_case(a.1, "application"@) && (a.2 matches Some(st) && eq_ignore_ascii_case(st, "pdf"@)))
        || (a.0 matches Some(n) && has_suffix(unicode_lowercase(n), ".pdf"@))
}

fn pdf_attachment(a: &(Option<String>, String, Option<String>, Vec<u8>)) -> (r: bool)
    ensures
        r == is_pdf_attachment((opt_string_view(a.0), a.1@, opt_string_view(a.2), a.3@)),
{
    let by_type = same_ignoring_ascii_case(a.1.as_str(), "application") && match &a.2 {
        Some(st) => same_ignoring_ascii_case(st.as_str(), "pdf"),
        None => false,
    };
    if by_type {
        return true;
    }
    match &a.0 {
        Some(n) => {
            let l = to_lower(n.as_str());
            let lc = chars_of(l.as_str());
            let suffix = chars_of(".pdf");
            ends_with_chars(lc.as_slice(), suffix.as_slice())
        },
        None => false,
    }
}

/// The contents of the PDF attachments, in message order.
pub open spec fn pdf_contents(atts: Seq<(Option<Seq<char>>, Seq<char>, Option<Seq<char>>, Seq<u8>)>) -> Seq<Seq<u8>>
    decreases atts.len(),
{
    if atts.len() == 0 {
        Seq::empty()
    } else if is_pdf_attachment(atts.last()) {
        pdf_contents(atts.drop_last()).push(atts.last().3)
    } else {
        pdf_contents(atts.drop_last())
    }
}

/// What to read a statement from, for one message and one bank.
#[derive(Debug)]
pub enum MessagePlan {
    /// The message is not this bank's statement (or cannot be read).
    Skip,
    /// Read the statement from this body text.
    Text(String),
    /// Read it from the text of the first of these PDFs whose text can be
    /// extracted.
    Pdfs(Vec<Vec<u8>>),
}

/// What `plan_message` decides: skip a message that does not parse or does
/// not pass the bank's From/Subject needles; for a `pdf` bank, the PDF
/// attachments (skipped when PDF text extraction is unavailable); otherwise
/// the body text (plain part, else stripped HTML).
pub open spec fn plan_spec(bank: BankView, raw: Seq<u8>, pdf_available: bool, p: MessagePlan) -> bool {
    match mail_headers_of(raw) {
        None => p is Skip,
        Some((addrs, subject)) => {
            let from = header_text_spec(addrs);
            let subj = opt_or_empty(subject);
            if !(header_matches_spec(bank.match_from, from) && header_matches_spec(bank.match_subject, subj)) {
                p is Skip
            } else if bank.source == "pdf"@ {
                if !pdf_available {
                    p is Skip
                } else {
                    match mail_attachments_of(raw) {
                        None => p is Skip,
                        Some(atts) => p matches MessagePlan::Pdfs(v) && v@.map_values(|x: Vec<u8>| x@) == pdf_contents(atts),
                    }
                }
            } else {
                match mail_bodies_of(raw) {
                    None => p is Skip,
                    Some((plain, html)) => p matches MessagePlan::Text(t)
                        && t@ == body_text_spec(opt_or_empty(plain), opt_or_empty(html)),
                }
            }
        },
    }
}

fn pdfs_of(atts: Vec<(Option<String>, String, Option<String>, Vec<u8>)>) -> (r: Vec<Vec<u8>>)
    ensures
        r@.map_values(|x: Vec<u8>| x@) == pdf_contents(atts_view(atts@)),
{
    let ghost all = atts_view(atts@);
    let mut rest = atts;
    let mut out: Vec<Vec<u8>> = Vec::new();
    let mut i: usize = 0;
    let n = rest.len();
    assert(rest@ =~= atts@.skip(0));
    while rest.len() > 0
        invariant
            n == atts@.len(),
            i + rest@.len() == n,
            rest@ == atts@.skip(i as int),
            all == atts_view(atts@),
            out@.map_values(|x: Vec<u8>| x@) == pdf_contents(all.take(i as int)),
        decreases rest.len(),
    {
        let a = rest.remove(0);
        assert(a == atts@[i as int]);
        assert(rest@ =~= atts@.skip(i + 1));
        proof {
            assert(all.take(i + 1).drop_last() =~= all.take(i as int));
            assert(all.take(i + 1).last() == all[i as int]);
        }
        let ghost before = out@;
        if pdf_attachment(&a) {
            out.push(a.3);
            assert(out@.map_values(|x: Vec<u8>| x@) =~= before.map_values(|x: Vec<u8>| x@).push(all[i as int].3));
        }
        i = i + 1;
    }
    assert(all.take(n as int) =~= all);
    out
}

/// Match one raw RFC 822 message against a bank and say what to read its
/// statement from. `pdf_available` tells whether PDF text extraction can be
/// done.
pub fn plan_message(bank: &Bank, raw: &[u8], pdf_available: bool) -> (p: MessagePlan)
    ensures
        plan_spec(bank@, raw@, pdf_available, p),
{
    let (addrs, subject) = match mail_headers(raw) {
        Some(h) => h,
        None => return MessagePlan::Skip,
    };
    let from = header_text(&addrs);
    let subj: String = match subject {
        Some(s) => s,
        None => String::new(),
    };
    let mf = match bank.match_from() { Some(f) => Some(f.as_str()), None => None };
    let ms = match bank.match_subject() { Some(f) => Some(f.as_str()), None => None };
    assert(opt_str_view(mf) == bank@.match_from);
    assert(opt_str_view(ms) == bank@.match_subject);
    if !crate::matcher::matches(mf, ms, from.as_str(), subj.as_str()) {
        return MessagePlan::Skip;
    }
    if same_text(bank.source().as_str(), "pdf") {
        if !pdf_available {
            return MessagePlan::Skip;
        }
        match mail_attachments(raw) {
            None => MessagePlan::Skip,
            Some(atts) => MessagePlan::Pdfs(pdfs_of(atts)),
        }
    } else {
        match mail_bodies(raw) {
            None => MessagePlan::Skip,
            Some((plain, html)) => {
                let p = match plain { Some(s) => s, None => String::new() };
                let h = match html { Some(s) => s, None => String::new() };
                MessagePlan::Text(body_text(p.as_str(), h.as_str()))
            },
        }
    }
}

} // verus!
