//! Bank definitions: display name, color, From/Subject match rules, the
//! statement source (`body` or `pdf`), the amount writing, and the field
//! patterns that a statement is read with. Each pattern is compiled
//! case-insensitively when the pack is loaded; a pack with a pattern the
//! `regex` crate refuses is refused whole.

use vstd::prelude::*;
use crate::pattern::{groups_view, regex_accepts, regex_build, regex_capture, regex_captures, regex_error_text};
use crate::text::{chars_of, same_chars};

verus! {

/// How a bank writes amounts.
#[derive(Debug, Clone, Copy, PartialEq, Eq, Structural)]
pub enum AmountStyle {
    /// `12.345,67`: `.` groups thousands, `,` marks the decimals.
    Turkish,
    /// `12,345.67`: `,` groups thousands, `.` marks the decimals.
    Us,
}

/// A bank definition as written in the bank pack, before defaults and
/// pattern checks.
#[derive(Debug)]
pub struct RawBank {
    pub name: String,
    pub color: Option<String>,
    pub source: Option<String>,
    pub match_from: Option<String>,
    pub match_subject: Option<String>,
    pub fallback_masked: Option<String>,
    /// `"us"` for US-written amounts; anything else or nothing is Turkish.
    pub amount_format: Option<String>,
    /// Field name and pattern pairs (`card`, `total_due`, `min_due`,
    /// `due_date`, `statement_date`).
    pub fields: Vec<(String, String)>,
}

/// A bank definition whose field patterns are all accepted by the `regex`
/// crate as case-insensitive patterns.
#[derive(Debug)]
pub struct Bank {
    name: String,
    color: String,
    source: String,
    match_from: Option<String>,
    match_subject: Option<String>,
    fallback_masked: Option<String>,
    amount_style: AmountStyle,
    fields: Vec<(String, String)>,
}

/// What a bank definition holds.
pub struct BankView {
    pub name: Seq<char>,
    pub color: Seq<char>,
    pub source: Seq<char>,
    pub match_from: Option<Seq<char>>,
    pub match_subject: Option<Seq<char>>,
    pub fallback_masked: Option<Seq<char>>,
    pub amount_style: AmountStyle,
    pub fields: Seq<(Seq<char>, Seq<char>)>,
}

pub open spec fn opt_string_view(o: Option<String>) -> Option<Seq<char>> {
    match o {
        Some(s) => Some(s@),
        None => None,
    }
}

pub open spec fn pairs_view(v: Seq<(String, String)>) -> Seq<(Seq<char>, Seq<char>)> {
    v.map_values(|p: (String, String)| (p.0@, p.1@))
}

impl View for Bank {
    type V = BankView;

    closed spec fn view(&self) -> BankView {
        BankView {
            name: self.name@,
            color: self.color@,
            source: self.source@,
            match_from: opt_string_view(self.match_from),
            match_subject: opt_string_view(self.match_subject),
            fallback_masked: opt_string_view(self.fallback_masked),
            amount_style: self.amount_style,
            fields: pairs_view(self.fields@),
        }
    }
}

/// Every field pattern is one the `regex` crate accepts, case-insensitively.
pub open spec fn patterns_accepted(fields: Seq<(Seq<char>, Seq<char>)>) -> bool {
    forall|i: int| 0 <= i < fields.len() ==> regex_accepts(#[trigger] fields[i].1, true)
}

impl Bank {
    #[verifier::type_invariant]
    pub(crate) closed spec fn patterns_ok(self) -> bool {
        patterns_accepted(pairs_view(self.fields@))
    }

    pub fn name(&self) -> (r: &String)
        ensures
            r@ == self@.name,
    {
        &self.name
    }

    pub fn color(&self) -> (r: &String)
        ensures
            r@ == self@.color,
    {
        &self.color
    }

    /// `"body"` or `"pdf"`.
    pub fn source(&self) -> (r: &String)
        ensures
            r@ == self@.source,
    {
        &self.source
    }

    pub fn match_from(&self) -> (r: &Option<String>)
        ensures
            opt_string_view(*r) == self@.match_from,
    {
        &self.match_from
    }

    pub fn match_subject(&self) -> (r: &Option<String>)
        ensures
            opt_string_view(*r) == self@.match_subject,
    {
        &self.match_subject
    }

    pub fn fallback_masked(&self) -> (r: &Option<String>)
        ensures
            opt_string_view(*r) == self@.fallback_masked,
    {
        &self.fallback_masked
    }

    pub fn amount_style(&self) -> (r: AmountStyle)
        ensures
            r == self@.amount_style,
    {
        self.amount_style
    }

    /// The field name and pattern pairs.
    pub fn fields(&self) -> (r: &Vec<(String, String)>)
        ensures
            pairs_view(r@) == self@.fields,
    {
        &self.fields
    }
}

pub fn clone_opt(o: &Option<String>) -> (r: Option<String>)
    ensures
        opt_string_view(r) == opt_string_view(*o),
{
    match o {
        Some(s) => Some(s.clone()),
        None => None,
    }
}

fn clone_pairs(v: &Vec<(String, String)>) -> (r: Vec<(String, String)>)
    ensures
        pairs_view(r@) == pairs_view(v@),
{
    let mut r: Vec<(String, String)> = Vec::new();
    let mut i: usize = 0;
    while i < v.len()
        invariant
            i <= v.len(),
            r@.len() == i,
            forall|j: int| 0 <= j < i ==> (#[trigger] r@[j]).0@ == v@[j].0@ && r@[j].1@ == v@[j].1@,
        decreases v.len() - i,
    {
        let a = v[i].0.clone();
        let b = v[i].1.clone();
        r.push((a, b));
        i = i + 1;
    }
    assert(pairs_view(r@) =~= pairs_view(v@)) by {
        assert forall|j: int| 0 <= j < v@.len() implies #[trigger] pairs_view(r@)[j] == pairs_view(v@)[j] by {
            assert(r@[j].0@ == v@[j].0@ && r@[j].1@ == v@[j].1@);
        }
    }
    r
}

impl Clone for Bank {
    fn clone(&self) -> (r: Self)
        ensures
            r@ == self@,
    {
        proof {
            use_type_invariant(self);
        }
        Bank {
            name: self.name.clone(),
            color: self.color.clone(),
            source: self.source.clone(),
            match_from: clone_opt(&self.match_from),
            match_subject: clone_opt(&self.match_subject),
            fallback_masked: clone_opt(&self.fallback_masked),
            amount_style: self.amount_style,
            fields: clone_pairs(&self.fields),
        }
    }
}

/// Why a bank pack was refused.
#[derive(Debug)]
pub enum BankError {
    /// A field pattern the `regex` crate does not accept; its error text.
    InvalidPattern(String),
}

/// The amount style named in a bank pack: `"us"` or Turkish.
pub open spec fn amount_style_of(f: Option<Seq<char>>) -> AmountStyle {
    match f {
        Some(s) => if s == "us"@ { AmountStyle::Us } else { AmountStyle::Turkish },
        None => AmountStyle::Turkish,
    }
}

/// The bank that a raw definition gives: color `#666666` and source `body`
/// unless given.
pub open spec fn bank_of_raw(r: RawBank) -> BankView {
    BankView {
        name: r.name@,
        color: match r.color { Some(c) => c@, None => "#666666"@ },
        source: match r.source { Some(s) => s@, None => "body"@ },
        match_from: opt_string_view(r.match_from),
        match_subject: opt_string_view(r.match_subject),
        fallback_masked: opt_string_view(r.fallback_masked),
        amount_style: amount_style_of(opt_string_view(r.amount_format)),
        fields: pairs_view(r.fields@),
    }
}

/// Every pattern of every raw bank is accepted.
pub open spec fn raw_banks_accepted(raw: Seq<RawBank>) -> bool {
    forall|i: int| 0 <= i < raw.len() ==> patterns_accepted(#[trigger] pairs_view(raw[i].fields@))
}

fn check_patterns(fields: &Vec<(String, String)>) -> (r: Result<(), BankError>)
    ensures
        r is Ok <==> patterns_accepted(pairs_view(fields@)),
{
    let mut i: usize = 0;
    while i < fields.len()
        invariant
            i <= fields.len(),
            forall|k: int| 0 <= k < i ==> regex_accepts(#[trigger] pairs_view(fields@)[k].1, true),
        decreases fields.len() - i,
    {
        match regex_build(fields[i].1.as_str(), true) {
            Ok(()) => {},
            Err(e) => {
                assert(!regex_accepts(pairs_view(fields@)[i as int].1, true));
                return Err(BankError::InvalidPattern(regex_error_text(&e)));
            },
        }
        i = i + 1;
    }
    Ok(())
}

fn amount_style_from(f: &Option<String>) -> (r: AmountStyle)
    ensures
        r == amount_style_of(opt_string_view(*f)),
{
    match f {
        Some(s) => {
            let a = chars_of(s.as_str());
            let b = chars_of("us");
            if same_chars(a.as_slice(), b.as_slice()) {
                AmountStyle::Us
            } else {
                AmountStyle::Turkish
            }
        },
        None => AmountStyle::Turkish,
    }
}

/// The banks of a parsed bank pack, with defaults `color=#666666`,
/// `source=body`; refused when any field pattern is refused by the `regex`
/// crate (compiled case-insensitively).
pub fn banks_from_raw(raw: Vec<RawBank>) -> (r: Result<Vec<Bank>, BankError>)
    ensures
        r is Ok <==> raw_banks_accepted(raw@),
        r matches Ok(banks) ==> banks@.len() == raw@.len()
            && forall|i: int| 0 <= i < raw@.len() ==> #[trigger] banks@[i]@ == bank_of_raw(raw@[i]),
{
    let mut banks: Vec<Bank> = Vec::with_capacity(raw.len());
    let ghost all = raw@;
    let mut rest = raw;
    let n = rest.len();
    assert(all.skip(0) =~= all);
    while rest.len() > 0
        invariant
            all == raw@,
            n == all.len(),
            banks@.len() + rest@.len() == n,
            rest@ =~= all.skip(banks@.len() as int),
            forall|k: int| 0 <= k < banks@.len() ==> #[trigger] banks@[k]@ == bank_of_raw(all[k]),
            forall|k: int| 0 <= k < banks@.len() ==> patterns_accepted(#[trigger] pairs_view(all[k].fields@)),
        decreases rest.len(),
    {
        let b = rest.remove(0);
        let ghost k = banks@.len() as int;
        assert(b == all[k]);
        assert(rest@ =~= all.skip(k + 1));
        match check_patterns(&b.fields) {
            Ok(()) => {},
            Err(e) => {
                assert(!patterns_accepted(pairs_view(all[k].fields@)));
                assert(0 <= k < all.len() && !patterns_accepted(pairs_view(all[k].fields@)));
                assert(!raw_banks_accepted(all));
                return Err(e);
            },
        }
        let color = match b.color {
            Some(c) => c,
            None => "#666666".to_string(),
        };
        let source = match b.source {
            Some(s) => s,
            None => "body".to_string(),
        };
        let style = amount_style_from(&b.amount_format);
        banks.push(Bank {
            name: b.name,
            color,
            source,
            match_from: b.match_from,
            match_subject: b.match_subject,
            fallback_masked: b.fallback_masked,
            amount_style: style,
            fields: b.fields,
        });
    }
    Ok(banks)
}


// ---------------------------------------------------------------------------
// Field patterns
// ---------------------------------------------------------------------------

/// The pattern of field `key` of a bank: the first pair with that name.
pub open spec fn field_pattern(fields: Seq<(Seq<char>, Seq<char>)>, key: Seq<char>) -> Option<Seq<char>>
    decreases fields.len(),
{
    if fields.len() == 0 {
        None
    } else if fields[0].0 == key {
        Some(fields[0].1)
    } else {
        field_pattern(fields.drop_first(), key)
    }
}

proof fn lemma_field_pattern_accepted(fields: Seq<(Seq<char>, Seq<char>)>, key: Seq<char>)
    requires
        patterns_accepted(fields),
    ensures
        field_pattern(fields, key) matches Some(p) ==> regex_accepts(p, true),
    decreases fields.len(),
{
    if fields.len() > 0 && fields[0].0 != key {
        assert(patterns_accepted(fields.drop_first())) by {
            assert forall|i: int| 0 <= i < fields.drop_first().len()
                implies regex_accepts(#[trigger] fields.drop_first()[i].1, true) by {
                assert(fields.drop_first()[i] == fields[i + 1]);
            }
        }
        lemma_field_pattern_accepted(fields.drop_first(), key);
    } else if fields.len() > 0 {
        assert(regex_accepts(fields[0].1, true));
    }
}

/// The groups that field `key` of `bank` captures in `text`: `None` when the
/// bank has no such field or its pattern does not match.
pub open spec fn field_groups(bank: BankView, key: Seq<char>, text: Seq<char>) -> Option<Seq<Option<Seq<char>>>> {
    match field_pattern(bank.fields, key) {
        Some(p) => regex_captures(p, true, text),
        None => None,
    }
}

pub open spec fn caps_view(c: Option<Vec<Option<String>>>) -> Option<Seq<Option<Seq<char>>>> {
    match c {
        Some(g) => Some(groups_view(g@)),
        None => None,
    }
}

fn find_pattern(fields: &Vec<(String, String)>, key: &str) -> (r: Option<usize>)
    ensures
        match r {
            Some(i) => i < fields@.len() && field_pattern(pairs_view(fields@), key@) == Some(fields@[i as int].1@),
            None => field_pattern(pairs_view(fields@), key@) is None,
        },
{
    let k = chars_of(key);
    let mut i: usize = 0;
    let ghost all = pairs_view(fields@);
    assert(all.skip(0) =~= all);
    while i < fields.len()
        invariant
            i <= fields.len(),
            all == pairs_view(fields@),
            k@ == key@,
            field_pattern(all, key@) == field_pattern(all.skip(i as int), key@),
        decreases fields.len() - i,
    {
        let name = chars_of(fields[i].0.as_str());
        assert(all.skip(i as int)[0] == all[i as int]);
        assert(all[i as int] == (fields@[i as int].0@, fields@[i as int].1@));
        let ghost rest = all.skip(i as int);
        if same_chars(name.as_slice(), k.as_slice()) {
            assert(rest[0].0 == key@);
            assert(field_pattern(rest, key@) == Some(rest[0].1));
            return Some(i);
        }
        assert(rest[0].0 != key@);
        assert(field_pattern(rest, key@) == field_pattern(rest.drop_first(), key@));
        assert(rest.drop_first() =~= all.skip(i + 1));
        i = i + 1;
    }
    None
}

impl Bank {
    /// The groups that field `key` captures in `text` (its pattern compiled
    /// case-insensitively); `None` when the bank has no such field or it
    /// does not match.
    pub fn capture(&self, key: &str, text: &str) -> (r: Option<Vec<Option<String>>>)
        ensures
            caps_view(r) == field_groups(self@, key@, text@),
    {
        proof {
            use_type_invariant(self);
            lemma_field_pattern_accepted(self@.fields, key@);
        }
        match find_pattern(&self.fields, key) {
            Some(i) => regex_capture(self.fields[i].1.as_str(), true, text),
            None => None,
        }
    }
}

} // verus!
