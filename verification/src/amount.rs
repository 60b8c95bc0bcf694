//! Money amounts. An amount is held as a whole number of kuruş (hundredths
//! of a lira) in an `i64`; statements print amounts with two decimals.
//! Reading Turkish (`12.345,67`) and US (`10,964.11`) writings, and writing
//! the Turkish one.

use vstd::prelude::*;
use crate::text::{
    all_digits, digit_of, digit_to_char, digit_value, digits_value, is_digit, lemma_digits_value_nonneg,
    lemma_digits_value_prefix, lemma_nat_text_digits, nat_text, push_nat_text, string_of, chars_of,
};

verus! {

// ---------------------------------------------------------------------------
// Text rewriting steps
// ---------------------------------------------------------------------------

/// `s` without any `c` (`str::replace(c, "")`).
pub open spec fn remove_char(s: Seq<char>, c: char) -> Seq<char>
    decreases s.len(),
{
    if s.len() == 0 {
        s
    } else if s.last() == c {
        remove_char(s.drop_last(), c)
    } else {
        remove_char(s.drop_last(), c).push(s.last())
    }
}

/// `s` without the occurrences of the pair `ab`, found left to right
/// (`str::replace("ab", "")`).
pub open spec fn remove_pair(s: Seq<char>, a: char, b: char) -> Seq<char>
    decreases s.len(),
{
    if s.len() == 0 {
        s
    } else if s.len() >= 2 && s[0] == a && s[1] == b {
        remove_pair(s.skip(2), a, b)
    } else {
        seq![s[0]] + remove_pair(s.drop_first(), a, b)
    }
}

/// `s` with every `a` replaced by `b` (`str::replace(a, b)`).
pub open spec fn replace_char(s: Seq<char>, a: char, b: char) -> Seq<char> {
    s.map_values(|x: char| if x == a { b } else { x })
}

fn remove_char_exec(s: &[char], c: char) -> (r: Vec<char>)
    ensures
        r@ == remove_char(s@, c),
{
    let mut r: Vec<char> = Vec::new();
    let mut i: usize = 0;
    while i < s.len()
        invariant
            i <= s.len(),
            r@ == remove_char(s@.take(i as int), c),
        decreases s.len() - i,
    {
        assert(s@.take(i + 1).drop_last() =~= s@.take(i as int));
        if s[i] != c {
            r.push(s[i]);
        }
        i = i + 1;
    }
    assert(s@.take(s.len() as int) =~= s@);
    r
}

fn remove_pair_exec(s: &[char], a: char, b: char) -> (r: Vec<char>)
    ensures
        r@ == remove_pair(s@, a, b),
{
    let mut r: Vec<char> = Vec::new();
    let mut i: usize = 0;
    assert(s@.skip(0) =~= s@);
    assert(r@ + remove_pair(s@, a, b) =~= remove_pair(s@, a, b));
    while i < s.len()
        invariant
            i <= s.len(),
            r@ + remove_pair(s@.skip(i as int), a, b) == remove_pair(s@, a, b),
        decreases s.len() - i,
    {
        let ghost rest = s@.skip(i as int);
        if i + 1 < s.len() && s[i] == a && s[i + 1] == b {
            assert(rest.skip(2) =~= s@.skip(i + 2));
            i = i + 2;
        } else {
            assert(rest.drop_first() =~= s@.skip(i + 1));
            r.push(s[i]);
            i = i + 1;
            assert(r@ + remove_pair(s@.skip(i as int), a, b) =~= remove_pair(s@, a, b));
        }
    }
    assert(s@.skip(i as int) =~= Seq::<char>::empty());
    assert(r@ + Seq::<char>::empty() =~= r@);
    r
}

fn replace_char_exec(s: &[char], a: char, b: char) -> (r: Vec<char>)
    ensures
        r@ == replace_char(s@, a, b),
{
    let mut r: Vec<char> = Vec::new();
    let mut i: usize = 0;
    while i < s.len()
        invariant
            i <= s.len(),
            r@ =~= replace_char(s@.take(i as int), a, b),
        decreases s.len() - i,
    {
        if s[i] == a {
            r.push(b);
        } else {
            r.push(s[i]);
        }
        i = i + 1;
        assert(r@ =~= replace_char(s@.take(i as int), a, b));
    }
    assert(s@.take(s.len() as int) =~= s@);
    r
}

// ---------------------------------------------------------------------------
// Decimal numbers, in kuruş
// ---------------------------------------------------------------------------

/// The index of the first `c` in `s`, or `s.len()`.
pub open spec fn first_index_of(s: Seq<char>, c: char) -> int
    decreases s.len(),
{
    if s.len() == 0 {
        0
    } else if s[0] == c {
        0
    } else {
        1 + first_index_of(s.drop_first(), c)
    }
}

/// The kuruş of decimal digits `f`, rounded to the nearest kuruş, halves
/// up: `"5"` is 50, `"05"` is 5, `""` is 0, `"125"` is 13, `"999"` is 100.
pub open spec fn cents_of(f: Seq<char>) -> int {
    let d0 = if f.len() >= 1 { digit_value(f[0]) } else { 0 };
    let d1 = if f.len() >= 2 { digit_value(f[1]) } else { 0 };
    let up = if f.len() >= 3 && digit_value(f[2]) >= 5 { 1int } else { 0int };
    d0 * 10 + d1 + up
}

/// The amount in kuruş written by a decimal number with `.` as the decimal
/// point: an optional `+`/`-`, integer digits, then optionally `.` and
/// decimal digits, with at least one digit in all; the value is rounded to
/// the nearest kuruş, halves away from zero.
pub open spec fn decimal_kurus(s: Seq<char>) -> Option<int> {
    let neg = s.len() > 0 && s[0] == '-';
    let body = if s.len() > 0 && (s[0] == '+' || s[0] == '-') { s.drop_first() } else { s };
    let p = first_index_of(body, '.');
    let int_part = body.take(p);
    let frac = if p < body.len() { body.skip(p + 1) } else { Seq::<char>::empty() };
    if all_digits(int_part) && all_digits(frac)
        && (int_part.len() > 0 || frac.len() > 0) {
        let v = digits_value(int_part) * 100 + cents_of(frac);
        Some(if neg { -v } else { v })
    } else {
        None
    }
}

/// `decimal_kurus` within the range of `i64`.
pub open spec fn decimal_kurus_i64(s: Seq<char>) -> Option<int> {
    match decimal_kurus(s) {
        Some(v) => if i64::MIN <= v <= i64::MAX { Some(v) } else { None },
        None => None,
    }
}

proof fn lemma_first_index_of(s: Seq<char>, c: char)
    ensures
        0 <= first_index_of(s, c) <= s.len(),
        first_index_of(s, c) < s.len() ==> s[first_index_of(s, c)] == c,
        forall|i: int| 0 <= i < first_index_of(s, c) ==> s[i] != c,
    decreases s.len(),
{
    if s.len() > 0 && s[0] != c {
        lemma_first_index_of(s.drop_first(), c);
        assert forall|i: int| 0 <= i < first_index_of(s, c) implies s[i] != c by {
            if i > 0 {
                assert(s[i] == s.drop_first()[i - 1]);
            }
        }
    }
}

proof fn lemma_first_index_of_unique(s: Seq<char>, c: char, p: int)
    requires
        0 <= p <= s.len(),
        p < s.len() ==> s[p] == c,
        forall|i: int| 0 <= i < p ==> s[i] != c,
    ensures
        first_index_of(s, c) == p,
    decreases s.len(),
{
    if s.len() > 0 && p > 0 {
        assert forall|i: int| 0 <= i < p - 1 implies s.drop_first()[i] != c by {
            assert(s.drop_first()[i] == s[i + 1]);
        }
        lemma_first_index_of_unique(s.drop_first(), c, p - 1);
    }
}

/// Reads digits `s[from..to]` with a bound: `Some(value)` when all are digits
/// and the value is at most `limit`, `None` when not all are digits; when
/// the value exceeds `limit` the result is `Some` of something above `limit`.
fn read_digits(s: &[char], from: usize, to: usize, limit: i128) -> (r: Option<i128>)
    requires
        from <= to <= s.len(),
        0 <= limit <= 0x1_0000_0000_0000_0000,
    ensures
        r is None <==> !all_digits(s@.subrange(from as int, to as int)),
        r matches Some(v) ==> v >= 0,
        r matches Some(v) ==> (v <= limit ==> v == digits_value(s@.subrange(from as int, to as int))),
        r matches Some(v) ==> (v > limit ==> digits_value(s@.subrange(from as int, to as int)) > limit),
{
    let ghost body = s@.subrange(from as int, to as int);
    let mut v: i128 = 0;
    let mut i: usize = from;
    let mut over = false;
    while i < to
        invariant
            from <= i <= to <= s.len(),
            body == s@.subrange(from as int, to as int),
            0 <= limit <= 0x1_0000_0000_0000_0000,
            all_digits(body.take(i - from)),
            !over ==> v == digits_value(body.take(i - from)),
            !over ==> 0 <= v <= limit,
            over ==> v == limit + 1,
            over ==> digits_value(body.take(i - from)) > limit,
        decreases to - i,
    {
        let c = s[i];
        if !('0' <= c && c <= '9') {
            assert(!is_digit(body[i - from]));
            return None;
        }
        assert(body.take(i - from + 1).drop_last() =~= body.take(i - from));
        proof {
            assert forall|j: int| 0 <= j < i - from + 1 implies is_digit(#[trigger] body.take(i - from + 1)[j]) by {
                if j < i - from {
                    assert(body.take(i - from + 1)[j] == body.take(i - from)[j]);
                }
            }
            lemma_digits_value_nonneg(body.take(i - from));
        }
        if !over {
            let d = (c as u32) - ('0' as u32);
            v = v * 10 + d as i128;
            if v > limit {
                over = true;
                v = limit + 1;
            }
        }
        i = i + 1;
    }
    assert(body.take(to - from) =~= body);
    Some(v)
}

/// `decimal_kurus_i64` of `s`.
#[verifier::rlimit(40)]
fn decimal_kurus_exec(s: &[char]) -> (r: Option<i64>)
    ensures
        r matches Some(v) ==> decimal_kurus_i64(s@) == Some(v as int),
        r is None ==> decimal_kurus_i64(s@) is None,
{
    let n = s.len();
    let neg = n > 0 && s[0] == '-';
    let start: usize = if n > 0 && (s[0] == '+' || s[0] == '-') { 1 } else { 0 };
    let ghost body = if s@.len() > 0 && (s@[0] == '+' || s@[0] == '-') { s@.drop_first() } else { s@ };
    assert(body =~= s@.subrange(start as int, n as int));
    let mut p: usize = start;
    while p < n && s[p] != '.'
        invariant
            start <= p <= n,
            n == s@.len(),
            forall|i: int| start <= i < p ==> s@[i] != '.',
        decreases n - p,
    {
        p = p + 1;
    }
    proof {
        lemma_first_index_of_unique(body, '.', p - start);
    }
    let ghost int_part = body.take(p - start);
    assert(int_part =~= s@.subrange(start as int, p as int));
    let frac_from: usize = if p < n { p + 1 } else { n };
    let ghost frac = if p - start < body.len() { body.skip(p - start + 1) } else { Seq::<char>::empty() };
    assert(frac =~= s@.subrange(frac_from as int, n as int));
    let limit: i128 = 0x1_0000_0000_0000_0000;
    let ip = match read_digits(s, start, p, limit) {
        Some(v) => v,
        None => return None,
    };
    let fp = match read_digits(s, frac_from, n, 100) {
        Some(v) => v,
        None => return None,
    };
    if p - start == 0 && n - frac_from == 0 {
        return None;
    }
    if ip > limit {
        proof {
            lemma_digits_value_nonneg(frac);
        }
        return None;
    }
    assert(frac.len() == n - frac_from);
    assert(frac.len() >= 1 ==> frac[0] == s@[frac_from as int]);
    assert(frac.len() >= 2 ==> frac[1] == s@[frac_from + 1]);
    assert(frac.len() >= 3 ==> frac[2] == s@[frac_from + 2]);
    assert(frac.len() >= 1 ==> is_digit(frac[0]));
    assert(frac.len() >= 2 ==> is_digit(frac[1]));
    assert(frac.len() >= 3 ==> is_digit(frac[2]));
    let flen = n - frac_from;
    let d0: i128 = if flen >= 1 { digit_of(s[frac_from]) as i128 } else { 0 };
    let d1: i128 = if flen >= 2 { digit_of(s[frac_from + 1]) as i128 } else { 0 };
    let up: i128 = if flen >= 3 && digit_of(s[frac_from + 2]) >= 5 { 1 } else { 0 };
    let cents: i128 = d0 * 10 + d1 + up;
    let v: i128 = ip * 100 + cents;
    let signed: i128 = if neg { -v } else { v };
    if signed < i64::MIN as i128 || signed > i64::MAX as i128 {
        return None;
    }
    Some(signed as i64)
}

// ---------------------------------------------------------------------------
// Turkish and US writings
// ---------------------------------------------------------------------------

/// The amount written the Turkish way: strip the thousands `.`, drop the
/// `",-"` round-amount shorthand (it means `",00"`), swap the decimal `,` for
/// `.`, then read the decimal number.
pub open spec fn tr_amount(raw: Seq<char>) -> Option<int> {
    decimal_kurus_i64(replace_char(remove_pair(remove_char(raw, '.'), ',', '-'), ',', '.'))
}

/// The amount written the US way: strip the thousands `,`, then read the
/// decimal number.
pub open spec fn us_amount(raw: Seq<char>) -> Option<int> {
    decimal_kurus_i64(remove_char(raw, ','))
}

/// `tr_amount`, or `None` where it is not defined.
pub fn read_tr_amount(raw: &str) -> (r: Option<i64>)
    ensures
        r matches Some(v) ==> tr_amount(raw@) == Some(v as int),
        r is None ==> tr_amount(raw@) is None,
{
    let cs = chars_of(raw);
    let a = remove_char_exec(cs.as_slice(), '.');
    let b = remove_pair_exec(a.as_slice(), ',', '-');
    let c = replace_char_exec(b.as_slice(), ',', '.');
    decimal_kurus_exec(c.as_slice())
}

/// `us_amount`, or `None` where it is not defined.
pub fn read_us_amount(raw: &str) -> (r: Option<i64>)
    ensures
        r matches Some(v) ==> us_amount(raw@) == Some(v as int),
        r is None ==> us_amount(raw@) is None,
{
    let cs = chars_of(raw);
    let a = remove_char_exec(cs.as_slice(), ',');
    decimal_kurus_exec(a.as_slice())
}

/// Turkish-formatted amount to kuruş: strip thousands `.`, drop the `",-"`
/// round-amount shorthand (means `",00"`, e.g. `"24.396,-"`), swap decimal
/// `,` -> `.`. `"12.345,67"` -> 1234567, `"24.396,-"` -> 2439600; further
/// decimals are rounded to the nearest kuruş.
pub fn parse_amount(raw: &str) -> (v: i64)
    requires
        tr_amount(raw@) is Some,
    ensures
        tr_amount(raw@) == Some(v as int),
{
    match read_tr_amount(raw) {
        Some(v) => v,
        None => 0,
    }
}

/// US-formatted amount (comma thousands, dot decimal) to kuruş:
/// `"10,964.11"` -> 1096411.
pub fn parse_amount_us(raw: &str) -> (v: i64)
    requires
        us_amount(raw@) is Some,
    ensures
        us_amount(raw@) == Some(v as int),
{
    match read_us_amount(raw) {
        Some(v) => v,
        None => 0,
    }
}

// ---------------------------------------------------------------------------
// Writing amounts the Turkish way
// ---------------------------------------------------------------------------

/// Digits grouped by three from the right with `.` between groups.
pub open spec fn group_thousands(d: Seq<char>) -> Seq<char>
    decreases d.len(),
{
    if d.len() <= 3 {
        d
    } else {
        group_thousands(d.take(d.len() - 3)) + seq!['.'] + d.skip(d.len() - 3)
    }
}

/// Two digits for a number below 100.
pub open spec fn two_digits(n: int) -> Seq<char> {
    seq![crate::text::digit_char(n / 10), crate::text::digit_char(n % 10)]
}

/// The Turkish writing of `k` kuruş: a `-` for negatives, the lira grouped
/// by thousands with `.`, a `,`, and the two kuruş digits.
/// 123450 -> `"1.234,50"`.
pub open spec fn tr_amount_text(k: int) -> Seq<char> {
    let a = if k < 0 { -k } else { k };
    (if k < 0 { seq!['-'] } else { Seq::<char>::empty() })
        + group_thousands(nat_text((a / 100) as nat)) + seq![','] + two_digits(a % 100)
}

fn push_grouped(out: &mut Vec<char>, d: &Vec<char>, end: usize)
    requires
        end <= d.len(),
    ensures
        final(out)@ == old(out)@ + group_thousands(d@.take(end as int)),
    decreases end,
{
    let ghost t = d@.take(end as int);
    let start: usize = if end > 3 {
        push_grouped(out, d, end - 3);
        out.push('.');
        end - 3
    } else {
        0
    };
    let mut i: usize = start;
    let ghost mid = out@;
    while i < end
        invariant
            start <= i <= end <= d.len(),
            out@ == mid + d@.subrange(start as int, i as int),
        decreases end - i,
    {
        out.push(d[i]);
        i = i + 1;
        assert(d@.subrange(start as int, i as int) == d@.subrange(start as int, i - 1).push(d@[i - 1]));
    }
    proof {
        if end > 3 {
            assert(t.take(t.len() - 3) =~= d@.take(end - 3));
            assert(t.skip(t.len() - 3) =~= d@.subrange(start as int, end as int));
        } else {
            assert(t =~= d@.subrange(0, end as int));
        }
    }
}

/// Format kuruş as Turkish currency: thousands `.`, decimal `,`, 2 decimals.
/// 123450 -> `"1.234,50"`.
pub fn format_amount_tr(value: i64) -> (s: String)
    ensures
        s@ == tr_amount_text(value as int),
{
    let a: u64 = if value < 0 { (0i128 - value as i128) as u64 } else { value as u64 };
    let mut digits: Vec<char> = Vec::new();
    push_nat_text(&mut digits, a / 100);
    let mut out: Vec<char> = Vec::new();
    if value < 0 {
        out.push('-');
    }
    push_grouped(&mut out, &digits, digits.len());
    out.push(',');
    out.push(digit_to_char((a % 100) / 10));
    out.push(digit_to_char(a % 10));
    assert(digits@.take(digits.len() as int) =~= digits@);
    assert((a % 100) % 10 == a % 10);
    assert(out@ =~= tr_amount_text(value as int));
    string_of(out.as_slice())
}


// ---------------------------------------------------------------------------
// Writing then reading an amount gives it back
// ---------------------------------------------------------------------------

proof fn lemma_remove_char_concat(a: Seq<char>, b: Seq<char>, c: char)
    ensures
        remove_char(a + b, c) == remove_char(a, c) + remove_char(b, c),
    decreases b.len(),
{
    if b.len() == 0 {
        assert(a + b =~= a);
        assert(remove_char(a, c) + remove_char(b, c) =~= remove_char(a, c));
    } else {
        assert((a + b).drop_last() =~= a + b.drop_last());
        assert((a + b).last() == b.last());
        lemma_remove_char_concat(a, b.drop_last(), c);
        if b.last() != c {
            assert(remove_char(a, c) + remove_char(b, c) =~= (remove_char(a, c) + remove_char(b.drop_last(), c)).push(b.last()));
        }
    }
}

proof fn lemma_remove_char_absent(a: Seq<char>, c: char)
    requires
        forall|i: int| 0 <= i < a.len() ==> a[i] != c,
    ensures
        remove_char(a, c) == a,
    decreases a.len(),
{
    if a.len() > 0 {
        lemma_remove_char_absent(a.drop_last(), c);
        assert(a.drop_last().push(a.last()) =~= a);
    }
}

proof fn lemma_group_thousands_digits(d: Seq<char>)
    requires
        all_digits(d),
    ensures
        remove_char(group_thousands(d), '.') == d,
    decreases d.len(),
{
    if d.len() <= 3 {
        lemma_remove_char_absent(d, '.');
    } else {
        let h = d.take(d.len() - 3);
        let t = d.skip(d.len() - 3);
        assert(all_digits(h)) by {
            assert forall|i: int| 0 <= i < h.len() implies is_digit(#[trigger] h[i]) by {
                assert(h[i] == d[i]);
            }
        }
        assert(all_digits(t)) by {
            assert forall|i: int| 0 <= i < t.len() implies is_digit(#[trigger] t[i]) by {
                assert(t[i] == d[i + d.len() - 3]);
            }
        }
        lemma_group_thousands_digits(h);
        lemma_remove_char_concat(group_thousands(h) + seq!['.'], t, '.');
        lemma_remove_char_concat(group_thousands(h), seq!['.'], '.');
        assert(remove_char(seq!['.'], '.') =~= Seq::<char>::empty()) by {
            assert(seq!['.'].drop_last() =~= Seq::<char>::empty());
            assert(seq!['.'].last() == '.');
            assert(remove_char(Seq::<char>::empty(), '.') == Seq::<char>::empty());
        }
        lemma_remove_char_absent(t, '.');
        assert(h + t =~= d);
    }
}

/// No `,` in `x` is directly followed by a `-`.
pub open spec fn no_comma_dash(x: Seq<char>) -> bool {
    forall|i: int| 0 <= i < x.len() - 1 ==> !(#[trigger] x[i] == ',' && x[i + 1] == '-')
}

proof fn lemma_remove_pair_absent(x: Seq<char>)
    requires
        no_comma_dash(x),
    ensures
        remove_pair(x, ',', '-') == x,
    decreases x.len(),
{
    if x.len() > 0 {
        let r = x.drop_first();
        assert(no_comma_dash(r)) by {
            assert forall|i: int| 0 <= i < r.len() - 1 implies !(#[trigger] r[i] == ',' && r[i + 1] == '-') by {
                assert(r[i] == x[i + 1] && r[i + 1] == x[i + 2]);
            }
        }
        lemma_remove_pair_absent(r);
        assert(seq![x[0]] + r =~= x);
    }
}

proof fn lemma_tr_text_shape(k: int)
    requires
        i64::MIN <= k <= i64::MAX,
    ensures
        ({
            let a = if k < 0 { -k } else { k };
            let sgn = if k < 0 { seq!['-'] } else { Seq::<char>::empty() };
            let dd = nat_text((a / 100) as nat);
            &&& all_digits(dd)
            &&& dd.len() >= 1
            &&& digits_value(dd) == a / 100
            &&& all_digits(two_digits(a % 100))
            &&& cents_of(two_digits(a % 100)) == a % 100
            &&& remove_char(tr_amount_text(k), '.') == sgn + dd + seq![','] + two_digits(a % 100)
        }),
{
    let a = if k < 0 { -k } else { k };
    let sgn = if k < 0 { seq!['-'] } else { Seq::<char>::empty() };
    let dd = nat_text((a / 100) as nat);
    lemma_nat_text_digits((a / 100) as nat);
    let f = two_digits(a % 100);
    assert(is_digit(f[0]) && is_digit(f[1]));
    assert(all_digits(f)) by {
        assert forall|i: int| 0 <= i < f.len() implies is_digit(#[trigger] f[i]) by {}
    }
    lemma_group_thousands_digits(dd);
    let g = group_thousands(dd);
    assert(tr_amount_text(k) == sgn + g + seq![','] + f);
    lemma_remove_char_concat(sgn + g + seq![','], f, '.');
    lemma_remove_char_concat(sgn + g, seq![','], '.');
    lemma_remove_char_concat(sgn, g, '.');
    lemma_remove_char_absent(sgn, '.');
    lemma_remove_char_absent(seq![','], '.');
    lemma_remove_char_absent(f, '.');
}

/// Writing an amount the Turkish way and reading it back gives the amount.
pub proof fn lemma_tr_amount_round_trip(k: i64)
    ensures
        tr_amount(tr_amount_text(k as int)) == Some(k as int),
{
    let k = k as int;
    lemma_tr_text_shape(k);
    let a = if k < 0 { -k } else { k };
    let sgn = if k < 0 { seq!['-'] } else { Seq::<char>::empty() };
    let dd = nat_text((a / 100) as nat);
    let f = two_digits(a % 100);
    let x = sgn + dd + seq![','] + f;
    assert(no_comma_dash(x)) by {
        assert forall|i: int| 0 <= i < x.len() - 1 implies !(#[trigger] x[i] == ',' && x[i + 1] == '-') by {
            if x[i] == ',' {
                if i < sgn.len() {
                    assert(x[i] == sgn[i]);
                } else if i < sgn.len() + dd.len() {
                    assert(x[i] == dd[i - sgn.len()]);
                    assert(is_digit(dd[i - sgn.len()]));
                } else if i == sgn.len() + dd.len() {
                    assert(x[i + 1] == f[0]);
                } else {
                    assert(x[i] == f[i - sgn.len() - dd.len() - 1]);
                }
            }
        }
    }
    lemma_remove_pair_absent(x);
    let y = replace_char(x, ',', '.');
    let dot = sgn + dd + seq!['.'] + f;
    assert(y =~= dot) by {
        assert forall|i: int| 0 <= i < x.len() implies #[trigger] y[i] == dot[i] by {
            if i < sgn.len() {
            } else if i < sgn.len() + dd.len() {
                assert(x[i] == dd[i - sgn.len()]);
                assert(is_digit(dd[i - sgn.len()]));
            } else if i == sgn.len() + dd.len() {
            } else {
                assert(x[i] == f[i - sgn.len() - dd.len() - 1]);
                assert(is_digit(f[i - sgn.len() - dd.len() - 1]));
            }
        }
    }
    let body = dd + seq!['.'] + f;
    if k < 0 {
        assert(dot.drop_first() =~= body);
    } else {
        assert(dot =~= body);
        assert(dd[0] == body[0]);
        assert(is_digit(dd[0]));
    }
    assert forall|i: int| 0 <= i < dd.len() implies body[i] != '.' by {
        assert(body[i] == dd[i]);
        assert(is_digit(dd[i]));
    }
    lemma_first_index_of_unique(body, '.', dd.len() as int);
    assert(body.take(dd.len() as int) =~= dd);
    assert(body.skip(dd.len() as int + 1) =~= f);
}

/// The writing of `k` kuruş with a `.` decimal point and two decimals, as
/// `{:.2}` prints `k / 100`.
pub open spec fn fixed2_text(k: int) -> Seq<char> {
    let a = if k < 0 { -k } else { k };
    (if k < 0 { seq!['-'] } else { Seq::<char>::empty() })
        + nat_text((a / 100) as nat) + seq!['.'] + two_digits(a % 100)
}

/// The Turkish writing is the plain two-decimal writing with the lira
/// grouped by `.` and the decimal point written `,`: deleting every `.` and
/// turning `,` into `.` gives the plain writing. A negative amount is its
/// magnitude's writing after a `-`.
pub proof fn lemma_tr_amount_text_shape(k: i64)
    ensures
        replace_char(remove_char(tr_amount_text(k as int), '.'), ',', '.') == fixed2_text(k as int),
        k > 0 ==> tr_amount_text(-k) == seq!['-'] + tr_amount_text(k as int),
{
    let k = k as int;
    lemma_tr_text_shape(k);
    let a = if k < 0 { -k } else { k };
    let sgn = if k < 0 { seq!['-'] } else { Seq::<char>::empty() };
    let dd = nat_text((a / 100) as nat);
    let f = two_digits(a % 100);
    let x = sgn + dd + seq![','] + f;
    let y = replace_char(x, ',', '.');
    let dot = sgn + dd + seq!['.'] + f;
    assert(y =~= dot) by {
        assert forall|i: int| 0 <= i < x.len() implies #[trigger] y[i] == dot[i] by {
            if i < sgn.len() {
            } else if i < sgn.len() + dd.len() {
                assert(x[i] == dd[i - sgn.len()]);
                assert(is_digit(dd[i - sgn.len()]));
            } else if i == sgn.len() + dd.len() {
            } else {
                assert(x[i] == f[i - sgn.len() - dd.len() - 1]);
                assert(is_digit(f[i - sgn.len() - dd.len() - 1]));
            }
        }
    }
    if k > 0 {
        assert(tr_amount_text(-k) =~= seq!['-'] + tr_amount_text(k));
    }
}

/// Digits grouped by three from the right with `.`: one to three digits,
/// then groups of a `.` and three digits (`[0-9]{1,3}([.][0-9]{3})*`).
pub open spec fn thousands_shape(g: Seq<char>) -> bool {
    &&& g.len() >= 1
    &&& g.len() % 4 != 0
    &&& forall|i: int| 0 <= i < g.len() ==> ((#[trigger] g[i] == '.') <==> (g.len() - i) % 4 == 0)
    &&& forall|i: int| 0 <= i < g.len() && (g.len() - i) % 4 != 0 ==> is_digit(#[trigger] g[i])
}

proof fn lemma_group_thousands_shape(d: Seq<char>)
    requires
        all_digits(d),
        d.len() >= 1,
    ensures
        thousands_shape(group_thousands(d)),
    decreases d.len(),
{
    if d.len() > 3 {
        let h = d.take(d.len() - 3);
        let t = d.skip(d.len() - 3);
        assert(all_digits(h)) by {
            assert forall|i: int| 0 <= i < h.len() implies is_digit(#[trigger] h[i]) by {
                assert(h[i] == d[i]);
            }
        }
        lemma_group_thousands_shape(h);
        let gh = group_thousands(h);
        let g = group_thousands(d);
        assert(g == gh + seq!['.'] + t);
        let l = g.len();
        assert(l == gh.len() + 4);
        assert forall|i: int| 0 <= i < l implies ((#[trigger] g[i] == '.') <==> (l - i) % 4 == 0) by {
            if i < gh.len() {
                assert(g[i] == gh[i]);
                assert((l - i) % 4 == (gh.len() - i) % 4);
            } else if i == gh.len() {
                assert(g[i] == '.');
            } else {
                assert(g[i] == t[i - gh.len() - 1]);
                assert(t[i - gh.len() - 1] == d[i - gh.len() - 1 + d.len() - 3]);
                assert(is_digit(d[i - gh.len() - 1 + d.len() - 3]));
            }
        }
        assert forall|i: int| 0 <= i < l && (l - i) % 4 != 0 implies is_digit(#[trigger] g[i]) by {
            if i < gh.len() {
                assert(g[i] == gh[i]);
                assert((l - i) % 4 == (gh.len() - i) % 4);
            } else {
                assert(g[i] == t[i - gh.len() - 1]);
                assert(t[i - gh.len() - 1] == d[i - gh.len() - 1 + d.len() - 3]);
            }
        }
    }
}

/// The Turkish writing of an amount is an optional `-`, the lira as one to
/// three digits followed by groups of `.` and three digits, a `,`, and two
/// kuruş digits (`-?[0-9]{1,3}([.][0-9]{3})*,[0-9]{2}`), the `-` exactly
/// for negative amounts.
pub proof fn lemma_tr_amount_text_grouping(k: i64)
    ensures
        ({
            let a = if k < 0 { -k } else { k as int };
            let g = group_thousands(nat_text((a / 100) as nat));
            let f = two_digits(a % 100);
            &&& tr_amount_text(k as int) == (if k < 0 { seq!['-'] } else { Seq::<char>::empty() }) + g + seq![','] + f
            &&& thousands_shape(g)
            &&& f.len() == 2 && is_digit(f[0]) && is_digit(f[1])
        }),
{
    let a = if k < 0 { -k } else { k as int };
    lemma_nat_text_digits((a / 100) as nat);
    lemma_group_thousands_shape(nat_text((a / 100) as nat));
}

} // verus!
