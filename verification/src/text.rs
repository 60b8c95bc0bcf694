//! Character-sequence helpers shared by the parsers and formatters: decimal
//! digits and integer parsing with the rules of `str::parse`, splitting,
//! trimming, substring search, joining and lexicographic order.

use vstd::prelude::*;

verus! {

/// The characters of `s`, in order (`str::chars` collected into a vector).
#[verifier::external_body]
pub(crate) fn chars_of(s: &str) -> (v: Vec<char>)
    ensures
        v@ == s@,
{
    s.chars().collect()
}

/// A `String` holding exactly the characters of `v` (a char slice collected).
#[verifier::external_body]
pub(crate) fn string_of(v: &[char]) -> (s: String)
    ensures
        s@ == v@,
{
    v.iter().collect()
}

// ---------------------------------------------------------------------------
// Decimal digits
// ---------------------------------------------------------------------------

pub open spec fn is_digit(c: char) -> bool {
    '0' <= c && c <= '9'
}

pub open spec fn digit_value(c: char) -> int {
    (c as int) - ('0' as int)
}

pub open spec fn all_digits(s: Seq<char>) -> bool {
    forall|i: int| 0 <= i < s.len() ==> is_digit(#[trigger] s[i])
}

/// The number written by the decimal digits `s` (most significant first).
pub open spec fn digits_value(s: Seq<char>) -> int
    decreases s.len(),
{
    if s.len() == 0 {
        0
    } else {
        digits_value(s.drop_last()) * 10 + digit_value(s.last())
    }
}

/// The character for a digit `0..=9`.
pub open spec fn digit_char(n: int) -> char {
    if n <= 0 { '0' } else if n == 1 { '1' } else if n == 2 { '2' } else if n == 3 { '3' }
    else if n == 4 { '4' } else if n == 5 { '5' } else if n == 6 { '6' } else if n == 7 { '7' }
    else if n == 8 { '8' } else { '9' }
}

/// The shortest decimal writing of `n` (no sign, no leading zeros; `"0"` for 0).
pub open spec fn nat_text(n: nat) -> Seq<char>
    decreases n,
{
    if n < 10 {
        seq![digit_char(n as int)]
    } else {
        nat_text(n / 10).push(digit_char((n % 10) as int))
    }
}

/// The decimal writing of an integer, with a leading `-` for negatives
/// (what `{}` prints for an integer).
pub open spec fn int_text(n: int) -> Seq<char> {
    if n < 0 {
        seq!['-'] + nat_text((-n) as nat)
    } else {
        nat_text(n as nat)
    }
}

/// `'0'` repeated `k` times.
pub open spec fn zeros(k: nat) -> Seq<char>
    decreases k,
{
    if k == 0 {
        seq![]
    } else {
        zeros((k - 1) as nat).push('0')
    }
}

/// `s` left-padded with zeros to at least `width` characters.
pub open spec fn zero_pad(s: Seq<char>, width: nat) -> Seq<char> {
    if s.len() >= width {
        s
    } else {
        zeros((width - s.len()) as nat) + s
    }
}

/// What `{:0w}` prints for an integer: the sign first, then the digits padded
/// with zeros so that sign and digits together take `width` characters.
pub open spec fn int_text_padded(n: int, width: nat) -> Seq<char> {
    if n < 0 {
        seq!['-'] + zero_pad(nat_text((-n) as nat), if width >= 1 { (width - 1) as nat } else { 0 })
    } else {
        zero_pad(nat_text(n as nat), width)
    }
}

pub proof fn lemma_digits_value_nonneg(s: Seq<char>)
    requires
        all_digits(s),
    ensures
        digits_value(s) >= 0,
    decreases s.len(),
{
    if s.len() > 0 {
        lemma_digits_value_nonneg(s.drop_last());
    }
}

/// The value of a digit string is at least the value of any of its prefixes.
pub proof fn lemma_digits_value_prefix(s: Seq<char>, i: int)
    requires
        all_digits(s),
        0 <= i <= s.len(),
    ensures
        digits_value(s.take(i)) <= digits_value(s),
    decreases s.len() - i,
{
    if i < s.len() {
        lemma_digits_value_prefix(s, i + 1);
        assert(s.take(i + 1).drop_last() =~= s.take(i));
        lemma_digits_value_nonneg(s.take(i));
    } else {
        assert(s.take(i) =~= s);
    }
}

pub proof fn lemma_nat_text_digits(n: nat)
    ensures
        all_digits(nat_text(n)),
        nat_text(n).len() >= 1,
        digits_value(nat_text(n)) == n,
        nat_text(n)[0] != '0' || n == 0,
    decreases n,
{
    if n < 10 {
        assert(nat_text(n).drop_last() =~= Seq::<char>::empty());
        assert(digit_value(digit_char(n as int)) == n);
        assert(digits_value(nat_text(n)) == digits_value(nat_text(n).drop_last()) * 10 + digit_value(nat_text(n).last()));
    } else {
        lemma_nat_text_digits(n / 10);
        let t = nat_text(n);
        assert(t.drop_last() =~= nat_text(n / 10));
        assert(t.last() == digit_char((n % 10) as int));
        assert(digit_value(t.last()) == n % 10);
        assert(digits_value(t) == digits_value(t.drop_last()) * 10 + digit_value(t.last()));
        assert forall|i: int| 0 <= i < t.len() implies is_digit(#[trigger] t[i]) by {
            if i < t.len() - 1 {
                assert(t[i] == nat_text(n / 10)[i]);
            }
        }
    }
}

/// Leading zeros do not change the number digits write.
pub proof fn lemma_digits_leading_zeros(k: nat, s: Seq<char>)
    requires
        all_digits(s),
    ensures
        all_digits(zeros(k) + s),
        digits_value(zeros(k) + s) == digits_value(s),
    decreases s.len(), k,
{
    lemma_zeros(k);
    let z = zeros(k) + s;
    assert forall|i: int| 0 <= i < z.len() implies is_digit(#[trigger] z[i]) by {
        if i < k {
            assert(z[i] == zeros(k)[i]);
        } else {
            assert(z[i] == s[i - k]);
        }
    }
    if s.len() == 0 {
        assert(z =~= zeros(k));
        if k > 0 {
            lemma_digits_leading_zeros((k - 1) as nat, s);
            assert(zeros((k - 1) as nat) + s =~= zeros((k - 1) as nat));
            assert(zeros(k).drop_last() =~= zeros((k - 1) as nat));
            assert(zeros(k).last() == '0');
        }
    } else {
        let t = s.drop_last();
        assert(all_digits(t)) by {
            assert forall|i: int| 0 <= i < t.len() implies is_digit(#[trigger] t[i]) by {
                assert(t[i] == s[i]);
            }
        }
        lemma_digits_leading_zeros(k, t);
        assert(z.drop_last() =~= zeros(k) + t);
        assert(z.last() == s.last());
    }
}

/// A zero-padded writing of a number reads back as the number, and is
/// made of digits only.
pub proof fn lemma_parse_zero_padded(n: nat, width: nat)
    requires
        n <= i64::MAX,
    ensures
        all_digits(zero_pad(nat_text(n), width)),
        zero_pad(nat_text(n), width).len() >= 1,
        parse_i64_spec(zero_pad(nat_text(n), width)) == Some(n as int),
{
    lemma_nat_text_digits(n);
    let t = nat_text(n);
    if t.len() < width {
        lemma_digits_leading_zeros((width - t.len()) as nat, t);
    }
    let p = zero_pad(t, width);
    assert(is_digit(p[0]));
}

/// An integer's decimal writing reads back as the integer (signed reading
/// for negatives).
pub proof fn lemma_parse_int_text(n: int, signed: bool)
    requires
        signed || n >= 0,
    ensures
        parse_int_spec(int_text(n), signed) == Some(n),
{
    if n >= 0 {
        lemma_nat_text_digits(n as nat);
        let s = int_text(n);
        assert(is_digit(s[0]));
    } else {
        lemma_nat_text_digits((-n) as nat);
        let s = int_text(n);
        assert(s[0] == '-');
        assert(s.drop_first() =~= nat_text((-n) as nat));
    }
}

pub proof fn lemma_zeros(k: nat)
    ensures
        zeros(k).len() == k,
        forall|i: int| 0 <= i < k ==> #[trigger] zeros(k)[i] == '0',
    decreases k,
{
    if k > 0 {
        lemma_zeros((k - 1) as nat);
    }
}

// ---------------------------------------------------------------------------
// Integer parsing (the rules of `str::parse` for integer types)
// ---------------------------------------------------------------------------

/// What `str::parse` reads from `s` for an integer type, before the range
/// check: an optional `+` (or `-` when `signed`), then one or more ASCII digits.
pub open spec fn parse_int_spec(s: Seq<char>, signed: bool) -> Option<int> {
    let neg = signed && s.len() > 0 && s[0] == '-';
    let body = if s.len() > 0 && (s[0] == '+' || neg) {
        s.drop_first()
    } else {
        s
    };
    if body.len() > 0 && all_digits(body) {
        Some(if neg { -digits_value(body) } else { digits_value(body) })
    } else {
        None
    }
}

/// `parse_int_spec` with the target type's range `lo..=hi`.
pub open spec fn parse_in_range_spec(s: Seq<char>, signed: bool, lo: int, hi: int) -> Option<int> {
    match parse_int_spec(s, signed) {
        Some(v) => if lo <= v <= hi {
            Some(v)
        } else {
            None
        },
        None => None,
    }
}

pub open spec fn parse_i64_spec(s: Seq<char>) -> Option<int> {
    parse_in_range_spec(s, true, i64::MIN as int, i64::MAX as int)
}

pub open spec fn parse_i32_spec(s: Seq<char>) -> Option<int> {
    parse_in_range_spec(s, true, i32::MIN as int, i32::MAX as int)
}

pub open spec fn parse_u64_spec(s: Seq<char>) -> Option<int> {
    parse_in_range_spec(s, false, 0, u64::MAX as int)
}

pub open spec fn parse_u32_spec(s: Seq<char>) -> Option<int> {
    parse_in_range_spec(s, false, 0, u32::MAX as int)
}

pub open spec fn parse_u16_spec(s: Seq<char>) -> Option<int> {
    parse_in_range_spec(s, false, 0, u16::MAX as int)
}

/// Reads an integer of the range `lo..=hi` as `str::parse` does.
fn parse_in_range(s: &[char], signed: bool, lo: i128, hi: i128) -> (r: Option<i128>)
    requires
        -0x1_0000_0000_0000_0000 <= lo <= 0 <= hi <= 0x1_0000_0000_0000_0000,
    ensures
        r matches Some(v) ==> parse_in_range_spec(s@, signed, lo as int, hi as int) == Some(v as int),
        r is None ==> parse_in_range_spec(s@, signed, lo as int, hi as int) is None,
{
    let n = s.len();
    let neg = signed && n > 0 && s[0] == '-';
    let start: usize = if n > 0 && (s[0] == '+' || neg) {
        1
    } else {
        0
    };
    let ghost body = if s@.len() > 0 && (s@[0] == '+' || neg) {
        s@.drop_first()
    } else {
        s@
    };
    assert(body =~= s@.subrange(start as int, n as int));
    if start >= n {
        return None;
    }
    let limit: i128 = if neg {
        -lo
    } else {
        hi
    };
    let mut v: i128 = 0;
    let mut i: usize = start;
    while i < n
        invariant
            start <= i <= n,
            n == s@.len(),
            body =~= s@.subrange(start as int, n as int),
            neg == (signed && s@.len() > 0 && s@[0] == '-'),
            body == (if s@.len() > 0 && (s@[0] == '+' || neg) { s@.drop_first() } else { s@ }),
            limit == (if neg { -lo } else { hi as int }),
            -0x1_0000_0000_0000_0000 <= lo <= 0 <= hi <= 0x1_0000_0000_0000_0000,
            0 <= limit <= 0x1_0000_0000_0000_0000,
            all_digits(body.take(i - start)),
            v == digits_value(body.take(i - start)),
            0 <= v <= limit,
        decreases n - i,
    {
        let c = s[i];
        if !('0' <= c && c <= '9') {
            assert(!is_digit(body[i - start]));
            assert(!all_digits(body));
            assert(parse_int_spec(s@, signed) is None);
            return None;
        }
        assert(body.take(i - start + 1).drop_last() =~= body.take(i - start));
        let d = (c as u32) - ('0' as u32);
        v = v * 10 + d as i128;
        i = i + 1;
        if v > limit {
            proof {
                assert forall|j: int| 0 <= j < i - start implies is_digit(#[trigger] body.take(i - start)[j]) by {
                    if j < i - start - 1 {
                        assert(body.take(i - start)[j] == body.take(i - start - 1)[j]);
                    }
                }
                if all_digits(body) {
                    lemma_digits_value_prefix(body, i - start);
                    assert(digits_value(body) > limit);
                }
            }
            return None;
        }
        proof {
            assert forall|j: int| 0 <= j < i - start implies is_digit(#[trigger] body.take(i - start)[j]) by {
                if j < i - start - 1 {
                    assert(body.take(i - start)[j] == body.take(i - start - 1)[j]);
                }
            }
        }
    }
    assert(body.take(n - start) =~= body);
    if neg {
        if -v < lo {
            return None;
        }
        Some(-v)
    } else {
        Some(v)
    }
}

/// `s.parse::<i64>().ok()`.
pub fn parse_i64(s: &[char]) -> (r: Option<i64>)
    ensures
        r matches Some(v) ==> parse_i64_spec(s@) == Some(v as int),
        r is None ==> parse_i64_spec(s@) is None,
{
    match parse_in_range(s, true, i64::MIN as i128, i64::MAX as i128) {
        Some(v) => Some(v as i64),
        None => None,
    }
}

/// `s.parse::<i32>().ok()`.
pub fn parse_i32(s: &[char]) -> (r: Option<i32>)
    ensures
        r matches Some(v) ==> parse_i32_spec(s@) == Some(v as int),
        r is None ==> parse_i32_spec(s@) is None,
{
    match parse_in_range(s, true, i32::MIN as i128, i32::MAX as i128) {
        Some(v) => Some(v as i32),
        None => None,
    }
}

/// `s.parse::<u64>().ok()`.
pub fn parse_u64(s: &[char]) -> (r: Option<u64>)
    ensures
        r matches Some(v) ==> parse_u64_spec(s@) == Some(v as int),
        r is None ==> parse_u64_spec(s@) is None,
{
    match parse_in_range(s, false, 0, u64::MAX as i128) {
        Some(v) => Some(v as u64),
        None => None,
    }
}

/// `s.parse::<u32>().ok()`.
pub fn parse_u32(s: &[char]) -> (r: Option<u32>)
    ensures
        r matches Some(v) ==> parse_u32_spec(s@) == Some(v as int),
        r is None ==> parse_u32_spec(s@) is None,
{
    match parse_in_range(s, false, 0, u32::MAX as i128) {
        Some(v) => Some(v as u32),
        None => None,
    }
}

/// `s.parse::<u16>().ok()`.
pub fn parse_u16(s: &[char]) -> (r: Option<u16>)
    ensures
        r matches Some(v) ==> parse_u16_spec(s@) == Some(v as int),
        r is None ==> parse_u16_spec(s@) is None,
{
    match parse_in_range(s, false, 0, u16::MAX as i128) {
        Some(v) => Some(v as u16),
        None => None,
    }
}


// ---------------------------------------------------------------------------
// Writing integers
// ---------------------------------------------------------------------------

/// The value of a decimal digit.
pub fn digit_of(c: char) -> (d: u32)
    requires
        is_digit(c),
    ensures
        d == digit_value(c),
        d < 10,
{
    (c as u32) - ('0' as u32)
}

/// The character of a digit `0..=9`.
pub fn digit_to_char(d: u64) -> (c: char)
    requires
        d < 10,
    ensures
        c == digit_char(d as int),
{
    if d == 0 { '0' } else if d == 1 { '1' } else if d == 2 { '2' } else if d == 3 { '3' }
    else if d == 4 { '4' } else if d == 5 { '5' } else if d == 6 { '6' } else if d == 7 { '7' }
    else if d == 8 { '8' } else { '9' }
}

/// Appends the decimal writing of `n`.
pub fn push_nat_text(out: &mut Vec<char>, n: u64)
    ensures
        final(out)@ == old(out)@ + nat_text(n as nat),
    decreases n,
{
    if n >= 10 {
        push_nat_text(out, n / 10);
    }
    out.push(digit_to_char(n % 10));
    proof {
        if n >= 10 {
            assert(nat_text(n as nat) == nat_text((n / 10) as nat).push(digit_char((n % 10) as int)));
        }
    }
}

/// Appends the decimal writing of `n` with a leading `-` when negative.
pub fn push_int_text(out: &mut Vec<char>, n: i64)
    ensures
        final(out)@ == old(out)@ + int_text(n as int),
{
    if n < 0 {
        out.push('-');
        let m: u64 = (0i128 - n as i128) as u64;
        push_nat_text(out, m);
        assert(int_text(n as int) == seq!['-'] + nat_text((-n) as nat));
    } else {
        push_nat_text(out, n as u64);
    }
}

/// Appends `k` zeros.
pub fn push_zeros(out: &mut Vec<char>, k: usize)
    ensures
        final(out)@ == old(out)@ + zeros(k as nat),
{
    let mut i: usize = 0;
    while i < k
        invariant
            i <= k,
            out@ == old(out)@ + zeros(i as nat),
        decreases k - i,
    {
        out.push('0');
        i = i + 1;
        assert(zeros(i as nat) == zeros((i - 1) as nat).push('0'));
    }
}

/// Appends what `{:0width$}` prints for `n`.
pub fn push_int_padded(out: &mut Vec<char>, n: i64, width: usize)
    ensures
        final(out)@ == old(out)@ + int_text_padded(n as int, width as nat),
{
    let mut digits: Vec<char> = Vec::new();
    let neg = n < 0;
    let m: u64 = if neg { (0i128 - n as i128) as u64 } else { n as u64 };
    push_nat_text(&mut digits, m);
    assert(digits@ == nat_text(m as nat));
    let w: usize = if neg {
        if width >= 1 { width - 1 } else { 0 }
    } else {
        width
    };
    if neg {
        out.push('-');
    }
    let ghost before = out@;
    if digits.len() < w {
        push_zeros(out, w - digits.len());
    }
    let mut i: usize = 0;
    let ghost mid = out@;
    while i < digits.len()
        invariant
            i <= digits.len(),
            out@ == mid + digits@.take(i as int),
        decreases digits.len() - i,
    {
        out.push(digits[i]);
        i = i + 1;
        assert(digits@.take(i as int) == digits@.take(i - 1).push(digits@[i - 1]));
    }
    assert(digits@.take(digits.len() as int) =~= digits@);
    assert(out@ =~= before + zero_pad(digits@, w as nat));
}

/// The decimal writing of `n` as a `String` (what `n.to_string()` gives).
pub fn int_string(n: i64) -> (s: String)
    ensures
        s@ == int_text(n as int),
{
    let mut v: Vec<char> = Vec::new();
    push_int_text(&mut v, n);
    assert(v@ =~= int_text(n as int));
    string_of(v.as_slice())
}

/// Appends all of `s`.
pub fn push_all(out: &mut Vec<char>, s: &[char])
    ensures
        final(out)@ == old(out)@ + s@,
{
    let mut i: usize = 0;
    while i < s.len()
        invariant
            i <= s.len(),
            out@ == old(out)@ + s@.take(i as int),
        decreases s.len() - i,
    {
        out.push(s[i]);
        i = i + 1;
        assert(s@.take(i as int) == s@.take(i - 1).push(s@[i - 1]));
    }
    assert(s@.take(s.len() as int) =~= s@);
}

/// Appends all characters of `s`.
pub fn push_str(out: &mut Vec<char>, s: &str)
    ensures
        final(out)@ == old(out)@ + s@,
{
    let v = chars_of(s);
    push_all(out, v.as_slice());
}

// ---------------------------------------------------------------------------
// Equality, order
// ---------------------------------------------------------------------------

/// Whether two character sequences are equal.
pub fn same_chars(a: &[char], b: &[char]) -> (r: bool)
    ensures
        r == (a@ == b@),
{
    if a.len() != b.len() {
        return false;
    }
    let mut i: usize = 0;
    while i < a.len()
        invariant
            i <= a.len(),
            a.len() == b.len(),
            a@.take(i as int) == b@.take(i as int),
        decreases a.len() - i,
    {
        if a[i] != b[i] {
            return false;
        }
        i = i + 1;
        assert(a@.take(i as int) == a@.take(i - 1).push(a@[i - 1]));
        assert(b@.take(i as int) == b@.take(i - 1).push(b@[i - 1]));
    }
    assert(a@.take(a.len() as int) =~= a@);
    assert(b@.take(b.len() as int) =~= b@);
    true
}

/// Whether two strings hold the same text.
pub fn same_text(a: &str, b: &str) -> (r: bool)
    ensures
        r == (a@ == b@),
{
    let x = chars_of(a);
    let y = chars_of(b);
    same_chars(x.as_slice(), y.as_slice())
}

/// Lexicographic order by code point, shorter first on a common prefix: the
/// order of the UTF-8 bytes, which is how SQLite's default collation and
/// `str`'s `Ord` compare text.
pub open spec fn text_lt(a: Seq<char>, b: Seq<char>) -> bool
    decreases a.len(),
{
    if a.len() == 0 {
        b.len() > 0
    } else if b.len() == 0 {
        false
    } else if a[0] != b[0] {
        (a[0] as int) < (b[0] as int)
    } else {
        text_lt(a.drop_first(), b.drop_first())
    }
}

pub open spec fn text_le(a: Seq<char>, b: Seq<char>) -> bool {
    a == b || text_lt(a, b)
}

proof fn lemma_text_lt_skip(a: Seq<char>, b: Seq<char>, i: int)
    requires
        0 <= i <= a.len(),
        i <= b.len(),
        a.take(i) == b.take(i),
    ensures
        text_lt(a, b) == text_lt(a.skip(i), b.skip(i)),
        (a == b) == (a.skip(i) == b.skip(i)),
    decreases i,
{
    if i > 0 {
        assert(a.drop_first().take(i - 1) =~= a.take(i).drop_first());
        assert(b.drop_first().take(i - 1) =~= b.take(i).drop_first());
        assert(a[0] == a.take(i)[0]);
        assert(b[0] == b.take(i)[0]);
        lemma_text_lt_skip(a.drop_first(), b.drop_first(), i - 1);
        assert(a.drop_first().skip(i - 1) =~= a.skip(i));
        assert(b.drop_first().skip(i - 1) =~= b.skip(i));
        if a.skip(i) == b.skip(i) {
            assert(a =~= b) by {
                assert forall|k: int| 0 <= k < a.len() implies a[k] == b[k] by {
                    if k < i {
                        assert(a[k] == a.take(i)[k]);
                        assert(b[k] == b.take(i)[k]);
                    } else {
                        assert(a[k] == a.skip(i)[k - i]);
                        assert(b[k] == b.skip(i)[k - i]);
                    }
                }
            }
        }
    } else {
        assert(a.skip(0) =~= a);
        assert(b.skip(0) =~= b);
    }
}

pub proof fn lemma_text_lt_irreflexive(a: Seq<char>)
    ensures
        !text_lt(a, a),
    decreases a.len(),
{
    if a.len() > 0 {
        lemma_text_lt_irreflexive(a.drop_first());
    }
}

pub proof fn lemma_text_lt_asymmetric(a: Seq<char>, b: Seq<char>)
    ensures
        !(text_lt(a, b) && text_lt(b, a)),
    decreases a.len(),
{
    if a.len() > 0 && b.len() > 0 && a[0] == b[0] {
        lemma_text_lt_asymmetric(a.drop_first(), b.drop_first());
    }
}

pub proof fn lemma_text_lt_total(a: Seq<char>, b: Seq<char>)
    ensures
        text_lt(a, b) || text_lt(b, a) || a == b,
    decreases a.len(),
{
    if a.len() > 0 && b.len() > 0 && a[0] == b[0] {
        lemma_text_lt_total(a.drop_first(), b.drop_first());
        if a.drop_first() == b.drop_first() {
            assert(a =~= seq![a[0]] + a.drop_first());
            assert(b =~= seq![b[0]] + b.drop_first());
        }
    } else if a.len() == 0 && b.len() == 0 {
        assert(a =~= b);
    }
}

pub proof fn lemma_text_lt_transitive(a: Seq<char>, b: Seq<char>, c: Seq<char>)
    requires
        text_lt(a, b),
        text_lt(b, c),
    ensures
        text_lt(a, c),
    decreases a.len(),
{
    if a.len() > 0 && b.len() > 0 && c.len() > 0 && a[0] == b[0] && b[0] == c[0] {
        lemma_text_lt_transitive(a.drop_first(), b.drop_first(), c.drop_first());
    }
}

/// Three-way comparison in `text_lt` order: negative, zero or positive.
pub fn compare_chars(a: &[char], b: &[char]) -> (r: i8)
    ensures
        (r < 0) == text_lt(a@, b@),
        (r == 0) == (a@ == b@),
        (r > 0) == text_lt(b@, a@),
{
    let mut i: usize = 0;
    while i < a.len() && i < b.len()
        invariant
            i <= a.len(),
            i <= b.len(),
            a@.take(i as int) == b@.take(i as int),
        decreases a.len() - i,
    {
        if a[i] != b[i] {
            proof {
                lemma_text_lt_skip(a@, b@, i as int);
                lemma_text_lt_skip(b@, a@, i as int);
                assert(a@.skip(i as int)[0] == a@[i as int]);
                assert(b@.skip(i as int)[0] == b@[i as int]);
            }
            if a[i] < b[i] {
                return -1;
            } else {
                return 1;
            }
        }
        i = i + 1;
        assert(a@.take(i as int) == a@.take(i - 1).push(a@[i - 1]));
        assert(b@.take(i as int) == b@.take(i - 1).push(b@[i - 1]));
    }
    proof {
        lemma_text_lt_skip(a@, b@, i as int);
        lemma_text_lt_skip(b@, a@, i as int);
        if i == a.len() {
            assert(a@.skip(i as int) =~= Seq::<char>::empty());
        }
        if i == b.len() {
            assert(b@.skip(i as int) =~= Seq::<char>::empty());
        }
    }
    if a.len() == b.len() {
        0
    } else if a.len() < b.len() {
        -1
    } else {
        1
    }
}

/// `a < b` for two strings, in `text_lt` order.
pub fn text_less(a: &str, b: &str) -> (r: bool)
    ensures
        r == text_lt(a@, b@),
{
    let x = chars_of(a);
    let y = chars_of(b);
    compare_chars(x.as_slice(), y.as_slice()) < 0
}


// ---------------------------------------------------------------------------
// Splitting and joining
// ---------------------------------------------------------------------------

/// The pieces of `s` between occurrences of `sep` (what `str::split` with a
/// char yields): always at least one piece; `""` gives `[""]`.
pub open spec fn split_by(s: Seq<char>, sep: char) -> Seq<Seq<char>>
    decreases s.len(),
{
    if s.len() == 0 {
        seq![Seq::<char>::empty()]
    } else {
        let p = split_by(s.drop_last(), sep);
        if s.last() == sep {
            p.push(Seq::<char>::empty())
        } else {
            p.update(p.len() - 1, p.last().push(s.last()))
        }
    }
}

pub proof fn lemma_split_by_nonempty(s: Seq<char>, sep: char)
    ensures
        split_by(s, sep).len() >= 1,
    decreases s.len(),
{
    if s.len() > 0 {
        lemma_split_by_nonempty(s.drop_last(), sep);
    }
}

/// Appending text without `sep` extends the last piece.
pub proof fn lemma_split_by_append(a: Seq<char>, b: Seq<char>, sep: char)
    requires
        !b.contains(sep),
    ensures
        split_by(a, sep).len() >= 1,
        split_by(a + b, sep) == split_by(a, sep).update(split_by(a, sep).len() - 1, split_by(a, sep).last() + b),
    decreases b.len(),
{
    lemma_split_by_nonempty(a, sep);
    let q = split_by(a, sep);
    if b.len() == 0 {
        assert(a + b =~= a);
        assert(q.last() + b =~= q.last());
        assert(q.update(q.len() - 1, q.last() + b) =~= q);
    } else {
        let b0 = b.drop_last();
        assert(!b0.contains(sep)) by {
            if b0.contains(sep) {
                let i = choose|i: int| 0 <= i < b0.len() && b0[i] == sep;
                assert(b[i] == sep);
            }
        }
        assert(b.last() != sep) by {
            assert(b[b.len() - 1] == b.last());
        }
        lemma_split_by_append(a, b0, sep);
        let t = a + b;
        assert(t.drop_last() =~= a + b0);
        assert(t.last() == b.last());
        let p = split_by(a + b0, sep);
        assert(p =~= q.update(q.len() - 1, q.last() + b0));
        assert((q.last() + b0).push(b.last()) =~= q.last() + b);
        assert(split_by(t, sep) =~= p.update(p.len() - 1, p.last().push(t.last())));
        assert(p.update(p.len() - 1, p.last().push(t.last())) =~= q.update(q.len() - 1, q.last() + b));
    }
}

/// Splitting a `sep`-joined list of pieces without `sep` gives the pieces.
pub proof fn lemma_split_by_join(parts: Seq<Seq<char>>, sep: char)
    requires
        parts.len() >= 1,
        forall|i: int| 0 <= i < parts.len() ==> !(#[trigger] parts[i]).contains(sep),
    ensures
        split_by(join_with(parts, seq![sep]), sep) == parts,
    decreases parts.len(),
{
    let e = Seq::<char>::empty();
    if parts.len() == 1 {
        assert(!parts[0].contains(sep));
        lemma_split_by_append(e, parts[0], sep);
        assert(e + parts[0] =~= parts[0]);
        assert(split_by(e, sep) == seq![e]);
        assert(seq![e].update(0, e + parts[0]) =~= parts);
    } else {
        let init = parts.drop_last();
        assert forall|i: int| 0 <= i < init.len() implies !(#[trigger] init[i]).contains(sep) by {
            assert(init[i] == parts[i]);
        }
        lemma_split_by_join(init, sep);
        let j = join_with(init, seq![sep]);
        let a = j + seq![sep];
        assert(a.drop_last() =~= j);
        assert(a.last() == sep);
        assert(split_by(a, sep) =~= init.push(e));
        assert(!parts.last().contains(sep)) by {
            assert(parts[parts.len() - 1] == parts.last());
        }
        lemma_split_by_append(a, parts.last(), sep);
        assert(join_with(parts, seq![sep]) =~= a + parts.last());
        assert(init.push(e).update(init.len() as int, e + parts.last()) =~= parts);
    }
}

/// The pieces of `s` between occurrences of `sep`, as in `str::split`.
pub fn split_on(s: &[char], sep: char) -> (parts: Vec<Vec<char>>)
    ensures
        parts@.len() == split_by(s@, sep).len(),
        forall|i: int| 0 <= i < parts@.len() ==> #[trigger] parts@[i]@ == split_by(s@, sep)[i],
{
    let mut parts: Vec<Vec<char>> = Vec::new();
    let mut cur: Vec<char> = Vec::new();
    let mut i: usize = 0;
    while i < s.len()
        invariant
            i <= s.len(),
            parts@.len() + 1 == split_by(s@.take(i as int), sep).len(),
            forall|k: int| 0 <= k < parts@.len() ==> #[trigger] parts@[k]@ == split_by(s@.take(i as int), sep)[k],
            cur@ == split_by(s@.take(i as int), sep).last(),
        decreases s.len() - i,
    {
        proof {
            lemma_split_by_nonempty(s@.take(i as int), sep);
            assert(s@.take(i + 1).drop_last() =~= s@.take(i as int));
            assert(s@.take(i + 1).last() == s@[i as int]);
        }
        if s[i] == sep {
            let done = cur;
            parts.push(done);
            cur = Vec::new();
        } else {
            cur.push(s[i]);
        }
        i = i + 1;
    }
    assert(s@.take(s.len() as int) =~= s@);
    proof {
        lemma_split_by_nonempty(s@, sep);
    }
    parts.push(cur);
    parts
}

/// `parts` joined with `sep` between neighbours (what `join` on a slice of
/// strings gives).
pub open spec fn join_with(parts: Seq<Seq<char>>, sep: Seq<char>) -> Seq<char>
    decreases parts.len(),
{
    if parts.len() == 0 {
        seq![]
    } else if parts.len() == 1 {
        parts[0]
    } else {
        join_with(parts.drop_last(), sep) + sep + parts.last()
    }
}

/// The views of a list of strings.
pub open spec fn views_of(v: Seq<String>) -> Seq<Seq<char>> {
    v.map_values(|x: String| x@)
}

/// `parts.join(sep)`.
pub fn join_strings(parts: &Vec<String>, sep: &str) -> (r: String)
    ensures
        r@ == join_with(views_of(parts@), sep@),
{
    let mut out: Vec<char> = Vec::new();
    let mut i: usize = 0;
    while i < parts.len()
        invariant
            i <= parts.len(),
            out@ == join_with(views_of(parts@.take(i as int)), sep@),
        decreases parts.len() - i,
    {
        let ghost prev = views_of(parts@.take(i as int));
        if i > 0 {
            push_str(&mut out, sep);
        }
        push_str(&mut out, parts[i].as_str());
        i = i + 1;
        proof {
            let now = views_of(parts@.take(i as int));
            assert(now.drop_last() =~= prev);
            assert(now.last() == parts@[i - 1]@);
            if i == 1 {
                assert(prev =~= Seq::<Seq<char>>::empty());
            }
        }
    }
    assert(parts@.take(parts.len() as int) =~= parts@);
    string_of(out.as_slice())
}

// ---------------------------------------------------------------------------
// White space and trimming
// ---------------------------------------------------------------------------

/// Unicode `White_Space`, the set that `char::is_whitespace`, `str::trim` and
/// the regex class `\s` use.
pub open spec fn is_white_space(c: char) -> bool {
    ('\u{9}' <= c && c <= '\u{d}') || c == ' ' || c == '\u{85}' || c == '\u{a0}' || c == '\u{1680}'
        || ('\u{2000}' <= c && c <= '\u{200a}') || c == '\u{2028}' || c == '\u{2029}'
        || c == '\u{202f}' || c == '\u{205f}' || c == '\u{3000}'
}

/// `char::is_whitespace`.
pub fn white_space(c: char) -> (b: bool)
    ensures
        b == is_white_space(c),
{
    ('\u{9}' <= c && c <= '\u{d}') || c == ' ' || c == '\u{85}' || c == '\u{a0}' || c == '\u{1680}'
        || ('\u{2000}' <= c && c <= '\u{200a}') || c == '\u{2028}' || c == '\u{2029}'
        || c == '\u{202f}' || c == '\u{205f}' || c == '\u{3000}'
}

pub open spec fn trim_start_ws(s: Seq<char>) -> Seq<char>
    decreases s.len(),
{
    if s.len() > 0 && is_white_space(s[0]) {
        trim_start_ws(s.drop_first())
    } else {
        s
    }
}

pub open spec fn trim_end_ws(s: Seq<char>) -> Seq<char>
    decreases s.len(),
{
    if s.len() > 0 && is_white_space(s.last()) {
        trim_end_ws(s.drop_last())
    } else {
        s
    }
}

/// `s` without leading and trailing white space (`str::trim`).
pub open spec fn trim_ws(s: Seq<char>) -> Seq<char> {
    trim_end_ws(trim_start_ws(s))
}

/// `str::trim` on a character sequence.
pub fn trim_chars(s: &[char]) -> (r: Vec<char>)
    ensures
        r@ == trim_ws(s@),
{
    let n = s.len();
    let mut a: usize = 0;
    assert(s@.subrange(0, n as int) =~= s@);
    while a < n && white_space(s[a])
        invariant
            a <= n,
            n == s@.len(),
            trim_start_ws(s@) == trim_start_ws(s@.subrange(a as int, n as int)),
        decreases n - a,
    {
        assert(s@.subrange(a as int, n as int).drop_first() =~= s@.subrange(a + 1, n as int));
        a = a + 1;
    }
    let ghost t = s@.subrange(a as int, n as int);
    assert(trim_start_ws(t) == t);
    let mut b: usize = n;
    while b > a && white_space(s[b - 1])
        invariant
            a <= b <= n,
            n == s@.len(),
            t == s@.subrange(a as int, n as int),
            trim_end_ws(t) == trim_end_ws(s@.subrange(a as int, b as int)),
        decreases b - a,
    {
        assert(s@.subrange(a as int, b as int).drop_last() =~= s@.subrange(a as int, b - 1));
        b = b - 1;
    }
    let mut r: Vec<char> = Vec::new();
    let mut i: usize = a;
    while i < b
        invariant
            a <= i <= b,
            b <= n,
            n == s@.len(),
            r@ == s@.subrange(a as int, i as int),
        decreases b - i,
    {
        r.push(s[i]);
        i = i + 1;
        assert(r@ =~= s@.subrange(a as int, i as int));
    }
    r
}

/// `s.trim()` as a character vector.
pub fn trim_text(s: &str) -> (r: Vec<char>)
    ensures
        r@ == trim_ws(s@),
{
    let v = chars_of(s);
    trim_chars(v.as_slice())
}

// ---------------------------------------------------------------------------
// Substrings, prefixes, suffixes
// ---------------------------------------------------------------------------

/// `needle` occurs in `hay` at position `i`.
pub open spec fn occurs_at(hay: Seq<char>, needle: Seq<char>, i: int) -> bool {
    0 <= i && i + needle.len() <= hay.len() && hay.subrange(i, i + needle.len()) == needle
}

/// `needle` occurs somewhere in `hay` (`str::contains`; the empty needle
/// occurs everywhere).
pub open spec fn has_substring(hay: Seq<char>, needle: Seq<char>) -> bool {
    exists|i: int| occurs_at(hay, needle, i)
}

/// Whether `needle` occurs in `hay` (`str::contains` with a string pattern).
pub fn contains_chars(hay: &[char], needle: &[char]) -> (r: bool)
    ensures
        r == has_substring(hay@, needle@),
{
    if needle.len() > hay.len() {
        assert forall|i: int| !occurs_at(hay@, needle@, i) by {}
        return false;
    }
    let last = hay.len() - needle.len();
    let mut i: usize = 0;
    loop
        invariant
            last + needle.len() == hay.len(),
            i <= last,
            forall|k: int| 0 <= k < i ==> !occurs_at(hay@, needle@, k),
        decreases last - i,
    {
        let mut j: usize = 0;
        let mut ok = true;
        while j < needle.len()
            invariant
                i <= last,
                last + needle.len() == hay.len(),
                j <= needle.len(),
                ok ==> forall|t: int| 0 <= t < j ==> hay@[i + t] == needle@[t],
                !ok ==> !occurs_at(hay@, needle@, i as int),
            decreases needle.len() - j,
        {
            if ok && hay[i + j] != needle[j] {
                ok = false;
                assert(hay@.subrange(i as int, i + needle@.len())[j as int] == hay@[i + j]);
            }
            j = j + 1;
        }
        if ok {
            assert(hay@.subrange(i as int, i + needle@.len()) =~= needle@);
            assert(occurs_at(hay@, needle@, i as int));
            return true;
        }
        if i == last {
            assert forall|k: int| !occurs_at(hay@, needle@, k) by {
                if 0 <= k && k <= i {
                }
            }
            return false;
        }
        i = i + 1;
    }
}

/// `s` ends with `suffix` (`str::ends_with`).
pub open spec fn has_suffix(s: Seq<char>, suffix: Seq<char>) -> bool {
    suffix.len() <= s.len() && s.subrange(s.len() - suffix.len(), s.len() as int) == suffix
}

/// `s.ends_with(suffix)`.
pub fn ends_with_chars(s: &[char], suffix: &[char]) -> (r: bool)
    ensures
        r == has_suffix(s@, suffix@),
{
    if suffix.len() > s.len() {
        return false;
    }
    let off = s.len() - suffix.len();
    let mut j: usize = 0;
    while j < suffix.len()
        invariant
            off + suffix.len() == s.len(),
            j <= suffix.len(),
            forall|t: int| 0 <= t < j ==> s@[off + t] == suffix@[t],
        decreases suffix.len() - j,
    {
        if s[off + j] != suffix[j] {
            assert(s@.subrange(off as int, s@.len() as int)[j as int] == s@[off + j]);
            return false;
        }
        j = j + 1;
    }
    assert(s@.subrange(off as int, s@.len() as int) =~= suffix@);
    true
}

// ---------------------------------------------------------------------------
// Case
// ---------------------------------------------------------------------------

/// What `str::to_lowercase` gives for `s`: the Unicode lowercase mapping,
/// character by character, with the special cases of the Unicode tables.
pub uninterp spec fn unicode_lowercase(s: Seq<char>) -> Seq<char>;

/// `s.to_lowercase()`.
#[verifier::external_body]
pub(crate) fn to_lower(s: &str) -> (r: String)
    ensures
        r@ == unicode_lowercase(s@),
{
    s.to_lowercase()
}

} // verus!
