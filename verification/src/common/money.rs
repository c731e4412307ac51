//! Fixed-point monetary values.
//!
//! A [`Money`] wraps a signed 64-bit integer counting 1/10,000 currency
//! units, so four decimal places are represented exactly.  All arithmetic is
//! exact integer arithmetic; parsing from decimal text rounds half away from
//! zero on the scaled value, and formatting always prints four decimal
//! places.

use vstd::prelude::*;

verus! {

/// A monetary value stored as a scaled integer: the wrapped number counts
/// 1/10,000 currency units, so `Money(12345)` is `1.2345`.
///
/// Wrapping the integer gives type safety: amounts cannot be confused with
/// other numbers, and no floating point is involved at any stage.
#[derive(Clone, Copy, Debug, PartialEq, Eq, Structural)]
pub struct Money(pub i64);

impl View for Money {
    type V = int;

    open spec fn view(&self) -> int {
        self.0 as int
    }
}

impl Money {
    /// Wraps a scaled value: `value` counts 1/10,000 currency units.
    pub fn new(value: i64) -> (r: Self)
        ensures
            r@ == value as int,
    {
        Self(value)
    }

    /// Same as [`Money::new`]: wraps a scaled value.
    pub fn from_i64(value: i64) -> (r: Self)
        ensures
            r@ == value as int,
    {
        Money(value)
    }

    /// The zero amount.
    pub fn zero() -> (r: Self)
        ensures
            r@ == 0,
    {
        Money(0)
    }

    /// The underlying scaled value.
    pub fn as_i64(&self) -> (r: i64)
        ensures
            r as int == self@,
    {
        self.0
    }
}

impl Default for Money {
    fn default() -> (r: Self)
        ensures
            r@ == 0,
    {
        Money(0)
    }
}

impl core::ops::Add for Money {
    type Output = Money;

    fn add(self, rhs: Money) -> (r: Money) {
        Money(self.0 + rhs.0)
    }
}

impl vstd::std_specs::ops::AddSpecImpl for Money {
    open spec fn obeys_add_spec() -> bool {
        true
    }

    open spec fn add_req(self, rhs: Money) -> bool {
        i64::MIN <= self@ + rhs@ <= i64::MAX
    }

    open spec fn add_spec(self, rhs: Money) -> Money {
        Money((self@ + rhs@) as i64)
    }
}

impl core::ops::Sub for Money {
    type Output = Money;

    fn sub(self, rhs: Money) -> (r: Money) {
        Money(self.0 - rhs.0)
    }
}

impl vstd::std_specs::ops::SubSpecImpl for Money {
    open spec fn obeys_sub_spec() -> bool {
        true
    }

    open spec fn sub_req(self, rhs: Money) -> bool {
        i64::MIN <= self@ - rhs@ <= i64::MAX
    }

    open spec fn sub_spec(self, rhs: Money) -> Money {
        Money((self@ - rhs@) as i64)
    }
}

impl PartialOrd for Money {
    fn partial_cmp(&self, other: &Self) -> (r: Option<core::cmp::Ordering>) {
        if self.0 < other.0 {
            Some(core::cmp::Ordering::Less)
        } else if self.0 == other.0 {
            Some(core::cmp::Ordering::Equal)
        } else {
            Some(core::cmp::Ordering::Greater)
        }
    }
}

impl vstd::std_specs::cmp::PartialOrdSpecImpl for Money {
    open spec fn obeys_partial_cmp_spec() -> bool {
        true
    }

    open spec fn partial_cmp_spec(&self, other: &Self) -> Option<core::cmp::Ordering> {
        if self@ < other@ {
            Some(core::cmp::Ordering::Less)
        } else if self@ == other@ {
            Some(core::cmp::Ordering::Equal)
        } else {
            Some(core::cmp::Ordering::Greater)
        }
    }
}

/// Why a piece of decimal text is not a monetary amount.
#[derive(Clone, Copy, Debug, PartialEq, Eq, Structural)]
pub enum MoneyParseError {
    /// The text is empty (or only whitespace).
    Empty,
    /// The text is not a plain decimal number.
    Malformed,
    /// The scaled value does not fit the 64-bit range.
    Overflow,
}

// ===== The grammar and value of decimal money text =====

/// ASCII whitespace, trimmed from both ends before parsing.
pub open spec fn is_space(c: char) -> bool {
    c == ' ' || c == '\t' || c == '\n' || c == '\r'
}

/// A decimal digit character.
pub open spec fn is_digit(c: char) -> bool {
    48 <= c as int && c as int <= 57
}

/// The numeric value of a digit character.
pub open spec fn digit_value(c: char) -> int {
    c as int - 48
}

/// Every character of `s` is a decimal digit.
pub open spec fn all_digits(s: Seq<char>) -> bool {
    forall|i: int| 0 <= i < s.len() ==> is_digit(#[trigger] s[i])
}

/// The value of a digit string read in base ten (0 for the empty string).
pub open spec fn digits_val(s: Seq<char>) -> int
    decreases s.len(),
{
    if s.len() == 0 {
        0
    } else {
        digits_val(s.drop_last()) * 10 + digit_value(s.last())
    }
}

/// Ten to the `n`.
pub open spec fn pow10(n: nat) -> int
    decreases n,
{
    if n == 0 {
        1
    } else {
        10 * pow10((n - 1) as nat)
    }
}

/// `s` with leading and trailing whitespace removed.
pub open spec fn trimmed(s: Seq<char>) -> Seq<char>
    decreases s.len(),
{
    if s.len() == 0 {
        s
    } else if is_space(s.first()) {
        trimmed(s.drop_first())
    } else if is_space(s.last()) {
        trimmed(s.drop_last())
    } else {
        s
    }
}

/// The index of the first `'.'` in `u`, or `u.len()` when there is none.
pub open spec fn first_dot(u: Seq<char>) -> int
    decreases u.len(),
{
    if u.len() == 0 {
        0
    } else if u.first() == '.' {
        0
    } else {
        1 + first_dot(u.drop_first())
    }
}

/// Splits an optional leading sign off `t`: whether the value is negated,
/// and the rest of the text.
pub open spec fn sign_split(t: Seq<char>) -> (bool, Seq<char>) {
    if t.len() > 0 && t.first() == '-' {
        (true, t.drop_first())
    } else if t.len() > 0 && t.first() == '+' {
        (false, t.drop_first())
    } else {
        (false, t)
    }
}

/// The integer-part digits of `u`: everything before the first dot.
pub open spec fn int_part(u: Seq<char>) -> Seq<char> {
    u.subrange(0, first_dot(u))
}

/// The fraction digits of `u`: everything after the first dot, empty when
/// there is no dot.
pub open spec fn frac_part(u: Seq<char>) -> Seq<char> {
    if first_dot(u) < u.len() {
        u.subrange(first_dot(u) + 1, u.len() as int)
    } else {
        Seq::empty()
    }
}

/// `u` is a well-formed unsigned decimal: digits around at most one dot,
/// with at least one digit overall.
pub open spec fn valid_unsigned(u: Seq<char>) -> bool {
    &&& all_digits(int_part(u))
    &&& all_digits(frac_part(u))
    &&& int_part(u).len() + frac_part(u).len() > 0
}

/// The contribution of the fraction digits in 1/10,000 units, rounded half
/// away from zero: the first four digits (zero padded), plus one when a
/// fifth digit of five or more follows.
pub open spec fn frac_scaled(f: Seq<char>) -> int {
    let f4 = if f.len() >= 4 {
        digits_val(f.subrange(0, 4))
    } else {
        digits_val(f) * pow10((4 - f.len()) as nat)
    };
    if f.len() >= 5 && digit_value(f[4]) >= 5 {
        f4 + 1
    } else {
        f4
    }
}

/// The value of a well-formed unsigned decimal, scaled by 10,000 and
/// rounded half away from zero.
pub open spec fn unsigned_scaled(u: Seq<char>) -> int {
    digits_val(int_part(u)) * 10000 + frac_scaled(frac_part(u))
}

/// What parsing decimal money text yields: the scaled 64-bit value, or the
/// reason the text is rejected.
pub open spec fn spec_parse_money(s: Seq<char>) -> Result<i64, MoneyParseError> {
    let t = trimmed(s);
    if t.len() == 0 {
        Err(MoneyParseError::Empty)
    } else {
        let (neg, u) = sign_split(t);
        if !valid_unsigned(u) {
            Err(MoneyParseError::Malformed)
        } else {
            let v = if neg {
                -unsigned_scaled(u)
            } else {
                unsigned_scaled(u)
            };
            if i64::MIN <= v <= i64::MAX {
                Ok(v as i64)
            } else {
                Err(MoneyParseError::Overflow)
            }
        }
    }
}

/// The digit character for a value 0 through 9.
pub open spec fn digit_char(d: int) -> char {
    if d == 0 {
        '0'
    } else if d == 1 {
        '1'
    } else if d == 2 {
        '2'
    } else if d == 3 {
        '3'
    } else if d == 4 {
        '4'
    } else if d == 5 {
        '5'
    } else if d == 6 {
        '6'
    } else if d == 7 {
        '7'
    } else if d == 8 {
        '8'
    } else {
        '9'
    }
}

/// The decimal digit string of a non-negative `n`: no sign, no leading
/// zeros, a single "0" for zero.
pub open spec fn dec_seq(n: int) -> Seq<char>
    decreases n,
{
    if n < 10 {
        seq![digit_char(n)]
    } else {
        dec_seq(n / 10).push(digit_char(n % 10))
    }
}

/// Exactly four digits, zero padded, for a fraction value `0 <= f < 10000`.
pub open spec fn frac4_seq(f: int) -> Seq<char> {
    seq![
        digit_char(f / 1000),
        digit_char((f / 100) % 10),
        digit_char((f / 10) % 10),
        digit_char(f % 10),
    ]
}

/// The canonical four-decimal rendering of a scaled value: optional minus
/// sign, integer part, dot, exactly four fraction digits.
pub open spec fn spec_format_4dp(v: int) -> Seq<char> {
    let mag = if v < 0 {
        -v
    } else {
        v
    };
    let sign: Seq<char> = if v < 0 {
        seq!['-']
    } else {
        Seq::<char>::empty()
    };
    sign + dec_seq(mag / 10000) + seq!['.'] + frac4_seq(mag % 10000)
}

// ===== Facts about the grammar =====

/// Reading one more digit multiplies the prefix value by ten.
proof fn lemma_digits_val_step(s: Seq<char>, a: int, b: int)
    requires
        0 <= a <= b < s.len(),
    ensures
        digits_val(s.subrange(a, b + 1)) == digits_val(s.subrange(a, b)) * 10 + digit_value(s[b]),
{
    assert(s.subrange(a, b + 1).drop_last() =~= s.subrange(a, b));
    assert(s.subrange(a, b + 1).last() == s[b]);
}

/// A digit string has a non-negative value.
proof fn lemma_digits_val_nonneg(s: Seq<char>)
    requires
        all_digits(s),
    ensures
        digits_val(s) >= 0,
    decreases s.len(),
{
    if s.len() > 0 {
        assert(all_digits(s.drop_last()));
        lemma_digits_val_nonneg(s.drop_last());
    }
}

/// Ten to any power is positive.
proof fn lemma_pow10_pos(n: nat)
    ensures
        pow10(n) >= 1,
    decreases n,
{
    if n > 0 {
        lemma_pow10_pos((n - 1) as nat);
    }
}

/// `first_dot` stays within the string.
proof fn lemma_first_dot_le_len(u: Seq<char>)
    ensures
        0 <= first_dot(u) <= u.len(),
    decreases u.len(),
{
    if u.len() > 0 && u.first() != '.' {
        lemma_first_dot_le_len(u.drop_first());
    }
}

/// A dot at `k` with none before it is the first dot.
proof fn lemma_first_dot_at(u: Seq<char>, k: int)
    requires
        0 <= k <= u.len(),
        forall|j: int| 0 <= j < k ==> u[j] != '.',
        k < u.len() ==> u[k] == '.',
    ensures
        first_dot(u) == k,
    decreases u.len(),
{
    if u.len() == 0 {
    } else if u.first() == '.' {
        assert(k == 0);
    } else {
        assert(k != 0);
        lemma_first_dot_at(u.drop_first(), k - 1);
    }
}

/// No dot among the first `k` characters puts the first dot at `k` or
/// later.
proof fn lemma_first_dot_ge(u: Seq<char>, k: int)
    requires
        0 <= k <= u.len(),
        forall|j: int| 0 <= j < k ==> u[j] != '.',
    ensures
        first_dot(u) >= k,
    decreases u.len(),
{
    lemma_first_dot_le_len(u);
    if u.len() == 0 || k == 0 {
    } else if u.first() == '.' {
        assert(u[0] != '.');
        assert(false);
    } else {
        assert forall|j: int| 0 <= j < k - 1 implies u.drop_first()[j] != '.' by {
            assert(u.drop_first()[j] == u[j + 1]);
        }
        lemma_first_dot_ge(u.drop_first(), k - 1);
        assert(first_dot(u) == 1 + first_dot(u.drop_first()));
    }
}

/// Trimming a string of nothing but whitespace leaves nothing.
proof fn lemma_trimmed_all_space(s: Seq<char>)
    requires
        forall|i: int| 0 <= i < s.len() ==> is_space(#[trigger] s[i]),
    ensures
        trimmed(s).len() == 0,
    decreases s.len(),
{
    if s.len() > 0 {
        lemma_trimmed_all_space(s.drop_first());
    }
}

/// The fraction contribution is never negative.
proof fn lemma_frac_scaled_nonneg(f: Seq<char>)
    requires
        all_digits(f),
    ensures
        frac_scaled(f) >= 0,
{
    if f.len() >= 4 {
        assert(all_digits(f.subrange(0, 4)));
        lemma_digits_val_nonneg(f.subrange(0, 4));
    } else {
        lemma_digits_val_nonneg(f);
        lemma_pow10_pos((4 - f.len()) as nat);
        assert(digits_val(f) * pow10((4 - f.len()) as nat) >= 0) by (nonlinear_arith)
            requires
                digits_val(f) >= 0,
                pow10((4 - f.len()) as nat) >= 1,
        ;
    }
}

/// Trimming removes exactly the whitespace prefix and suffix: if `lo..hi`
/// spans the non-whitespace middle, the trimmed string is that span.
pub(crate) proof fn lemma_trimmed_subrange(s: Seq<char>, lo: int, hi: int)
    requires
        0 <= lo <= hi <= s.len(),
        forall|i: int| 0 <= i < lo ==> is_space(#[trigger] s[i]),
        forall|i: int| hi <= i < s.len() ==> is_space(#[trigger] s[i]),
        lo < hi ==> !is_space(s[lo]) && !is_space(s[hi - 1]),
    ensures
        trimmed(s) == s.subrange(lo, hi),
    decreases s.len(),
{
    if s.len() == 0 {
        assert(trimmed(s) =~= s.subrange(lo, hi));
    } else if is_space(s.first()) {
        if lo == hi {
            assert(forall|i: int| 0 <= i < s.len() ==> is_space(#[trigger] s[i]));
            lemma_trimmed_all_space(s);
            assert(trimmed(s) =~= s.subrange(lo, hi));
        } else {
            assert(lo >= 1);
            lemma_trimmed_subrange(s.drop_first(), lo - 1, hi - 1);
            assert(s.drop_first().subrange(lo - 1, hi - 1) =~= s.subrange(lo, hi));
        }
    } else if is_space(s.last()) {
        if lo == hi {
            assert(is_space(s[0]));
            assert(false);
        } else {
            assert(lo == 0);
            assert(hi <= s.len() - 1);
            lemma_trimmed_subrange(s.drop_last(), lo, hi);
            assert(s.drop_last().subrange(0, hi) =~= s.subrange(lo, hi));
        }
    } else {
        if lo == hi {
            assert(is_space(s[0]));
            assert(false);
        } else {
            assert(lo == 0);
            assert(hi == s.len());
            assert(s.subrange(0, s.len() as int) =~= s);
        }
    }
}

/// `digit_char` is an exact inverse of `digit_value` on 0 through 9.
proof fn lemma_digit_char_value(d: int)
    requires
        0 <= d <= 9,
    ensures
        is_digit(digit_char(d)),
        digit_value(digit_char(d)) == d,
{
}

/// `dec_seq(n)` is a nonempty digit string whose value is `n`.
proof fn lemma_dec_seq_value(n: int)
    requires
        n >= 0,
    ensures
        all_digits(dec_seq(n)),
        dec_seq(n).len() >= 1,
        digits_val(dec_seq(n)) == n,
    decreases n,
{
    if n < 10 {
        lemma_digit_char_value(n);
        assert(dec_seq(n).drop_last() =~= Seq::<char>::empty());
        assert(digits_val(Seq::<char>::empty()) == 0);
        assert(dec_seq(n).last() == digit_char(n));
    } else {
        lemma_dec_seq_value(n / 10);
        lemma_digit_char_value(n % 10);
        assert(dec_seq(n).drop_last() =~= dec_seq(n / 10));
        assert(dec_seq(n).last() == digit_char(n % 10));
        assert(digits_val(dec_seq(n)) == digits_val(dec_seq(n / 10)) * 10 + (n % 10));
        assert forall|i: int| 0 <= i < dec_seq(n).len() implies is_digit(#[trigger] dec_seq(n)[i]) by {
            if i < dec_seq(n).len() - 1 {
                assert(dec_seq(n)[i] == dec_seq(n / 10)[i]);
            }
        }
    }
}

/// `frac4_seq(f)` is four digits whose value is `f`.
proof fn lemma_frac4_value(f: int)
    requires
        0 <= f < 10000,
    ensures
        all_digits(frac4_seq(f)),
        frac4_seq(f).len() == 4,
        digits_val(frac4_seq(f)) == f,
{
    lemma_digit_char_value(f / 1000);
    lemma_digit_char_value((f / 100) % 10);
    lemma_digit_char_value((f / 10) % 10);
    lemma_digit_char_value(f % 10);
    let q = frac4_seq(f);
    let q3 = seq![digit_char(f / 1000), digit_char((f / 100) % 10), digit_char((f / 10) % 10)];
    let q2 = seq![digit_char(f / 1000), digit_char((f / 100) % 10)];
    let q1 = seq![digit_char(f / 1000)];
    assert(q.drop_last() =~= q3);
    assert(q3.drop_last() =~= q2);
    assert(q2.drop_last() =~= q1);
    assert(q1.drop_last() =~= Seq::<char>::empty());
    assert(digits_val(Seq::<char>::empty()) == 0);
    assert(q1.last() == digit_char(f / 1000));
    assert(digits_val(q1) == f / 1000);
    assert(digits_val(q2) == digits_val(q1) * 10 + (f / 100) % 10);
    assert(digits_val(q3) == digits_val(q2) * 10 + (f / 10) % 10);
    assert(digits_val(q) == digits_val(q3) * 10 + f % 10);
    assert((f / 1000) * 1000 + ((f / 100) % 10) * 100 + ((f / 10) % 10) * 10 + f % 10 == f);
}

/// Round trip: formatting an amount and parsing the text back yields the
/// amount again, exactly.
pub proof fn lemma_format_parse_round_trip(m: Money)
    ensures
        spec_parse_money(spec_format_4dp(m@)) == Ok::<i64, MoneyParseError>(m.0),
{
    let v = m@;
    let mag = if v < 0 { -v } else { v };
    let ds = dec_seq(mag / 10000);
    let f4 = frac4_seq(mag % 10000);
    let s = spec_format_4dp(v);
    lemma_dec_seq_value(mag / 10000);
    lemma_frac4_value(mag % 10000);
    // the rendering holds no whitespace at either end, so trimming is the
    // identity
    assert(s.len() > 0);
    assert(!is_space(s.first()));
    assert(!is_space(s.last()));
    assert(trimmed(s) == s);
    // the sign splits off exactly when the value is negative
    let u = sign_split(s).1;
    assert(sign_split(s).0 == (v < 0));
    assert(u =~= ds + seq!['.'] + f4);
    // the dot sits right after the integer digits
    assert forall|j: int| 0 <= j < ds.len() implies u[j] != '.' by {
        assert(u[j] == ds[j]);
        assert(is_digit(ds[j]));
    }
    assert(u[ds.len() as int] == '.');
    lemma_first_dot_at(u, ds.len() as int);
    assert(int_part(u) =~= ds);
    assert(frac_part(u) =~= f4);
    assert(valid_unsigned(u));
    // the value reassembles exactly
    assert(f4.subrange(0, 4) =~= f4);
    assert(frac_scaled(f4) == digits_val(f4));
    assert(digits_val(int_part(u)) == mag / 10000);
    assert(frac_scaled(frac_part(u)) == mag % 10000);
    assert(unsigned_scaled(u) == (mag / 10000) * 10000 + mag % 10000);
    assert(unsigned_scaled(u) == mag);
}

// ===== Parsing =====

impl MoneyParseError {
    /// A short human-readable description of the error.
    pub fn message(&self) -> (r: &'static str)
        ensures
            *self == MoneyParseError::Empty ==> r@ == "empty amount"@,
            *self == MoneyParseError::Malformed ==> r@ == "invalid decimal"@,
            *self == MoneyParseError::Overflow ==> r@ == "amount overflow"@,
    {
        match self {
            MoneyParseError::Empty => "empty amount",
            MoneyParseError::Malformed => "invalid decimal",
            MoneyParseError::Overflow => "amount overflow",
        }
    }
}

/// Relies on `String: FromIterator<char>`: collecting characters yields the
/// string of exactly those characters, in order.
#[verifier::external_body]
pub(crate) fn chars_to_string(v: &Vec<char>) -> (r: String)
    ensures
        r@ == v@,
{
    v.iter().collect()
}

/// The digit character for a value below ten.
fn digit_char_of(d: u64) -> (c: char)
    requires
        d < 10,
    ensures
        c == digit_char(d as int),
{
    if d == 0 {
        '0'
    } else if d == 1 {
        '1'
    } else if d == 2 {
        '2'
    } else if d == 3 {
        '3'
    } else if d == 4 {
        '4'
    } else if d == 5 {
        '5'
    } else if d == 6 {
        '6'
    } else if d == 7 {
        '7'
    } else if d == 8 {
        '8'
    } else {
        '9'
    }
}

/// Appends the decimal digits of `n` to `v`.
pub(crate) fn push_dec(v: &mut Vec<char>, n: u64)
    ensures
        final(v)@ == old(v)@ + dec_seq(n as int),
    decreases n,
{
    if n < 10 {
        v.push(digit_char_of(n));
        assert(v@ =~= old(v)@ + dec_seq(n as int));
    } else {
        push_dec(v, n / 10);
        v.push(digit_char_of(n % 10));
        assert(v@ =~= old(v)@ + dec_seq(n as int));
    }
}

pub(crate) fn is_space_char(c: char) -> (b: bool)
    ensures
        b == is_space(c),
{
    c == ' ' || c == '\t' || c == '\n' || c == '\r'
}

fn is_digit_char(c: char) -> (b: bool)
    ensures
        b == is_digit(c),
{
    let u = c as u32;
    48 <= u && u <= 57
}

impl Money {
    /// Parses decimal text into a monetary amount.
    ///
    /// Whitespace around the number is ignored and an optional `+`/`-` sign
    /// is honoured.  The value is scaled to 1/10,000 units, rounding half
    /// away from zero.  Empty (or all-whitespace) input, anything but a
    /// plain decimal number, and values outside the 64-bit scaled range are
    /// rejected, each with its own error.
    #[verifier::rlimit(100)]
    pub fn from_str(s: &str) -> (r: Result<Money, MoneyParseError>)
        ensures
            match spec_parse_money(s@) {
                Ok(v) => r == Ok::<Money, MoneyParseError>(Money(v)),
                Err(e) => r == Err::<Money, MoneyParseError>(e),
            },
    {
        let n = s.unicode_len();
        let mut lo: usize = 0;
        while lo < n && is_space_char(s.get_char(lo))
            invariant
                0 <= lo <= n,
                n == s@.len(),
                forall|k: int| 0 <= k < lo ==> is_space(#[trigger] s@[k]),
            decreases n - lo,
        {
            lo = lo + 1;
        }
        let mut hi: usize = n;
        while hi > lo && is_space_char(s.get_char(hi - 1))
            invariant
                lo <= hi <= n,
                n == s@.len(),
                forall|k: int| hi <= k < n ==> is_space(#[trigger] s@[k]),
            decreases hi,
        {
            hi = hi - 1;
        }
        proof {
            lemma_trimmed_subrange(s@, lo as int, hi as int);
        }
        let ghost t = trimmed(s@);
        assert(t =~= s@.subrange(lo as int, hi as int));
        if lo == hi {
            return Err(MoneyParseError::Empty);
        }
        // optional sign
        let mut i = lo;
        let c0 = s.get_char(i);
        let neg = c0 == '-';
        if c0 == '-' || c0 == '+' {
            i = i + 1;
        }
        let ghost u = sign_split(t).1;
        proof {
            assert(t[0] == s@[lo as int]);
            assert(u =~= s@.subrange(i as int, hi as int));
            assert(sign_split(t).0 == neg);
        }
        // integer-part digits, accumulated until they can no longer fit
        let int_start = i;
        let mut mag: u128 = 0;
        let mut over = false;
        while i < hi && is_digit_char(s.get_char(i))
            invariant
                int_start <= i <= hi <= n,
                n == s@.len(),
                forall|k: int| int_start <= k < i ==> is_digit(#[trigger] s@[k]),
                !over ==> mag as int == digits_val(s@.subrange(int_start as int, i as int)),
                !over ==> mag <= 0x8000_0000_0000_0000u128,
                over ==> digits_val(s@.subrange(int_start as int, i as int))
                    > 0x8000_0000_0000_0000,
            decreases hi - i,
        {
            let c = s.get_char(i);
            let d = c as u32 - 48;
            proof {
                lemma_digits_val_step(s@, int_start as int, i as int);
            }
            if !over {
                let nm = mag * 10 + d as u128;
                if nm > 0x8000_0000_0000_0000u128 {
                    over = true;
                } else {
                    mag = nm;
                }
            }
            i = i + 1;
        }
        let int_end = i;
        let mut f4: u64 = 0;
        let mut fcount: usize = 0;
        let mut round_up = false;
        let ghost mut frac_start: int = hi as int;
        if i < hi {
            let c = s.get_char(i);
            if c != '.' {
                // a character that is neither digit nor dot: the integer
                // part of `u` is not all digits
                proof {
                    assert forall|j: int| 0 <= j < i - int_start + 1 implies u[j] != '.' by {
                        assert(u[j] == s@[int_start + j]);
                    }
                    lemma_first_dot_ge(u, i - int_start + 1);
                    lemma_first_dot_le_len(u);
                    assert(int_part(u)[i as int - int_start] == s@[i as int]);
                    assert(!all_digits(int_part(u)));
                }
                return Err(MoneyParseError::Malformed);
            }
            let dot = i;
            i = i + 1;
            proof {
                frac_start = i as int;
            }
            while i < hi && is_digit_char(s.get_char(i))
                invariant
                    int_start < frac_start <= i <= hi <= n,
                    n == s@.len(),
                    fcount == i - frac_start,
                    forall|k: int| frac_start <= k < i ==> is_digit(#[trigger] s@[k]),
                    fcount <= 4 ==> f4 as int == digits_val(
                        s@.subrange(frac_start, i as int),
                    ) && (f4 as int) < pow10(fcount as nat),
                    fcount > 4 ==> f4 as int == digits_val(
                        s@.subrange(frac_start, frac_start + 4),
                    ) && f4 <= 9999,
                    round_up == (fcount >= 5 && digit_value(s@[frac_start + 4]) >= 5),
                decreases hi - i,
            {
                let c2 = s.get_char(i);
                let d = c2 as u32 - 48;
                proof {
                    reveal_with_fuel(pow10, 6);
                }
                if fcount < 4 {
                    proof {
                        lemma_digits_val_step(s@, frac_start, i as int);
                    }
                    f4 = f4 * 10 + d as u64;
                } else if fcount == 4 {
                    round_up = d >= 5;
                }
                fcount = fcount + 1;
                i = i + 1;
            }
            if i < hi {
                // a second dot, or other junk, inside the fraction
                proof {
                    assert forall|j: int| 0 <= j < dot - int_start implies u[j] != '.' by {
                        assert(u[j] == s@[int_start + j]);
                    }
                    lemma_first_dot_at(u, dot as int - int_start);
                    assert(frac_part(u) =~= s@.subrange(frac_start, hi as int));
                    assert(frac_part(u)[i - frac_start] == s@[i as int]);
                    assert(!all_digits(frac_part(u)));
                }
                return Err(MoneyParseError::Malformed);
            }
            proof {
                assert forall|j: int| 0 <= j < dot - int_start implies u[j] != '.' by {
                    assert(u[j] == s@[int_start + j]);
                }
                lemma_first_dot_at(u, dot as int - int_start);
                assert(int_part(u) =~= s@.subrange(int_start as int, int_end as int));
                assert(frac_part(u) =~= s@.subrange(frac_start, hi as int));
            }
        } else {
            proof {
                assert forall|j: int| 0 <= j < u.len() implies u[j] != '.' by {
                    assert(u[j] == s@[int_start + j]);
                }
                lemma_first_dot_at(u, u.len() as int);
                assert(int_part(u) =~= s@.subrange(int_start as int, int_end as int));
                assert(frac_part(u) =~= s@.subrange(frac_start, hi as int));
            }
        }
        let ghost ip = int_part(u);
        let ghost fp = frac_part(u);
        proof {
            assert(all_digits(ip));
            assert(all_digits(fp));
            assert(fp.len() == fcount);
            assert(ip.len() == int_end - int_start);
        }
        if int_end == int_start && fcount == 0 {
            // not a single digit (a bare sign, or a bare dot)
            return Err(MoneyParseError::Malformed);
        }
        assert(valid_unsigned(u));
        proof {
            reveal_with_fuel(pow10, 6);
        }
        // fraction contribution in 1/10,000 units
        let padded: u64 = if fcount == 0 {
            f4 * 10000
        } else if fcount == 1 {
            f4 * 1000
        } else if fcount == 2 {
            f4 * 100
        } else if fcount == 3 {
            f4 * 10
        } else {
            f4
        };
        let ffinal: u64 = if round_up {
            padded + 1
        } else {
            padded
        };
        proof {
            reveal_with_fuel(pow10, 6);
            if fcount < 4 {
                assert(fp =~= s@.subrange(frac_start, frac_start + fcount as int));
            } else {
                assert(fp.subrange(0, 4) =~= s@.subrange(frac_start, frac_start + 4));
                if fcount >= 5 {
                    assert(fp[4] == s@[frac_start + 4]);
                }
            }
            assert(ffinal as int == frac_scaled(fp));
        }
        if over {
            proof {
                lemma_frac_scaled_nonneg(fp);
                assert(digits_val(ip) * 10000 > 0x8000_0000_0000_0000 * 10000)
                    by (nonlinear_arith)
                    requires
                        digits_val(ip) > 0x8000_0000_0000_0000,
                ;
            }
            return Err(MoneyParseError::Overflow);
        }
        let total: u128 = mag * 10000 + ffinal as u128;
        proof {
            assert(total as int == unsigned_scaled(u));
        }
        if neg {
            if total <= 0x7fff_ffff_ffff_ffffu128 {
                Ok(Money(-(total as i64)))
            } else if total == 0x8000_0000_0000_0000u128 {
                Ok(Money(i64::MIN))
            } else {
                Err(MoneyParseError::Overflow)
            }
        } else {
            if total <= 0x7fff_ffff_ffff_ffffu128 {
                Ok(Money(total as i64))
            } else {
                Err(MoneyParseError::Overflow)
            }
        }
    }

    /// Formats the amount with exactly four decimal places: optional minus
    /// sign, integer part, dot, four fraction digits.
    pub fn to_string_4dp(&self) -> (r: String)
        ensures
            r@ == spec_format_4dp(self@),
    {
        let v = self.0;
        let neg = v < 0;
        let mag128: i128 = if neg {
            -(v as i128)
        } else {
            v as i128
        };
        let mag: u64 = mag128 as u64;
        let ip: u64 = mag / 10000;
        let fp: u64 = mag % 10000;
        let mut chars: Vec<char> = Vec::new();
        if neg {
            chars.push('-');
        }
        push_dec(&mut chars, ip);
        chars.push('.');
        chars.push(digit_char_of(fp / 1000));
        chars.push(digit_char_of((fp / 100) % 10));
        chars.push(digit_char_of((fp / 10) % 10));
        chars.push(digit_char_of(fp % 10));
        proof {
            assert(chars@ =~= spec_format_4dp(self@));
        }
        chars_to_string(&chars)
    }
}

} // verus!
