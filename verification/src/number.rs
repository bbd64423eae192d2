//! Numbers written as text: unsigned integers (`u64::from_str`) and decimals with an
//! optional exponent, read exactly.

use vstd::prelude::*;
use crate::text::{all_digits, digit_val, digits_val, is_digit, sub_vec};

verus! {

/// `10^k`.
pub open spec fn pow10(k: nat) -> nat
    decreases k,
{
    if k == 0 {
        1
    } else {
        10 * pow10((k - 1) as nat)
    }
}

/// The first position of `c` in `s`.
pub open spec fn find_char(s: Seq<char>, c: char) -> Option<nat>
    decreases s.len(),
{
    if s.len() == 0 {
        None
    } else {
        match find_char(s.drop_last(), c) {
            Some(k) => Some(k),
            None => if s.last() == c {
                Some((s.len() - 1) as nat)
            } else {
                None
            },
        }
    }
}

pub proof fn lemma_find_char(s: Seq<char>, c: char)
    ensures
        match find_char(s, c) {
            Some(k) => k < s.len() && s[k as int] == c && forall|j: int| 0 <= j < k ==> s[j] != c,
            None => forall|j: int| 0 <= j < s.len() ==> s[j] != c,
        },
    decreases s.len(),
{
    if s.len() > 0 {
        lemma_find_char(s.drop_last(), c);
        match find_char(s.drop_last(), c) {
            Some(k) => {
                assert(s[k as int] == s.drop_last()[k as int]);
                assert forall|j: int| 0 <= j < k implies s[j] != c by {
                    assert(s[j] == s.drop_last()[j]);
                }
            },
            None => {
                assert forall|j: int| 0 <= j < s.len() - 1 implies s[j] != c by {
                    assert(s[j] == s.drop_last()[j]);
                }
            },
        }
    }
}

/// The first position of `c` in `s`, given as a property of positions.
pub proof fn lemma_find_char_is(s: Seq<char>, c: char, k: int)
    requires
        0 <= k <= s.len(),
        k < s.len() ==> s[k] == c,
        forall|j: int| 0 <= j < k ==> s[j] != c,
    ensures
        find_char(s, c) == if k < s.len() { Some(k as nat) } else { None::<nat> },
{
    lemma_find_char(s, c);
}

/// What `u64::from_str` (or another unsigned width, bounded by `max`) makes of `s`:
/// an optional `+`, then one or more digits, of value at most `max`.
pub open spec fn uint_of(s: Seq<char>, max: nat) -> Option<nat> {
    let b = if s.len() > 0 && s[0] == '+' { s.drop_first() } else { s };
    if b.len() >= 1 && all_digits(b) && digits_val(b) <= max {
        Some(digits_val(b))
    } else {
        None
    }
}

pub proof fn lemma_digits_val_push(s: Seq<char>, c: char)
    ensures
        digits_val(s.push(c)) == digits_val(s) * 10 + digit_val(c),
{
    assert(s.push(c).drop_last() =~= s);
}

/// `min(v, cap + 1)` as digits arrive: saturates, and stays saturated.
pub open spec fn sat(v: nat, cap: nat) -> nat {
    if v > cap { cap + 1 } else { v }
}

proof fn lemma_sat_step(v: nat, d: nat, cap: nat)
    requires
        d < 10,
    ensures
        sat(sat(v, cap) * 10 + d, cap) == sat(v * 10 + d, cap),
{
    if v > cap {
        assert((cap + 1) * 10 + d > cap) by (nonlinear_arith)
            requires d < 10;
        assert(v * 10 + d > cap) by (nonlinear_arith)
            requires v > cap, d < 10;
    }
}

/// Reads the digits `v[from..to]` as a number, saturated at `cap + 1`; `None` when a
/// character there is no digit.
pub fn digits_sat(v: &[char], from: usize, to: usize, cap: u128) -> (r: Option<u128>)
    requires
        from <= to <= v@.len(),
        cap < 0x1000_0000_0000_0000_0000_0000_0000,
    ensures
        match r {
            Some(x) => all_digits(v@.subrange(from as int, to as int)) && x == sat(
                digits_val(v@.subrange(from as int, to as int)),
                cap as nat,
            ),
            None => !all_digits(v@.subrange(from as int, to as int)),
        },
{
    let mut acc: u128 = 0;
    let mut i = from;
    while i < to
        invariant
            from <= i <= to <= v@.len(),
            cap < 0x1000_0000_0000_0000_0000_0000_0000,
            all_digits(v@.subrange(from as int, i as int)),
            acc == sat(digits_val(v@.subrange(from as int, i as int)), cap as nat),
        decreases to - i,
    {
        let c = v[i];
        if !('0' <= c && c <= '9') {
            assert(v@.subrange(from as int, to as int)[i - from] == c);
            return None;
        }
        let d: u128 = (c as u32 - 48) as u128;
        proof {
            assert(v@.subrange(from as int, i + 1) =~= v@.subrange(from as int, i as int).push(c));
            lemma_digits_val_push(v@.subrange(from as int, i as int), c);
            lemma_sat_step(digits_val(v@.subrange(from as int, i as int)), d as nat, cap as nat);
            assert(all_digits(v@.subrange(from as int, i + 1)));
        }
        let next = acc * 10 + d;
        acc = if next > cap { cap + 1 } else { next };
        i = i + 1;
    }
    Some(acc)
}

/// `s.parse::<u64>().ok()`.
pub fn parse_u64(v: &[char]) -> (r: Option<u64>)
    ensures
        r == match uint_of(v@, u64::MAX as nat) {
            Some(n) => Some(n as u64),
            None => None::<u64>,
        },
{
    let from: usize = if v.len() > 0 && v[0] == '+' { 1 } else { 0 };
    assert(v@.subrange(from as int, v@.len() as int) =~= (if v@.len() > 0 && v@[0] == '+' {
        v@.drop_first()
    } else {
        v@
    }));
    if from >= v.len() {
        return None;
    }
    match digits_sat(v, from, v.len(), u64::MAX as u128) {
        Some(x) => {
            if x > u64::MAX as u128 {
                None
            } else {
                Some(x as u64)
            }
        },
        None => None,
    }
}

/// `s.parse::<u32>().ok()`.
pub fn parse_u32(v: &[char]) -> (r: Option<u32>)
    ensures
        r == match uint_of(v@, u32::MAX as nat) {
            Some(n) => Some(n as u32),
            None => None::<u32>,
        },
{
    let from: usize = if v.len() > 0 && v[0] == '+' { 1 } else { 0 };
    assert(v@.subrange(from as int, v@.len() as int) =~= (if v@.len() > 0 && v@[0] == '+' {
        v@.drop_first()
    } else {
        v@
    }));
    if from >= v.len() {
        return None;
    }
    match digits_sat(v, from, v.len(), u32::MAX as u128) {
        Some(x) => {
            if x > u32::MAX as u128 {
                None
            } else {
                Some(x as u32)
            }
        },
        None => None,
    }
}

/// The largest whole part a decimal may have here (`10^18`).
pub open spec fn int_cap() -> nat {
    1_000_000_000_000_000_000
}

/// A decimal without its sign.
pub open spec fn dec_body(s: Seq<char>) -> Seq<char> {
    if s.len() > 0 && (s[0] == '+' || s[0] == '-') {
        s.drop_first()
    } else {
        s
    }
}

/// The decimal has a minus sign.
pub open spec fn dec_neg(s: Seq<char>) -> bool {
    s.len() > 0 && s[0] == '-'
}

/// The digits before the point.
pub open spec fn dec_int(s: Seq<char>) -> Seq<char> {
    let b = dec_body(s);
    match find_char(b, '.') {
        Some(k) => b.take(k as int),
        None => b,
    }
}

/// The digits after the point.
pub open spec fn dec_frac(s: Seq<char>) -> Seq<char> {
    let b = dec_body(s);
    match find_char(b, '.') {
        Some(k) => b.skip(k as int + 1),
        None => seq![],
    }
}

/// A plain decimal: an optional sign, digits with at most one point, and at least one
/// digit (`90`, `1.5`, `.5`, `5.`, `+2`, `-0.25`).
pub open spec fn is_decimal(s: Seq<char>) -> bool {
    let b = dec_body(s);
    all_digits(dec_int(s)) && all_digits(dec_frac(s)) && dec_int(s).len() + dec_frac(s).len() >= 1
}

/// The first nine fractional digits, as billionths.
pub open spec fn frac9(f: Seq<char>) -> nat {
    if f.len() >= 9 {
        digits_val(f.take(9))
    } else {
        digits_val(f) * pow10((9 - f.len()) as nat)
    }
}

/// The magnitude of a decimal in billionths of its unit (digits past the ninth after the
/// point are dropped).
pub open spec fn dec_nanos(s: Seq<char>) -> nat {
    digits_val(dec_int(s)) * 1_000_000_000 + frac9(dec_frac(s))
}

/// A parsed number: sign, and magnitude in billionths of the unit.
#[derive(Debug, Clone, Copy, PartialEq, Eq, Structural)]
pub struct Decimal {
    pub neg: bool,
    pub nanos: u128,
}

/// Why a decimal was not read.
#[derive(Debug, Clone, Copy, PartialEq, Eq, Structural)]
pub enum DecimalError {
    /// Not a number at all.
    Syntax,
    /// Its whole part is above the bound it is read up to.
    TooLarge,
}

/// An exponent mark.
pub open spec fn is_exp_mark(c: char) -> bool {
    c == 'e' || c == 'E'
}

/// The first exponent mark in `s`.
pub open spec fn find_exp(s: Seq<char>) -> Option<nat>
    decreases s.len(),
{
    if s.len() == 0 {
        None
    } else {
        match find_exp(s.drop_last()) {
            Some(k) => Some(k),
            None => if is_exp_mark(s.last()) {
                Some((s.len() - 1) as nat)
            } else {
                None
            },
        }
    }
}

pub proof fn lemma_find_exp(s: Seq<char>)
    ensures
        match find_exp(s) {
            Some(k) => k < s.len() && is_exp_mark(s[k as int]) && forall|j: int| 0 <= j < k ==> !is_exp_mark(s[j]),
            None => forall|j: int| 0 <= j < s.len() ==> !is_exp_mark(s[j]),
        },
    decreases s.len(),
{
    if s.len() > 0 {
        lemma_find_exp(s.drop_last());
        match find_exp(s.drop_last()) {
            Some(k) => {
                assert(s[k as int] == s.drop_last()[k as int]);
                assert forall|j: int| 0 <= j < k implies !is_exp_mark(s[j]) by {
                    assert(s[j] == s.drop_last()[j]);
                }
            },
            None => {
                assert forall|j: int| 0 <= j < s.len() - 1 implies !is_exp_mark(s[j]) by {
                    assert(s[j] == s.drop_last()[j]);
                }
            },
        }
    }
}

/// The first exponent mark in `s`, given as a property of positions.
pub proof fn lemma_find_exp_is(s: Seq<char>, k: int)
    requires
        0 <= k <= s.len(),
        k < s.len() ==> is_exp_mark(s[k]),
        forall|j: int| 0 <= j < k ==> !is_exp_mark(s[j]),
    ensures
        find_exp(s) == if k < s.len() { Some(k as nat) } else { None::<nat> },
{
    lemma_find_exp(s);
}

/// An exponent: an optional sign and one or more digits.
pub open spec fn is_exponent(x: Seq<char>) -> bool {
    dec_body(x).len() >= 1 && all_digits(dec_body(x))
}

/// The value of an exponent.
pub open spec fn exp_value(x: Seq<char>) -> int {
    if dec_neg(x) {
        -(digits_val(dec_body(x)) as int)
    } else {
        digits_val(dec_body(x)) as int
    }
}

/// A number as a float reads it: a plain decimal, optionally followed by an exponent
/// (`1e2`, `2.5E-3`, `-.5e+1`).
pub open spec fn is_number(s: Seq<char>) -> bool {
    match find_exp(s) {
        None => is_decimal(s),
        Some(k) => is_decimal(s.take(k as int)) && is_exponent(s.skip(k as int + 1)),
    }
}

/// The digit at position `i` of `a`, zero outside it.
pub open spec fn dig(a: Seq<char>, i: int) -> nat {
    if 0 <= i < a.len() {
        digit_val(a[i])
    } else {
        0
    }
}

/// The number the first `k` positions of `a` spell (zeros past its end).
pub open spec fn lead(a: Seq<char>, k: nat) -> nat
    decreases k,
{
    if k == 0 {
        0
    } else {
        lead(a, (k - 1) as nat) * 10 + dig(a, k - 1)
    }
}

/// The number the `n` positions of `a` from `p` on spell (zeros outside it).
pub open spec fn span(a: Seq<char>, p: int, n: nat) -> nat
    decreases n,
{
    if n == 0 {
        0
    } else {
        span(a, p, (n - 1) as nat) * 10 + dig(a, p + n - 1)
    }
}

/// The digits of a number with an exponent mark at `k`, point ignored.
pub open spec fn sci_digits(s: Seq<char>, k: nat) -> Seq<char> {
    dec_int(s.take(k as int)) + dec_frac(s.take(k as int))
}

/// Where the point of such a number falls among its digits once the exponent is applied.
pub open spec fn sci_point(s: Seq<char>, k: nat) -> int {
    dec_int(s.take(k as int)).len() + exp_value(s.skip(k as int + 1))
}

/// The whole part of a number.
pub open spec fn num_whole(s: Seq<char>) -> nat {
    match find_exp(s) {
        None => digits_val(dec_int(s)),
        Some(k) => if sci_point(s, k) <= 0 {
            0
        } else {
            lead(sci_digits(s, k), sci_point(s, k) as nat)
        },
    }
}

/// The magnitude of a number in billionths of its unit (digits past the ninth after the
/// point are dropped).
pub open spec fn num_nanos(s: Seq<char>) -> nat {
    match find_exp(s) {
        None => dec_nanos(s),
        Some(k) => num_whole(s) * 1_000_000_000 + span(sci_digits(s, k), sci_point(s, k), 9),
    }
}

/// The largest bound on the whole part that a number may be read up to.
pub open spec fn max_cap() -> nat {
    100_000_000_000_000_000_000_000_000
}

/// What `parse_decimal_capped` makes of `s` with the bound `cap` on the whole part.
pub open spec fn decimal_capped_of(s: Seq<char>, cap: nat) -> Result<(bool, nat), DecimalError> {
    if !is_number(s) {
        Err(DecimalError::Syntax)
    } else if num_whole(s) > cap {
        Err(DecimalError::TooLarge)
    } else {
        Ok((dec_neg(s), num_nanos(s)))
    }
}

/// What `parse_decimal` makes of `s`.
pub open spec fn decimal_of(s: Seq<char>) -> Result<(bool, nat), DecimalError> {
    decimal_capped_of(s, int_cap())
}

proof fn lemma_pow10_mono(a: nat, b: nat)
    requires
        a <= b,
    ensures
        pow10(a) <= pow10(b),
    decreases b,
{
    if a < b {
        lemma_pow10_mono(a, (b - 1) as nat);
    }
}

proof fn lemma_pow10_pos(k: nat)
    ensures
        pow10(k) >= 1,
    decreases k,
{
    if k > 0 {
        lemma_pow10_pos((k - 1) as nat);
    }
}

proof fn lemma_digits_val_bound(s: Seq<char>)
    requires
        all_digits(s),
    ensures
        digits_val(s) < pow10(s.len()),
    decreases s.len(),
{
    if s.len() > 0 {
        lemma_digits_val_bound(s.drop_last());
        assert(is_digit(s[s.len() - 1]));
        let a = digits_val(s.drop_last());
        let p = pow10((s.len() - 1) as nat);
        assert(a * 10 + digit_val(s.last()) < p * 10) by (nonlinear_arith)
            requires a < p, digit_val(s.last()) < 10;
    }
}

/// Reads the fractional digits `v[from..to]` (all digits) as billionths.
fn frac_nanos(v: &[char], from: usize, to: usize) -> (r: u128)
    requires
        from <= to <= v@.len(),
        all_digits(v@.subrange(from as int, to as int)),
    ensures
        r == frac9(v@.subrange(from as int, to as int)),
        r < 1_000_000_000,
{
    let ghost f = v@.subrange(from as int, to as int);
    proof {
        reveal_with_fuel(pow10, 10);
        assert(pow10(9) == 1000000000);
    }
    let end: usize = if to - from >= 9 { from + 9 } else { to };
    let mut acc: u128 = 0;
    let mut i = from;
    while i < end
        invariant
            from <= i <= end <= to <= v@.len(),
            end - from <= 9,
            f == v@.subrange(from as int, to as int),
            all_digits(f),
            acc == digits_val(f.take(i - from)),
            acc < pow10((i - from) as nat),
            pow10(9) == 1000000000,
        decreases end - i,
    {
        let c = v[i];
        assert(f[i - from] == c);
        let d: u128 = (c as u32 - 48) as u128;
        proof {
            assert(f.take(i - from + 1) =~= f.take(i - from).push(c));
            lemma_digits_val_push(f.take(i - from), c);
            let p = pow10((i - from) as nat);
            assert(acc * 10 + d < p * 10) by (nonlinear_arith)
                requires acc < p, d < 10;
            assert(pow10((i - from + 1) as nat) == 10 * p);
            lemma_pow10_mono((i - from + 1) as nat, 9);
        }
        acc = acc * 10 + d;
        i = i + 1;
    }
    let mut k = end - from;
    let ghost base = acc;
    assert(pow10(0nat) == 1);
    assert(((k - (end - from)) as nat) == 0nat);
    while k < 9
        invariant
            end - from <= k <= 9,
            acc == base * pow10((k - (end - from)) as nat),
            acc < pow10(k as nat),
            pow10(9) == 1000000000,
        decreases 9 - k,
    {
        proof {
            let p = pow10((k - (end - from)) as nat);
            assert(pow10((k + 1 - (end - from)) as nat) == 10 * p);
            assert(pow10((k + 1) as nat) == 10 * pow10(k as nat));
            assert(base * (10 * p) == (base * p) * 10) by (nonlinear_arith);
            lemma_pow10_mono((k + 1) as nat, 9);
        }
        acc = acc * 10;
        k = k + 1;
    }
    proof {
        if to - from >= 9 {
            assert(f.take(9) =~= f.take(end - from));
            assert(acc == base);
        } else {
            assert(f.take(end - from) =~= f);
        }
    }
    acc
}

proof fn lemma_dig_bound(a: Seq<char>, i: int)
    requires
        all_digits(a),
    ensures
        dig(a, i) < 10,
{
    if 0 <= i < a.len() {
        assert(is_digit(a[i]));
    }
}

proof fn lemma_span_bound(a: Seq<char>, p: int, n: nat)
    requires
        all_digits(a),
    ensures
        span(a, p, n) < pow10(n),
    decreases n,
{
    if n > 0 {
        lemma_span_bound(a, p, (n - 1) as nat);
        lemma_dig_bound(a, p + n - 1);
        let x = span(a, p, (n - 1) as nat);
        let d = dig(a, p + n - 1);
        let q = pow10((n - 1) as nat);
        assert(x * 10 + d < q * 10) by (nonlinear_arith)
            requires x < q, d < 10;
    }
}

proof fn lemma_span_zero(a: Seq<char>, p: int, n: nat)
    requires
        p >= a.len() || p + n <= 0,
    ensures
        span(a, p, n) == 0,
    decreases n,
{
    if n > 0 {
        lemma_span_zero(a, p, (n - 1) as nat);
    }
}

proof fn lemma_lead_mono(a: Seq<char>, i: nat, k: nat)
    requires
        i <= k,
    ensures
        lead(a, i) <= lead(a, k),
    decreases k,
{
    if i < k {
        lemma_lead_mono(a, i, (k - 1) as nat);
    }
}

proof fn lemma_lead_tail(a: Seq<char>, j: nat)
    ensures
        lead(a, a.len() + j) == lead(a, a.len()) * pow10(j),
    decreases j,
{
    if j > 0 {
        lemma_lead_tail(a, (j - 1) as nat);
        let l = lead(a, a.len());
        let q = pow10((j - 1) as nat);
        let k = (a.len() + j) as nat;
        let k1 = (a.len() + (j - 1) as nat) as nat;
        assert(k1 == (k - 1) as nat);
        assert(dig(a, k - 1) == 0);
        assert(lead(a, k) == lead(a, k1) * 10);
        assert(lead(a, k1) == l * q);
        assert(pow10(j) == 10 * q);
        assert(l * q * 10 == l * (10 * q)) by (nonlinear_arith);
    } else {
        assert(pow10(0) == 1);
        let l = lead(a, a.len());
        assert(l * 1 == l) by (nonlinear_arith);
        assert(a.len() + j == a.len());
    }
}

/// Far enough past its digits, a number spells zero or more than `max_cap()`.
proof fn lemma_lead_far(a: Seq<char>, p: nat)
    requires
        p >= a.len() + 27,
    ensures
        lead(a, a.len()) == 0 ==> lead(a, p) == 0,
        lead(a, a.len()) > 0 ==> lead(a, p) > max_cap(),
{
    let j = (p - a.len()) as nat;
    lemma_lead_tail(a, j);
    lemma_pow10_mono(27, j);
    assert(pow10(27) == 1_000_000_000_000_000_000_000_000_000) by {
        reveal_with_fuel(pow10, 28);
    }
    let l = lead(a, a.len());
    let q = pow10(j);
    if l > 0 {
        assert(l * q >= q) by (nonlinear_arith)
            requires l >= 1;
    }
}

/// Where the parts of a plain decimal lie: whole digits `v[f..ie]`, fractional digits
/// `v[ff..]`; `None` when `v` is no plain decimal.
fn split_decimal(v: &[char]) -> (r: Option<(usize, usize, usize)>)
    ensures
        match r {
            Some((f, ie, ff)) => is_decimal(v@) && f <= ie <= ff <= v@.len() && dec_int(v@) == v@.subrange(
                f as int,
                ie as int,
            ) && dec_frac(v@) == v@.subrange(ff as int, v@.len() as int),
            None => !is_decimal(v@),
        },
{
    let from: usize = if v.len() > 0 && (v[0] == '+' || v[0] == '-') { 1 } else { 0 };
    let ghost b = dec_body(v@);
    assert(b =~= v@.subrange(from as int, v@.len() as int));
    let mut dot = from;
    while dot < v.len() && v[dot] != '.'
        invariant
            from <= dot <= v@.len(),
            forall|j: int| from <= j < dot ==> v@[j] != '.',
        decreases v.len() - dot,
    {
        dot = dot + 1;
    }
    proof {
        assert forall|j: int| 0 <= j < dot - from implies b[j] != '.' by {
            assert(b[j] == v@[j + from]);
        }
        if dot < v.len() {
            assert(b[dot - from] == '.');
        }
        lemma_find_char_is(b, '.', dot - from);
    }
    let int_end = dot;
    let frac_from: usize = if dot < v.len() { dot + 1 } else { v.len() };
    proof {
        assert(dec_int(v@) =~= v@.subrange(from as int, int_end as int));
        assert(dec_frac(v@) =~= v@.subrange(frac_from as int, v@.len() as int));
    }
    if (int_end - from) + (v.len() - frac_from) == 0 {
        return None;
    }
    match digits_sat(v, from, int_end, 0) {
        Some(_) => {},
        None => return None,
    }
    match digits_sat(v, frac_from, v.len(), 0) {
        Some(_) => {},
        None => return None,
    }
    Some((from, int_end, frac_from))
}

/// Reads a number without an exponent mark.
fn parse_plain(v: &[char], cap: u128) -> (r: Result<Decimal, DecimalError>)
    requires
        cap <= max_cap(),
        find_exp(v@) is None,
    ensures
        match r {
            Ok(d) => decimal_capped_of(v@, cap as nat) == Ok::<(bool, nat), DecimalError>((d.neg, d.nanos as nat)),
            Err(e) => decimal_capped_of(v@, cap as nat) == Err::<(bool, nat), DecimalError>(e),
        },
{
    let (f, ie, ff) = match split_decimal(v) {
        Some(t) => t,
        None => return Err(DecimalError::Syntax),
    };
    let ip = match digits_sat(v, f, ie, cap) {
        Some(x) => x,
        None => return Err(DecimalError::Syntax),
    };
    if ip > cap {
        return Err(DecimalError::TooLarge);
    }
    let fr = frac_nanos(v, ff, v.len());
    Ok(Decimal { neg: v.len() > 0 && v[0] == '-', nanos: ip * 1_000_000_000 + fr })
}

/// The digits `v[f..ie]` followed by `v[ff..]`.
fn joined_digits(v: &[char], f: usize, ie: usize, ff: usize) -> (a: Vec<char>)
    requires
        f <= ie <= ff <= v@.len(),
    ensures
        a@ == v@.subrange(f as int, ie as int) + v@.subrange(ff as int, v@.len() as int),
{
    let mut a = sub_vec(v, f, ie);
    let mut i = ff;
    while i < v.len()
        invariant
            f <= ie <= ff <= i <= v@.len(),
            a@ == v@.subrange(f as int, ie as int) + v@.subrange(ff as int, i as int),
        decreases v.len() - i,
    {
        let c = v[i];
        proof {
            let x = v@.subrange(f as int, ie as int);
            let y = v@.subrange(ff as int, i as int);
            assert(v@.subrange(ff as int, i + 1) =~= y.push(c));
            assert((x + y).push(c) =~= x + y.push(c));
        }
        a.push(c);
        i = i + 1;
    }
    a
}

/// The digit at position `i` of `a` (all digits), zero outside it.
fn dig_at(a: &Vec<char>, i: i128) -> (r: u128)
    requires
        all_digits(a@),
    ensures
        r == dig(a@, i as int),
        r < 10,
{
    if 0 <= i && i < a.len() as i128 {
        let c = a[i as usize];
        assert(is_digit(a@[i as int]));
        (c as u32 - 48) as u128
    } else {
        0
    }
}

/// Reads a number with an exponent mark at `k`.
#[verifier::rlimit(50)]
fn parse_sci(v: &[char], k: usize, cap: u128) -> (r: Result<Decimal, DecimalError>)
    requires
        cap <= max_cap(),
        k < v@.len(),
        find_exp(v@) == Some(k as nat),
    ensures
        match r {
            Ok(d) => decimal_capped_of(v@, cap as nat) == Ok::<(bool, nat), DecimalError>((d.neg, d.nanos as nat)),
            Err(e) => decimal_capped_of(v@, cap as nat) == Err::<(bool, nat), DecimalError>(e),
        },
{
    let n = v.len();
    let m = sub_vec(v, 0, k);
    let x = sub_vec(v, k + 1, n);
    assert(m@ =~= v@.take(k as int));
    assert(x@ =~= v@.skip(k as int + 1));
    let (f, ie, ff) = match split_decimal(m.as_slice()) {
        Some(t) => t,
        None => return Err(DecimalError::Syntax),
    };
    let xneg = x.len() > 0 && x[0] == '-';
    let xf: usize = if x.len() > 0 && (x[0] == '+' || x[0] == '-') { 1 } else { 0 };
    assert(dec_body(x@) =~= x@.subrange(xf as int, x@.len() as int));
    if xf >= x.len() {
        return Err(DecimalError::Syntax);
    }
    let bound: u128 = v.len() as u128 + 40;
    let ev = match digits_sat(x.as_slice(), xf, x.len(), bound) {
        Some(e) => e,
        None => return Err(DecimalError::Syntax),
    };
    let a = joined_digits(m.as_slice(), f, ie, ff);
    let ghost kn = k as nat;
    let ghost ds = sci_digits(v@, kn);
    let ghost pt = sci_point(v@, kn);
    let ghost ex = digits_val(dec_body(x@));
    assert(a@ == ds);
    assert(is_number(v@));
    proof {
        assert forall|i: int| 0 <= i < a@.len() implies is_digit(#[trigger] a@[i]) by {
            let di = dec_int(m@);
            let df = dec_frac(m@);
            if i < di.len() {
                assert(a@[i] == di[i]);
            } else {
                assert(a@[i] == df[i - di.len()]);
            }
        }
    }
    let il: i128 = (ie - f) as i128;
    let p: i128 = if xneg { il - ev as i128 } else { il + ev as i128 };
    proof {
        assert(dec_neg(x@) == xneg);
        assert(il == dec_int(m@).len());
        assert(ev <= bound + 1);
        assert(a@.len() <= v@.len());
        if ex > bound {
            assert(ev == bound + 1);
        }
    }
    assert(ex <= bound ==> p == pt);
    assert(ex > bound && xneg ==> pt <= p <= -41);
    assert(ex > bound && !xneg ==> pt >= p >= a@.len() + 41);
    assert(-0x1_0000_0000_0000_0000_0000 < p < 0x1_0000_0000_0000_0000_0000);
    let mut whole: u128 = 0;
    if p > 0 {
        let mut i: i128 = 0;
        while i < p
            invariant
                0 <= i <= p,
                all_digits(a@),
                whole == lead(a@, i as nat),
                whole <= cap,
                cap <= max_cap(),
                ex <= bound ==> p == pt,
                ex > bound && !xneg ==> pt >= p >= a@.len() + 41,
                ex > bound ==> !xneg,
                find_exp(v@) == Some(kn),
                is_number(v@),
                a@ == ds,
                ds == sci_digits(v@, kn),
                pt == sci_point(v@, kn),
            decreases p - i,
        {
            let d = dig_at(&a, i);
            whole = whole * 10 + d;
            i = i + 1;
            if whole > cap {
                proof {
                    lemma_lead_mono(a@, i as nat, p as nat);
                    if ex > bound && !xneg {
                        lemma_lead_far(a@, p as nat);
                        lemma_lead_far(a@, pt as nat);
                    }
                }
                return Err(DecimalError::TooLarge);
            }
        }
    }
    proof {
        if ex > bound {
            if xneg {
                assert(pt <= 0);
            } else {
                lemma_lead_far(a@, p as nat);
                lemma_lead_far(a@, pt as nat);
                lemma_span_zero(a@, p as int, 9);
                lemma_span_zero(a@, pt, 9);
            }
        }
        assert(num_whole(v@) == whole);
    }
    assert(pow10(9) == 1_000_000_000) by {
        reveal_with_fuel(pow10, 10);
    }
    let mut fr: u128 = 0;
    let mut j: i128 = 0;
    while j < 9
        invariant
            0 <= j <= 9,
            all_digits(a@),
            fr == span(a@, p as int, j as nat),
            fr < pow10(j as nat),
            pow10(9) == 1_000_000_000,
            -0x1_0000_0000_0000_0000_0000 < p < 0x1_0000_0000_0000_0000_0000,
        decreases 9 - j,
    {
        let d = dig_at(&a, p + j);
        proof {
            lemma_pow10_mono((j + 1) as nat, 9);
            let q = pow10(j as nat);
            assert(fr * 10 + d < q * 10) by (nonlinear_arith)
                requires fr < q, d < 10;
        }
        fr = fr * 10 + d;
        j = j + 1;
    }
    proof {
        if ex > bound && xneg {
            lemma_span_zero(a@, p as int, 9);
            lemma_span_zero(a@, pt, 9);
        }
        assert(num_nanos(v@) == whole * 1_000_000_000 + fr);
    }
    Ok(Decimal { neg: v[0] == '-', nanos: whole * 1_000_000_000 + fr })
}

/// Reads a number the way `s.parse::<f64>()` reads the numbers a time or a rate is
/// written with (a plain decimal, optionally with an exponent; no `inf` or `nan`), as its
/// sign and its magnitude in billionths; refused when its whole part is above `cap`.
pub fn parse_decimal_capped(v: &[char], cap: u128) -> (r: Result<Decimal, DecimalError>)
    requires
        cap <= max_cap(),
    ensures
        match r {
            Ok(d) => decimal_capped_of(v@, cap as nat) == Ok::<(bool, nat), DecimalError>((d.neg, d.nanos as nat)),
            Err(e) => decimal_capped_of(v@, cap as nat) == Err::<(bool, nat), DecimalError>(e),
        },
{
    let mut k: usize = 0;
    while k < v.len() && !(v[k] == 'e' || v[k] == 'E')
        invariant
            k <= v@.len(),
            forall|j: int| 0 <= j < k ==> !is_exp_mark(v@[j]),
        decreases v.len() - k,
    {
        k = k + 1;
    }
    proof {
        lemma_find_exp_is(v@, k as int);
    }
    if k == v.len() {
        parse_plain(v, cap)
    } else {
        parse_sci(v, k, cap)
    }
}

/// `parse_decimal_capped` with the bound `10^18`.
pub fn parse_decimal(v: &[char]) -> (r: Result<Decimal, DecimalError>)
    ensures
        match r {
            Ok(d) => decimal_of(v@) == Ok::<(bool, nat), DecimalError>((d.neg, d.nanos as nat)),
            Err(e) => decimal_of(v@) == Err::<(bool, nat), DecimalError>(e),
        },
{
    parse_decimal_capped(v, 1_000_000_000_000_000_000)
}

pub proof fn lemma_frac9_bound(f: Seq<char>)
    ensures
        frac9(f) < 1_000_000_000 || !all_digits(f),
{
    if all_digits(f) {
        reveal_with_fuel(pow10, 10);
        if f.len() >= 9 {
            assert(all_digits(f.take(9)));
            lemma_digits_val_bound(f.take(9));
        } else {
            lemma_digits_val_bound(f);
            lemma_pow10_mono(f.len(), 9);
            let k = (9 - f.len()) as nat;
            let a = digits_val(f);
            assert(pow10(f.len()) * pow10(k) == pow10(9)) by {
                lemma_pow10_add(f.len(), k);
            }
            assert(a * pow10(k) < pow10(f.len()) * pow10(k)) by (nonlinear_arith)
                requires a < pow10(f.len()), pow10(k) >= 1;
            lemma_pow10_pos(k);
        }
    }
}

pub proof fn lemma_pow10_add(a: nat, b: nat)
    ensures
        pow10(a) * pow10(b) == pow10(a + b),
    decreases a,
{
    if a > 0 {
        lemma_pow10_add((a - 1) as nat, b);
        assert(pow10(a + b) == 10 * pow10((a - 1 + b) as nat));
        assert(pow10(a) * pow10(b) == 10 * (pow10((a - 1) as nat) * pow10(b))) by (nonlinear_arith)
            requires pow10(a) == 10 * pow10((a - 1) as nat);
    } else {
        assert(pow10(0) == 1);
    }
}

/// A number's magnitude lies between its whole part and the next whole number.
pub proof fn lemma_nanos_whole(p: Seq<char>)
    requires
        is_number(p),
    ensures
        num_whole(p) * 1_000_000_000 <= num_nanos(p) < (num_whole(p) + 1) * 1_000_000_000,
{
    match find_exp(p) {
        None => {
            lemma_frac9_bound(dec_frac(p));
        },
        Some(k) => {
            let m = p.take(k as int);
            let a = sci_digits(p, k);
            assert forall|i: int| 0 <= i < a.len() implies is_digit(#[trigger] a[i]) by {
                if i < dec_int(m).len() {
                    assert(a[i] == dec_int(m)[i]);
                } else {
                    assert(a[i] == dec_frac(m)[i - dec_int(m).len()]);
                }
            }
            lemma_span_bound(a, sci_point(p, k), 9);
            assert(pow10(9) == 1_000_000_000) by {
                reveal_with_fuel(pow10, 10);
            }
        },
    }
}

/// A plain digit string reads as a whole number.
pub proof fn lemma_decimal_of_digits(t: Seq<char>)
    requires
        all_digits(t),
        t.len() >= 1,
        digits_val(t) <= int_cap(),
    ensures
        decimal_of(t) == Ok::<(bool, nat), DecimalError>((false, digits_val(t) * 1_000_000_000)),
        is_number(t),
        num_whole(t) == digits_val(t),
        num_nanos(t) == digits_val(t) * 1_000_000_000,
        !dec_neg(t),
{
    assert(is_digit(t[0]));
    assert(dec_body(t) == t);
    assert forall|j: int| 0 <= j < t.len() implies t[j] != '.' && !is_exp_mark(t[j]) by {
        assert(is_digit(t[j]));
    }
    lemma_find_exp_is(t, t.len() as int);
    lemma_find_char_is(t, '.', t.len() as int);
    assert(dec_frac(t) =~= Seq::<char>::empty());
    assert(digits_val(Seq::<char>::empty()) == 0);
    assert(frac9(Seq::<char>::empty()) == 0);
}

/// `a.f` with digit strings `a` (at least one digit) and `f` (three digits) reads as
/// `a` units and `f` thousandths.
pub proof fn lemma_decimal_of_point3(a: Seq<char>, f: Seq<char>)
    requires
        all_digits(a),
        all_digits(f),
        a.len() >= 1,
        f.len() == 3,
        digits_val(a) <= int_cap(),
    ensures
        decimal_of(a + seq!['.'] + f) == Ok::<(bool, nat), DecimalError>(
            (false, digits_val(a) * 1_000_000_000 + digits_val(f) * 1_000_000),
        ),
        is_number(a + seq!['.'] + f),
        num_whole(a + seq!['.'] + f) == digits_val(a),
        num_nanos(a + seq!['.'] + f) == digits_val(a) * 1_000_000_000 + digits_val(f) * 1_000_000,
        !dec_neg(a + seq!['.'] + f),
{
    let t = a + seq!['.'] + f;
    assert(is_digit(a[0]));
    assert(t[0] == a[0]);
    assert(dec_body(t) == t);
    assert forall|j: int| 0 <= j < a.len() implies t[j] != '.' by {
        assert(t[j] == a[j]);
        assert(is_digit(a[j]));
    }
    assert(t[a.len() as int] == '.');
    lemma_find_char_is(t, '.', a.len() as int);
    assert forall|j: int| 0 <= j < t.len() implies !is_exp_mark(t[j]) by {
        if j < a.len() {
            assert(t[j] == a[j]);
            assert(is_digit(a[j]));
        } else if j > a.len() {
            assert(t[j] == f[j - a.len() - 1]);
            assert(is_digit(f[j - a.len() - 1]));
        }
    }
    lemma_find_exp_is(t, t.len() as int);
    assert(dec_int(t) =~= a);
    assert(dec_frac(t) =~= f);
    reveal_with_fuel(pow10, 7);
    assert(pow10(6) == 1_000_000);
    assert(frac9(f) == digits_val(f) * 1_000_000);
}

} // verus!
