//! Times as text: the `MM:SS.mmm` display, ffmpeg-style input (`90`, `1:30`,
//! `01:30.5`, `1:02:03.120`), ruler labels. Times are whole milliseconds.

use vstd::prelude::*;
use crate::number::{
    dec_neg, decimal_of, find_char, int_cap, is_number, lemma_decimal_of_digits, lemma_decimal_of_point3,
    lemma_find_char_is, lemma_nanos_whole, num_nanos, num_whole, parse_decimal, parse_decimal_capped, Decimal,
    DecimalError,
};
use crate::text::{
    all_digits, chars_of, dec, digits_val, is_digit, is_ws, lemma_dec_len_small, lemma_pad_digits, pad0,
    push_char, push_dec, push_dec_pad, push_str, string_of, sub_vec, trim, trim_bounds, trim_end,
    trim_start, find_from,
};

verus! {

/// `MM:SS.mmm`, or `HH:MM:SS.mmm` from one hour on.
pub open spec fn format_seconds_of(ms: nat) -> Seq<char> {
    let frac = ms % 1000;
    let s = (ms / 1000) % 60;
    let m = (ms / 60_000) % 60;
    let h = ms / 3_600_000;
    let tail = pad0(dec(m), 2) + seq![':'] + pad0(dec(s), 2) + seq!['.'] + pad0(dec(frac), 3);
    if h > 0 {
        pad0(dec(h), 2) + seq![':'] + tail
    } else {
        tail
    }
}

/// The display form of a time: `MM:SS.mmm`, with hours in front from one hour on.
pub fn format_seconds(ms: u64) -> (r: String)
    ensures
        r@ == format_seconds_of(ms as nat),
{
    let frac = ms % 1000;
    let total_s = ms / 1000;
    let s = total_s % 60;
    let total_m = total_s / 60;
    let m = total_m % 60;
    let h = total_m / 60;
    assert(total_m == ms / 60_000);
    assert(h == ms / 3_600_000);
    let mut r = String::new();
    if h > 0 {
        if h < 100 {
            push_dec_pad(&mut r, h, 2);
        } else {
            proof { crate::text::lemma_dec_len_pos(h as nat); lemma_dec_len_ge3(h as nat); }
            push_dec(&mut r, h);
        }
        push_char(&mut r, ':');
    }
    let ghost r0 = r@;
    push_dec_pad(&mut r, m, 2);
    push_char(&mut r, ':');
    push_dec_pad(&mut r, s, 2);
    push_char(&mut r, '.');
    push_dec_pad(&mut r, frac, 3);
    assert(r@ =~= format_seconds_of(ms as nat));
    r
}

proof fn lemma_dec_len_ge3(n: nat)
    requires
        n >= 100,
    ensures
        dec(n).len() >= 3,
        pad0(dec(n), 2) == dec(n),
{
    crate::text::lemma_dec_len_pos(n / 10);
    assert(n / 10 >= 10);
}

/// `t` with each comma turned into a point.
pub open spec fn comma_to_dot(t: Seq<char>) -> Seq<char> {
    t.map_values(|c: char| if c == ',' { '.' } else { c })
}

/// The text a time is read from: trimmed, commas read as points.
pub open spec fn time_text(input: Seq<char>) -> Seq<char> {
    comma_to_dot(trim(input))
}

/// A number's signed value in billionths (unbounded).
pub open spec fn signed_nanos(p: Seq<char>) -> int {
    if dec_neg(p) { -(num_nanos(p) as int) } else { num_nanos(p) as int }
}

/// The whole hours read exactly in a clock time (`10^20`).
pub open spec fn hours_cap() -> nat {
    100_000_000_000_000_000_000
}

/// The whole minutes read exactly in a clock time (`10^23`).
pub open spec fn minutes_cap() -> nat {
    100_000_000_000_000_000_000_000
}

/// The whole seconds read exactly in a clock time (`10^26`).
pub open spec fn seconds_cap() -> nat {
    100_000_000_000_000_000_000_000_000
}

/// Nanoseconds rounded to milliseconds (half up).
pub open spec fn round_ms(n: nat) -> nat {
    (n + 500_000) / 1_000_000
}

pub open spec fn msg_too_large() -> Seq<char> {
    "time too large"@
}

/// A time in milliseconds, or the refusal, for a total in nanoseconds.
pub open spec fn time_from_total(total: int) -> Result<nat, Seq<char>> {
    if total < 0 {
        Err("time < 0"@)
    } else if round_ms(total as nat) > u64::MAX {
        Err(msg_too_large())
    } else {
        Ok(round_ms(total as nat))
    }
}

/// `[HH:]MM:SS` with the hours part `h` (`None`: no hours). The total's sign is tested
/// before its size. An hours part above `10^20` is too large whatever follows: the total
/// is then beyond the `u64` range, unless the minutes and seconds together are below
/// about `-1.8·10^23` s, where it is not computed.
pub open spec fn clock_of(h: Option<Seq<char>>, m: Seq<char>, sec: Seq<char>) -> Result<nat, Seq<char>> {
    if h matches Some(hs) && !is_number(hs) {
        Err("hours: "@ + h.unwrap())
    } else if !is_number(m) {
        Err("minutes: "@ + m)
    } else if !is_number(sec) {
        Err("seconds: "@ + sec)
    } else if signed_nanos(m) >= 60_000_000_000 || signed_nanos(sec) >= 60_000_000_000 {
        Err("minutes/seconds must be < 60"@)
    } else if h matches Some(hs) && num_whole(hs) > hours_cap() && !dec_neg(hs) {
        Err(msg_too_large())
    } else {
        let hv = match h {
            Some(hs) => signed_nanos(hs),
            None => 0,
        };
        time_from_total(hv * 3600 + signed_nanos(m) * 60 + signed_nanos(sec))
    }
}

/// What `parse_time` makes of its input: the time in milliseconds, or the message it is
/// refused with.
pub open spec fn parse_time_of(input: Seq<char>) -> Result<nat, Seq<char>> {
    let s = time_text(input);
    if s.len() == 0 {
        Err("empty value"@)
    } else {
        match find_char(s, ':') {
            None => match decimal_of(s) {
                Err(DecimalError::Syntax) => Err("not a number: "@ + s),
                Err(DecimalError::TooLarge) => if dec_neg(s) {
                    Err("time < 0"@)
                } else {
                    Err(msg_too_large())
                },
                Ok((neg, n)) => if neg && n > 0 {
                    Err("time < 0"@)
                } else {
                    time_from_total(n as int)
                },
            },
            Some(k1) => {
                let rest = s.skip(k1 as int + 1);
                match find_char(rest, ':') {
                    None => clock_of(None, s.take(k1 as int), rest),
                    Some(k2) => {
                        let rest2 = rest.skip(k2 as int + 1);
                        if find_char(rest2, ':') is Some {
                            Err("format: SS, MM:SS, or HH:MM:SS"@)
                        } else {
                            clock_of(Some(s.take(k1 as int)), rest.take(k2 as int), rest2)
                        }
                    },
                }
            },
        }
    }
}

/// Error text with the offending part appended.
fn message_with(prefix: &str, part: &[char]) -> (r: String)
    ensures
        r@ == prefix@ + part@,
{
    let mut r = String::new();
    push_str(&mut r, prefix);
    let p = string_of(part, 0, part.len());
    assert(part@.subrange(0, part@.len() as int) =~= part@);
    push_str(&mut r, p.as_str());
    r
}

/// A number's signed value in billionths (the caller knows it is not too large).
fn signed_value(d: Decimal) -> (r: i128)
    requires
        d.nanos <= 1_000_000_000_000_000_000_000_000_000_000_000_000,
    ensures
        r == if d.neg { -(d.nanos as int) } else { d.nanos as int },
{
    if d.neg { -(d.nanos as i128) } else { d.nanos as i128 }
}

/// Milliseconds for a non-negative total of nanoseconds, or the refusal.
fn from_total(total: i128) -> (r: Result<u64, String>)
    ensures
        match r {
            Ok(v) => time_from_total(total as int) == Ok::<nat, Seq<char>>(v as nat),
            Err(m) => time_from_total(total as int) == Err::<nat, Seq<char>>(m@),
        },
{
    if total < 0 {
        return Err(String::from_str("time < 0"));
    }
    let n = total as u128;
    let ms = (n + 500_000) / 1_000_000;
    if ms > u64::MAX as u128 {
        Err(String::from_str("time too large"))
    } else {
        Ok(ms as u64)
    }
}

proof fn lemma_nanos_bound(p: Seq<char>)
    requires
        decimal_of(p) is Ok,
    ensures
        num_nanos(p) <= 1_000_000_001_000_000_000_000_000_000,
{
    lemma_nanos_whole(p);
}

/// The magnitude of a number that was read stays below `10^27 + 10^9` billionths.
pub proof fn lemma_nanos_bound_pub(p: Seq<char>)
    ensures
        decimal_of(p) is Ok ==> num_nanos(p) <= 1_000_000_001_000_000_000_000_000_000,
{
    if decimal_of(p) is Ok {
        lemma_nanos_bound(p);
    }
}

fn clock(h: Option<&[char]>, m: &[char], sec: &[char]) -> (r: Result<u64, String>)
    ensures
        match r {
            Ok(v) => clock_of(
                match h {
                    Some(x) => Some(x@),
                    None => None,
                },
                m@,
                sec@,
            ) == Ok::<nat, Seq<char>>(v as nat),
            Err(e) => clock_of(
                match h {
                    Some(x) => Some(x@),
                    None => None,
                },
                m@,
                sec@,
            ) == Err::<nat, Seq<char>>(e@),
        },
{
    let hd: Result<Decimal, DecimalError> = match h {
        Some(hs) => {
            let d = parse_decimal_capped(hs, 100_000_000_000_000_000_000);
            match d {
                Err(DecimalError::Syntax) => return Err(message_with("hours: ", hs)),
                _ => {},
            }
            d
        },
        None => Ok(Decimal { neg: false, nanos: 0 }),
    };
    let md = parse_decimal_capped(m, 100_000_000_000_000_000_000_000);
    match md {
        Err(DecimalError::Syntax) => return Err(message_with("minutes: ", m)),
        _ => {},
    }
    let sd = parse_decimal_capped(sec, 100_000_000_000_000_000_000_000_000);
    match sd {
        Err(DecimalError::Syntax) => return Err(message_with("seconds: ", sec)),
        _ => {},
    }
    proof {
        if let Some(hs) = h {
            lemma_nanos_whole(hs@);
        }
        lemma_nanos_whole(m@);
        lemma_nanos_whole(sec@);
    }
    // a value over its bound is at least 60 when positive
    let m_big = match md {
        Ok(d) => !d.neg && d.nanos >= 60_000_000_000,
        Err(_) => m[0] != '-',
    };
    let s_big = match sd {
        Ok(d) => !d.neg && d.nanos >= 60_000_000_000,
        Err(_) => sec[0] != '-',
    };
    if m_big || s_big {
        return Err(String::from_str("minutes/seconds must be < 60"));
    }
    match hd {
        Err(_) => {
            let hs = match h {
                Some(x) => x,
                None => return Err(String::from_str("time too large")),
            };
            if hs[0] != '-' {
                Err(String::from_str("time too large"))
            } else {
                Err(String::from_str("time < 0"))
            }
        },
        Ok(hv) => match (md, sd) {
            (Ok(mv), Ok(sv)) => {
                let total = signed_value(hv) * 3600 + signed_value(mv) * 60 + signed_value(sv);
                from_total(total)
            },
            _ => Err(String::from_str("time < 0")),
        },
    }
}

/// Parses a time: `90`, `1:30`, `01:30.5`, `1:02:03.120` (a comma may stand for the
/// point). Minutes and seconds must be under 60 and the time must not be negative.
/// Each part is a decimal, optionally with an exponent (`1e2`, `1.5E-1`); `inf` and
/// `nan` are refused as not a number. Parts are read to the billionth.
pub fn parse_time(input: &str) -> (r: Result<u64, String>)
    ensures
        match r {
            Ok(v) => parse_time_of(input@) == Ok::<nat, Seq<char>>(v as nat),
            Err(m) => parse_time_of(input@) == Err::<nat, Seq<char>>(m@),
        },
{
    let v = chars_of(input);
    let (a, b) = trim_bounds(v.as_slice());
    let mut t: Vec<char> = Vec::new();
    let mut i = a;
    while i < b
        invariant
            a <= i <= b <= v@.len(),
            t@ == comma_to_dot(v@.subrange(a as int, i as int)),
        decreases b - i,
    {
        let c = v[i];
        t.push(if c == ',' { '.' } else { c });
        assert(comma_to_dot(v@.subrange(a as int, i + 1)) =~= comma_to_dot(v@.subrange(a as int, i as int)).push(
            if c == ',' { '.' } else { c },
        ));
        i = i + 1;
    }
    assert(t@ == time_text(input@));
    if t.len() == 0 {
        return Err(String::from_str("empty value"));
    }
    let k1 = find_from(t.as_slice(), 0, ':');
    proof {
        lemma_find_char_is(t@, ':', k1 as int);
    }
    if k1 == t.len() {
        return match parse_decimal(t.as_slice()) {
            Err(DecimalError::Syntax) => Err(message_with("not a number: ", t.as_slice())),
            Err(DecimalError::TooLarge) => {
                if t[0] == '-' {
                    Err(String::from_str("time < 0"))
                } else {
                    Err(String::from_str("time too large"))
                }
            },
            Ok(d) => {
                if d.neg && d.nanos > 0 {
                    Err(String::from_str("time < 0"))
                } else {
                    proof {
                        lemma_nanos_bound(t@);
                    }
                    from_total(d.nanos as i128)
                }
            },
        };
    }
    let first = sub_vec(t.as_slice(), 0, k1);
    let rest = sub_vec(t.as_slice(), k1 + 1, t.len());
    assert(first@ =~= t@.take(k1 as int));
    assert(rest@ =~= t@.skip(k1 as int + 1));
    let k2 = find_from(rest.as_slice(), 0, ':');
    proof {
        lemma_find_char_is(rest@, ':', k2 as int);
    }
    if k2 == rest.len() {
        return clock(None, first.as_slice(), rest.as_slice());
    }
    let mid = sub_vec(rest.as_slice(), 0, k2);
    let last = sub_vec(rest.as_slice(), k2 + 1, rest.len());
    assert(mid@ =~= rest@.take(k2 as int));
    assert(last@ =~= rest@.skip(k2 as int + 1));
    let k3 = find_from(last.as_slice(), 0, ':');
    proof {
        lemma_find_char_is(last@, ':', k3 as int);
    }
    if k3 < last.len() {
        return Err(String::from_str("format: SS, MM:SS, or HH:MM:SS"));
    }
    clock(Some(first.as_slice()), mid.as_slice(), last.as_slice())
}

/// A character of the display form of a time.
spec fn time_char(c: char) -> bool {
    is_digit(c) || c == ':' || c == '.'
}

proof fn lemma_time_text_plain(s: Seq<char>)
    requires
        s.len() >= 1,
        is_digit(s[0]),
        is_digit(s.last()),
        forall|i: int| 0 <= i < s.len() ==> time_char(#[trigger] s[i]),
    ensures
        time_text(s) == s,
{
    assert(!is_ws(s[0]));
    assert(!is_ws(s.last()));
    assert(trim_start(s) == s);
    assert(trim_end(s) == s);
    assert(trim(s) == s);
    assert(comma_to_dot(s) =~= s) by {
        assert forall|i: int| 0 <= i < s.len() implies s[i] != ',' by {
            assert(time_char(s[i]));
        }
    }
}

proof fn lemma_no_colon(t: Seq<char>)
    requires
        forall|i: int| 0 <= i < t.len() ==> is_digit(#[trigger] t[i]) || t[i] == '.',
    ensures
        find_char(t, ':') is None,
{
    assert forall|j: int| 0 <= j < t.len() implies t[j] != ':' by {
        assert(is_digit(t[j]) || t[j] == '.');
    }
    lemma_find_char_is(t, ':', t.len() as int);
}

proof fn lemma_clock_parts(ms: nat)
    ensures
        ms == (ms / 3_600_000) * 3_600_000 + ((ms / 60_000) % 60) * 60_000 + ((ms / 1000) % 60) * 1000
            + ms % 1000,
{
    let a = ms / 1000;
    let b = a / 60;
    vstd::arithmetic::div_mod::lemma_fundamental_div_mod(ms as int, 1000);
    vstd::arithmetic::div_mod::lemma_fundamental_div_mod(a as int, 60);
    vstd::arithmetic::div_mod::lemma_fundamental_div_mod(b as int, 60);
    vstd::arithmetic::div_mod::lemma_div_denominator(ms as int, 1000, 60);
    vstd::arithmetic::div_mod::lemma_div_denominator(ms as int, 60_000, 60);
    assert(b == ms / 60_000);
    assert(b / 60 == ms / 3_600_000);
}

/// Reading back the display form of a time gives the time: `parse_time` of
/// `format_seconds(ms)` is `ms`.
pub proof fn law_format_parse_roundtrip(ms: nat)
    requires
        ms <= u64::MAX,
    ensures
        parse_time_of(format_seconds_of(ms)) == Ok::<nat, Seq<char>>(ms),
{
    let frac = ms % 1000;
    let sec = (ms / 1000) % 60;
    let m = (ms / 60_000) % 60;
    let h = ms / 3_600_000;
    lemma_pad_digits(m, 2);
    lemma_pad_digits(sec, 2);
    lemma_pad_digits(frac, 3);
    lemma_pad_digits(h, 2);
    lemma_dec_len_small(m);
    lemma_dec_len_small(sec);
    lemma_dec_len_small(frac);
    let mm = pad0(dec(m), 2);
    let ss = pad0(dec(sec), 2);
    let ff = pad0(dec(frac), 3);
    let hh = pad0(dec(h), 2);
    let secpart = ss + seq!['.'] + ff;
    let tail = mm + seq![':'] + secpart;
    lemma_clock_parts(ms);
    assert(h <= int_cap());
    lemma_decimal_of_digits(mm);
    lemma_decimal_of_point3(ss, ff);
    assert forall|i: int| 0 <= i < secpart.len() implies is_digit(#[trigger] secpart[i]) || secpart[i] == '.' by {
        if i < 2 {
            assert(secpart[i] == ss[i]);
        } else if i > 2 {
            assert(secpart[i] == ff[i - 3]);
        }
    }
    lemma_no_colon(secpart);
    assert forall|i: int| 0 <= i < tail.len() implies time_char(#[trigger] tail[i]) by {
        if i < 2 {
            assert(tail[i] == mm[i]);
        } else if i > 2 {
            assert(tail[i] == secpart[i - 3]);
        }
    }
    assert(tail[2] == ':');
    assert forall|j: int| 0 <= j < 2 implies tail[j] != ':' by {
        assert(tail[j] == mm[j]);
    }
    lemma_find_char_is(tail, ':', 2);
    assert(tail.take(2) =~= mm);
    assert(tail.skip(3) =~= secpart);
    assert(tail[0] == mm[0]);
    assert(tail.last() == ff[2]);
    let total = sec * 1_000_000_000 + frac * 1_000_000;
    assert(total < 60_000_000_000);
    if h > 0 {
        lemma_decimal_of_digits(hh);
        let s = hh + seq![':'] + tail;
        assert(format_seconds_of(ms) == s);
        assert forall|i: int| 0 <= i < s.len() implies time_char(#[trigger] s[i]) by {
            if i < hh.len() {
                assert(s[i] == hh[i]);
            } else if i > hh.len() {
                assert(s[i] == tail[i - hh.len() - 1]);
            }
        }
        assert(s[0] == hh[0]);
        assert(s.last() == tail.last());
        lemma_time_text_plain(s);
        assert(s[hh.len() as int] == ':');
        assert forall|j: int| 0 <= j < hh.len() implies s[j] != ':' by {
            assert(s[j] == hh[j]);
        }
        lemma_find_char_is(s, ':', hh.len() as int);
        assert(s.take(hh.len() as int) =~= hh);
        assert(s.skip(hh.len() as int + 1) =~= tail);
        let t = h * 1_000_000_000 * 3600 + m * 1_000_000_000 * 60 + total;
        assert(t == ms * 1_000_000) by (nonlinear_arith)
            requires
                ms == h * 3_600_000 + m * 60_000 + sec * 1000 + frac,
                total == sec * 1_000_000_000 + frac * 1_000_000,
                t == h * 1_000_000_000 * 3600 + m * 1_000_000_000 * 60 + total,
        ;
        assert((ms * 1_000_000 + 500_000) / 1_000_000 == ms) by (nonlinear_arith);
    } else {
        assert(format_seconds_of(ms) == tail);
        lemma_time_text_plain(tail);
        let t = m * 1_000_000_000 * 60 + total;
        assert(t == ms * 1_000_000) by (nonlinear_arith)
            requires
                ms == m * 60_000 + sec * 1000 + frac,
                total == sec * 1_000_000_000 + frac * 1_000_000,
                t == m * 1_000_000_000 * 60 + total,
        ;
        assert((ms * 1_000_000 + 500_000) / 1_000_000 == ms) by (nonlinear_arith);
    }
}

} // verus!
