//! The timeline's text: clip names and ruler labels. Times are whole milliseconds.

use vstd::prelude::*;
use crate::edit::{first_where, lemma_first_where_none, lemma_first_where_some};
use crate::ffmpeg::KeepSegment;
use crate::text::{chars_of, dec, pad0, push_char, push_dec, push_dec_pad, push_str, string_of, trim, trim_bounds};

verus! {

/// A path separator (`/` or `\\`).
pub open spec fn is_sep(c: char) -> bool {
    c == '/' || c == '\\'
}

/// The part of `t` after its last path separator (all of it when there is none).
pub open spec fn after_last_sep(t: Seq<char>) -> Seq<char>
    decreases t.len(),
{
    if t.len() == 0 {
        t
    } else if is_sep(t.last()) {
        seq![]
    } else {
        after_last_sep(t.drop_last()).push(t.last())
    }
}

/// A clip's label: the file name of a trimmed path, cut to 25 characters and `…` when
/// longer than 28; `Clip` for an empty name.
pub open spec fn short_label_of(s: Seq<char>) -> Seq<char> {
    let t = trim(s);
    if t.len() == 0 {
        "Clip"@
    } else {
        let name = after_last_sep(t);
        if name.len() > 28 { name.take(25).push('…') } else { name }
    }
}

proof fn lemma_after_last_sep(t: Seq<char>, k: int)
    requires
        0 <= k <= t.len(),
        k == 0 || is_sep(t[k - 1]),
        forall|j: int| k <= j < t.len() ==> !is_sep(#[trigger] t[j]),
    ensures
        after_last_sep(t) == t.skip(k),
    decreases t.len(),
{
    if t.len() > 0 {
        if k == t.len() {
            assert(t.skip(k) =~= Seq::<char>::empty());
        } else {
            assert(!is_sep(t.last()));
            if k == t.len() - 1 {
                lemma_after_last_sep(t.drop_last(), k);
            } else {
                lemma_after_last_sep(t.drop_last(), k);
            }
            assert(t.drop_last().skip(k).push(t.last()) =~= t.skip(k));
        }
    } else {
        assert(t.skip(k) =~= t);
    }
}

/// The label drawn on a clip.
pub fn short_label(s: &str) -> (r: String)
    ensures
        r@ == short_label_of(s@),
{
    let v = chars_of(s);
    let (a, b) = trim_bounds(v.as_slice());
    if a == b {
        return String::from_str("Clip");
    }
    let ghost t = v@.subrange(a as int, b as int);
    let mut k = b;
    while k > a && !(v[k - 1] == '/' || v[k - 1] == '\\')
        invariant
            a <= k <= b <= v@.len(),
            forall|j: int| k <= j < b ==> !is_sep(#[trigger] v@[j]),
        decreases k - a,
    {
        k = k - 1;
    }
    proof {
        assert forall|j: int| k - a <= j < t.len() implies !is_sep(#[trigger] t[j]) by {
            assert(t[j] == v@[j + a]);
        }
        if k > a {
            assert(t[k - a - 1] == v@[k - 1]);
        }
        lemma_after_last_sep(t, k - a);
        assert(t.skip(k - a) =~= v@.subrange(k as int, b as int));
    }
    if b - k > 28 {
        let mut r = string_of(v.as_slice(), k, k + 25);
        push_char(&mut r, '…');
        assert(v@.subrange(k as int, k + 25) =~= v@.subrange(k as int, b as int).take(25));
        r
    } else {
        string_of(v.as_slice(), k, b)
    }
}

/// The ruler's compact time code: `M:SS`, or `H:MM:SS` from one hour on.
pub open spec fn format_tc_of(ms: nat) -> Seq<char> {
    let total = ms / 1000;
    let h = total / 3600;
    let m = (total % 3600) / 60;
    let s = total % 60;
    if h > 0 {
        dec(h) + seq![':'] + pad0(dec(m), 2) + seq![':'] + pad0(dec(s), 2)
    } else {
        dec(m) + seq![':'] + pad0(dec(s), 2)
    }
}

pub fn format_tc(ms: u64) -> (r: String)
    ensures
        r@ == format_tc_of(ms as nat),
{
    let total = ms / 1000;
    let h = total / 3600;
    let m = (total % 3600) / 60;
    let s = total % 60;
    let mut r = String::new();
    if h > 0 {
        push_dec(&mut r, h);
        push_char(&mut r, ':');
        push_dec_pad(&mut r, m, 2);
        push_char(&mut r, ':');
        push_dec_pad(&mut r, s, 2);
    } else {
        push_dec(&mut r, m);
        push_char(&mut r, ':');
        push_dec_pad(&mut r, s, 2);
    }
    assert(r@ =~= format_tc_of(ms as nat));
    r
}

/// The ruler's tick steps, in milliseconds.
pub open spec fn time_steps() -> Seq<u64> {
    seq![100, 200, 500, 1000, 2000, 5000, 10000, 15000, 30000, 60000, 120000, 300000, 600000]
}

/// The smallest tick step of at least `raw` ms (10 minutes at most).
pub open spec fn nice_time_step_of(raw: nat) -> nat {
    if raw <= 100 { 100 } else if raw <= 200 { 200 } else if raw <= 500 { 500 } else if raw <= 1000 {
        1000
    } else if raw <= 2000 { 2000 } else if raw <= 5000 { 5000 } else if raw <= 10000 { 10000 } else if raw
        <= 15000 { 15000 } else if raw <= 30000 { 30000 } else if raw <= 60000 { 60000 } else if raw
        <= 120000 { 120000 } else if raw <= 300000 { 300000 } else { 600000 }
}

pub fn nice_time_step(raw: u64) -> (r: u64)
    ensures
        r == nice_time_step_of(raw as nat),
        time_steps().contains(r),
        r >= raw || r == 600000,
{
    let steps: [u64; 13] = [100, 200, 500, 1000, 2000, 5000, 10000, 15000, 30000, 60000, 120000, 300000, 600000];
    let mut i: usize = 0;
    while i < 13
        invariant
            i <= 13,
            steps@ == time_steps(),
            forall|j: int| 0 <= j < i ==> steps@[j] < raw,
        decreases 13 - i,
    {
        if steps[i] >= raw {
            assert(time_steps()[i as int] == steps@[i as int]);
            return steps[i];
        }
        i = i + 1;
    }
    assert(time_steps()[12] == 600000);
    600000
}

/// The piece a click at `p` (ms) selects: the first whose range holds it.
pub open spec fn clip_at_of(c: Seq<KeepSegment>, p: int) -> Option<int> {
    first_where(c.len() as int, |i: int| c[i].start <= p && p <= c[i].end)
}

pub fn clip_at(c: &[KeepSegment], p: u64) -> (r: Option<usize>)
    ensures
        match clip_at_of(c@, p as int) {
            Some(i) => r == Some(i as usize),
            None => r is None,
        },
{
    let ghost f: spec_fn(int) -> bool = |i: int| c@[i].start <= p && p <= c@[i].end;
    let mut k: usize = 0;
    while k < c.len()
        invariant
            k <= c@.len(),
            f == (|i: int| c@[i].start <= p && p <= c@[i].end),
            forall|j: int| 0 <= j < k ==> !#[trigger] f(j),
        decreases c.len() - k,
    {
        if c[k].start <= p && p <= c[k].end {
            proof {
                assert(f(k as int));
                lemma_first_where_some(c@.len() as int, f, k as int);
            }
            return Some(k);
        }
        k = k + 1;
    }
    proof {
        lemma_first_where_none(c@.len() as int, f);
    }
    None
}

} // verus!
