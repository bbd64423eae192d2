//! Preview quality: Auto (file + PC) or manual override.

use vstd::prelude::*;
use crate::ffmpeg::min_nat;
use crate::text::{ascii_lower, contains_seq, contains_str, dec, push_char, push_dec, str_eq, to_ascii_lower};

verus! {

/// Preview mode (does not affect trim / stream copy).
#[derive(Debug, Clone, Copy, PartialEq, Eq, Structural)]
pub enum PreviewMode {
    Auto,
    /// Higher render resolution, more load.
    Quality,
    /// Lower resolution, smoother on weak PCs.
    Speed,
}

impl Default for PreviewMode {
    fn default() -> (r: Self)
        ensures
            r == PreviewMode::Auto,
    {
        PreviewMode::Auto
    }
}

impl PreviewMode {
    pub open spec fn label_of(self) -> Seq<char> {
        match self {
            PreviewMode::Auto => "Auto"@,
            PreviewMode::Quality => "Quality"@,
            PreviewMode::Speed => "Speed"@,
        }
    }

    pub open spec fn hint_of(self) -> Seq<char> {
        match self {
            PreviewMode::Auto => "adapts to the file and machine power"@,
            PreviewMode::Quality => "sharper preview (heavier load)"@,
            PreviewMode::Speed => "lighter for CPU/GPU, softer preview"@,
        }
    }

    pub fn all() -> (r: &'static [PreviewMode])
        ensures
            r@ == seq![PreviewMode::Auto, PreviewMode::Quality, PreviewMode::Speed],
    {
        let r: &'static [PreviewMode] = &[PreviewMode::Auto, PreviewMode::Quality, PreviewMode::Speed];
        r
    }

    pub fn label(self) -> (r: &'static str)
        ensures
            r@ == self.label_of(),
    {
        match self {
            PreviewMode::Auto => "Auto",
            PreviewMode::Quality => "Quality",
            PreviewMode::Speed => "Speed",
        }
    }

    pub fn hint(self) -> (r: &'static str)
        ensures
            r@ == self.hint_of(),
    {
        match self {
            PreviewMode::Auto => "adapts to the file and machine power",
            PreviewMode::Quality => "sharper preview (heavier load)",
            PreviewMode::Speed => "lighter for CPU/GPU, softer preview",
        }
    }
}

/// Target preview frame size (even, ≤ source when possible).
#[derive(Debug, Clone, Copy, PartialEq, Eq, Structural)]
pub struct PreviewSize {
    pub w: u32,
    pub h: u32,
}

impl PreviewSize {
    /// `W×H`.
    pub fn label(self) -> (r: String)
        ensures
            r@ == dec(self.w as nat) + seq!['×'] + dec(self.h as nat),
    {
        let mut r = String::new();
        push_dec(&mut r, self.w as u64);
        push_char(&mut r, '×');
        push_dec(&mut r, self.h as u64);
        assert(r@ =~= dec(self.w as nat) + seq!['×'] + dec(self.h as nat));
        r
    }
}

/// The even number at or just below `v`.
pub open spec fn even_of(v: nat) -> nat {
    (v - v % 2) as nat
}

/// Clears the lowest bit: the even number at or just below `v`.
pub fn even(v: u32) -> (r: u32)
    ensures
        r == even_of(v as nat),
{
    let r = v & !1u32;
    assert(v & !1u32 == v - v % 2) by (bit_vector);
    r
}

/// `a * b / c` rounded to the nearest whole number (halves up).
pub open spec fn round_div(a: nat, b: nat, c: nat) -> nat {
    (2 * a * b + c) / (2 * c)
}

/// The source size when its long edge fits `max_long`; else scaled down to a long edge of
/// `max_long`. Both edges even, at least 2 after scaling.
pub open spec fn fit_even_of(w: nat, h: nat, max_long: nat) -> PreviewSize {
    let long = if w >= h { w } else { h };
    if long <= max_long {
        PreviewSize { w: even_of(w) as u32, h: even_of(h) as u32 }
    } else {
        let sw = even_of(round_div(w, max_long, long));
        let sh = even_of(round_div(h, max_long, long));
        PreviewSize { w: (if sw >= 2 { sw } else { 2 }) as u32, h: (if sh >= 2 { sh } else { 2 }) as u32 }
    }
}

/// Fits the frame into `max_long` on its long edge, keeping the aspect, with even sides.
pub fn fit_even(src_w: u32, src_h: u32, max_long: u32) -> (r: PreviewSize)
    ensures
        r == fit_even_of(src_w as nat, src_h as nat, max_long as nat),
{
    let long = if src_w >= src_h { src_w } else { src_h };
    if long <= max_long {
        return PreviewSize { w: even(src_w), h: even(src_h) };
    }
    let l = long as u128;
    let m = max_long as u128;
    let w2 = src_w as u128;
    let h2 = src_h as u128;
    proof {
        assert(2 * w2 * m <= 2 * 0xFFFF_FFFFu128 * 0xFFFF_FFFFu128) by (nonlinear_arith)
            requires w2 <= 0xFFFF_FFFFu128, m <= 0xFFFF_FFFFu128;
        assert(2 * h2 * m <= 2 * 0xFFFF_FFFFu128 * 0xFFFF_FFFFu128) by (nonlinear_arith)
            requires h2 <= 0xFFFF_FFFFu128, m <= 0xFFFF_FFFFu128;
    }
    let sw64 = (2 * w2 * m + l) / (2 * l);
    let sh64 = (2 * h2 * m + l) / (2 * l);
    proof {
        assert((2 * w2 * m + l) / (2 * l) <= m + 1) by (nonlinear_arith)
            requires w2 <= l, l > m, l > 0;
        assert((2 * h2 * m + l) / (2 * l) <= m + 1) by (nonlinear_arith)
            requires h2 <= l, l > m, l > 0;
    }
    let w = even(sw64 as u32);
    let h = even(sh64 as u32);
    PreviewSize { w: if w >= 2 { w } else { 2 }, h: if h >= 2 { h } else { 2 } }
}

/// The codec is one that is heavy to decode (HEVC, H.265, AV1).
pub open spec fn heavy_codec(codec: Seq<char>) -> bool {
    let c = ascii_lower(codec);
    contains_seq(c, "hevc"@) || contains_seq(c, "h265"@) || contains_seq(c, "av1"@) || c == "hev1"@
        || c == "hvc1"@
}

pub fn is_heavy_codec(codec: &str) -> (r: bool)
    ensures
        r == heavy_codec(codec@),
{
    let c = to_ascii_lower(codec);
    contains_str(c.as_str(), "hevc") || contains_str(c.as_str(), "h265") || contains_str(c.as_str(), "av1")
        || str_eq(c.as_str(), "hev1") || str_eq(c.as_str(), "hvc1")
}


/// The long edge the preview is rendered at, for a source of `sw`×`sh`, how heavy it is,
/// and the number of CPU threads.
pub open spec fn preview_long_edge(mode: PreviewMode, sw: nat, sh: nat, heavy: bool, uhd: bool, cores: nat) -> nat {
    match mode {
        PreviewMode::Speed => if heavy { 640 } else { 854 },
        PreviewMode::Quality => if uhd { 1920 } else { min_nat(1920, if sw >= sh { sw } else { sh }) },
        PreviewMode::Auto => if heavy && cores <= 4 {
            854
        } else if heavy && cores <= 8 {
            1280
        } else if heavy {
            1600
        } else if sh >= 1080 && cores >= 6 {
            1920
        } else if sh >= 720 {
            1280
        } else {
            960
        },
    }
}

/// The preview size for a source: unknown sides count as 1920×1080; the source is heavy
/// when it is UHD (≥ 3 Mpx or ≥ 3000 wide), an HEVC/AV1 of ≥ 1.5 Mpx, or ≥ 25 Mbit/s.
pub open spec fn preview_size_of(
    mode: PreviewMode,
    src_w: Option<u32>,
    src_h: Option<u32>,
    codec: Option<Seq<char>>,
    bit_rate: Option<u64>,
    cores: nat,
) -> PreviewSize {
    let sw = match src_w { Some(w) => if w >= 1 { w as nat } else { 1 }, None => 1920 };
    let sh = match src_h { Some(h) => if h >= 1 { h as nat } else { 1 }, None => 1080 };
    let pixels = min_nat(sw * sh, u32::MAX as nat);
    let hc = heavy_codec(match codec { Some(c) => c, None => seq![] });
    let uhd = pixels >= 3_000_000 || sw >= 3000;
    let high_br = match bit_rate { Some(b) => b >= 25_000_000, None => false };
    let heavy = uhd || (hc && pixels >= 1_500_000) || high_br;
    fit_even_of(sw, sh, preview_long_edge(mode, sw, sh, heavy, uhd, cores))
}

/// Resolve preview render size; `cores` is the number of CPU threads (4 when unknown).
pub fn resolve_preview_size(
    mode: PreviewMode,
    src_w: Option<u32>,
    src_h: Option<u32>,
    codec: Option<&str>,
    bit_rate: Option<u64>,
    cores: usize,
) -> (r: PreviewSize)
    ensures
        r == preview_size_of(
            mode,
            src_w,
            src_h,
            match codec { Some(c) => Some(c@), None => None },
            bit_rate,
            cores as nat,
        ),
{
    let sw: u32 = match src_w { Some(w) => if w >= 1 { w } else { 1 }, None => 1920 };
    let sh: u32 = match src_h { Some(h) => if h >= 1 { h } else { 1 }, None => 1080 };
    let a = sw as u128;
    let b = sh as u128;
    assert(a * b <= 0xFFFF_FFFFu128 * 0xFFFF_FFFFu128) by (nonlinear_arith)
        requires a <= 0xFFFF_FFFFu128, b <= 0xFFFF_FFFFu128;
    let p64 = a * b;
    let pixels: u32 = if p64 > u32::MAX as u128 { u32::MAX } else { p64 as u32 };
    let hc = match codec {
        Some(c) => is_heavy_codec(c),
        None => is_heavy_codec(""),
    };
    proof {
        if codec is None {
            assert(""@ =~= Seq::<char>::empty()) by {
                reveal_strlit("");
            }
        }
    }
    let uhd = pixels >= 3_000_000 || sw >= 3000;
    let high_br = match bit_rate { Some(b) => b >= 25_000_000, None => false };
    let heavy = uhd || (hc && pixels >= 1_500_000) || high_br;
    let max_long: u32 = match mode {
        PreviewMode::Speed => if heavy { 640 } else { 854 },
        PreviewMode::Quality => if uhd {
            1920
        } else {
            let l = if sw >= sh { sw } else { sh };
            if 1920 <= l { 1920 } else { l }
        },
        PreviewMode::Auto => if heavy && cores <= 4 {
            854
        } else if heavy && cores <= 8 {
            1280
        } else if heavy {
            1600
        } else if sh >= 1080 && cores >= 6 {
            1920
        } else if sh >= 720 {
            1280
        } else {
            960
        },
    };
    fit_even(sw, sh, max_long)
}

/// A fitted preview size has even sides, its sides stay within the long edge asked for
/// (at least 2), and it is no larger than the source (sides of at least 2).
pub proof fn law_fit_even_fits(w: u32, h: u32, max_long: u32)
    requires
        max_long >= 2,
    ensures
        fit_even_of(w as nat, h as nat, max_long as nat).w % 2 == 0,
        fit_even_of(w as nat, h as nat, max_long as nat).h % 2 == 0,
        fit_even_of(w as nat, h as nat, max_long as nat).w <= max_long,
        fit_even_of(w as nat, h as nat, max_long as nat).h <= max_long,
        w >= 2 ==> fit_even_of(w as nat, h as nat, max_long as nat).w <= w,
        h >= 2 ==> fit_even_of(w as nat, h as nat, max_long as nat).h <= h,
{
    let long: nat = if w >= h { w as nat } else { h as nat };
    let m = max_long as nat;
    if long > m {
        assert(round_div(w as nat, m, long) <= m) by (nonlinear_arith)
            requires
                w <= long,
                long > m,
        ;
        assert(round_div(h as nat, m, long) <= m) by (nonlinear_arith)
            requires
                h <= long,
                long > m,
        ;
        assert(round_div(w as nat, m, long) <= w) by (nonlinear_arith)
            requires
                w <= long,
                long > m,
        ;
        assert(round_div(h as nat, m, long) <= h) by (nonlinear_arith)
            requires
                h <= long,
                long > m,
        ;
    }
}

} // verus!
