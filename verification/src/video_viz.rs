//! The ffmpeg preview stream (when libmpv is not available): its profile, the ffmpeg
//! arguments of a live stream and of a still frame, and frame conversion.
//! Times are whole milliseconds; rates are thousandths of a frame per second.

use vstd::prelude::*;
use crate::ffmpeg::{args_view, ffmpeg_time, format_ffmpeg_time, min_nat, push_arg, push_arg_string, FfmpegArgs};
use crate::preview_quality::PreviewSize;
use crate::text::{
    ascii_lower, contains_seq, contains_str, dec, pad0, push_dec, push_dec_pad, push_str, split_head, split_head_str,
    str_eq, to_ascii_lower,
};

verus! {

/// Width of the preview frames.
pub const STREAM_W: u32 = 480;
/// Height of the preview frames.
pub const STREAM_H: u32 = 270;

/// Bytes of one RGB preview frame (480×270×3).
pub const RGB_BYTES: usize = 388800;
/// Bytes of one RGBA preview frame (480×270×4).
pub const RGBA_BYTES: usize = 518400;

/// How the preview stream decodes a source.
#[derive(Debug)]
pub struct StreamProfile {
    /// Thousandths of a frame per second.
    pub fps: u64,
    pub prefer_hw: bool,
    pub heavy: bool,
    pub label: String,
}

impl StreamProfile {
    /// 24 fps on the CPU.
    pub fn default_profile() -> (r: Self)
        ensures
            r.fps == 24000 && !r.prefer_hw && !r.heavy && r.label@ == "live"@,
    {
        StreamProfile { fps: 24000, prefer_hw: false, heavy: false, label: String::from_str("live") }
    }
}

/// `{:.0}` of a rate given in thousandths: the nearest whole number, halves to even.
pub open spec fn whole_rate(m: nat) -> nat {
    let q = m / 1000;
    let r = m % 1000;
    if r > 500 || (r == 500 && q % 2 == 1) { q + 1 } else { q }
}

fn whole_rate_exec(m: u64) -> (r: u64)
    ensures
        r == whole_rate(m as nat),
{
    let q = m / 1000;
    let r = m % 1000;
    if r > 500 || (r == 500 && q % 2 == 1) { q + 1 } else { q }
}

pub open spec fn is_hevc(c: Seq<char>) -> bool {
    let l = ascii_lower(c);
    contains_seq(l, "hevc"@) || contains_seq(l, "h265"@) || l == "hev1"@ || l == "hvc1"@
}

pub open spec fn is_av1(c: Seq<char>) -> bool {
    contains_seq(ascii_lower(c), "av1"@)
}

/// The label of a heavy source: size, codec name and the reduced rate.
pub open spec fn heavy_label(w: nat, h: nat, hevc: bool, av1: bool, codec: Option<Seq<char>>, fps: nat) -> Seq<char> {
    let name = if hevc { "HEVC"@ } else if av1 { "AV1"@ } else { match codec { Some(x) => x, None => "?"@ } };
    "live "@ + dec(w) + seq!['×'] + dec(h) + " "@ + name + " → 270p@"@ + dec(fps / 1000) + " VAAPI/CPU"@
}

/// The rate of a light source: the source rate when known and above 1 fps, at most 24.
pub open spec fn light_fps(src_fps: Option<i64>) -> nat {
    match src_fps {
        Some(f) => if f > 1000 { min_nat(f as nat, 24000) } else { 24000 },
        None => 24000,
    }
}

/// The profile for a source: heavy sources (UHD, i.e. ≥ 3 Mpx or ≥ 2560 wide; HEVC/AV1
/// of ≥ 1.5 Mpx; ≥ 20 Mbit/s) get 12 fps (UHD HEVC/AV1) or 15 fps and hardware
/// decoding; other sources of ≥ 1.5 Mpx 20 fps with hardware decoding; the rest the
/// source rate up to 24 fps (24 when unknown or not above 1).
pub open spec fn profile_fields(
    width: Option<u32>,
    height: Option<u32>,
    codec: Option<Seq<char>>,
    src_fps: Option<i64>,
    bit_rate: Option<u64>,
) -> (nat, bool, bool, Seq<char>) {
    let w = match width { Some(x) => x as nat, None => 0 };
    let h = match height { Some(x) => x as nat, None => 0 };
    let pixels = min_nat(w * h, u32::MAX as nat);
    let c = match codec { Some(x) => x, None => seq![] };
    let hevc = is_hevc(c);
    let av1 = is_av1(c);
    let heavy_codec = hevc || av1;
    let uhd = pixels >= 3_000_000 || w >= 2560;
    let high_br = match bit_rate { Some(b) => b >= 20_000_000, None => false };
    let heavy = uhd || (heavy_codec && pixels >= 1_500_000) || high_br;
    if heavy {
        let fps: nat = if uhd && heavy_codec { 12000 } else { 15000 };
        (fps, true, true, heavy_label(w, h, hevc, av1, codec, fps))
    } else if pixels >= 1_500_000 {
        (20000, true, false, "live 480×270@20"@)
    } else {
        let fps = light_fps(src_fps);
        (fps, false, false, "live @"@ + dec(whole_rate(fps)))
    }
}

/// `w * h`, saturated at `u32::MAX`.
fn sat_pixels(w: u32, h: u32) -> (p: u32)
    ensures
        p == min_nat(w as nat * h as nat, u32::MAX as nat),
{
    let a = w as u128;
    let b = h as u128;
    assert(a * b <= 0xFFFF_FFFFu128 * 0xFFFF_FFFFu128) by (nonlinear_arith)
        requires
            a <= 0xFFFF_FFFFu128,
            b <= 0xFFFF_FFFFu128,
    ;
    let p = a * b;
    if p > u32::MAX as u128 { u32::MAX } else { p as u32 }
}

/// Whether the codec name reads as HEVC, and whether as AV1.
fn codec_kind(codec: Option<&str>) -> (r: (bool, bool))
    ensures
        r.0 == is_hevc(match codec { Some(c) => c@, None => seq![] }),
        r.1 == is_av1(match codec { Some(c) => c@, None => seq![] }),
{
    let cs: &str = match codec {
        Some(c) => c,
        None => "",
    };
    proof {
        if codec is None {
            assert(""@ =~= Seq::<char>::empty()) by {
                reveal_strlit("");
            }
        }
    }
    let l = to_ascii_lower(cs);
    let hevc = contains_str(l.as_str(), "hevc") || contains_str(l.as_str(), "h265") || str_eq(
        l.as_str(),
        "hev1",
    ) || str_eq(l.as_str(), "hvc1");
    let av1 = contains_str(l.as_str(), "av1");
    (hevc, av1)
}

fn heavy_label_exec(w: u32, h: u32, hevc: bool, av1: bool, codec: Option<&str>, fps: u64) -> (r: String)
    ensures
        r@ == heavy_label(w as nat, h as nat, hevc, av1, match codec { Some(c) => Some(c@), None => None }, fps as nat),
{
    let mut label = String::new();
    push_str(&mut label, "live ");
    push_dec(&mut label, w as u64);
    crate::text::push_char(&mut label, '×');
    push_dec(&mut label, h as u64);
    push_str(&mut label, " ");
    if hevc {
        push_str(&mut label, "HEVC");
    } else if av1 {
        push_str(&mut label, "AV1");
    } else {
        match codec {
            Some(c) => push_str(&mut label, c),
            None => push_str(&mut label, "?"),
        }
    }
    push_str(&mut label, " → 270p@");
    push_dec(&mut label, fps / 1000);
    push_str(&mut label, " VAAPI/CPU");
    assert(label@ =~= heavy_label(w as nat, h as nat, hevc, av1, match codec { Some(c) => Some(c@), None => None }, fps as nat));
    label
}

impl StreamProfile {
    pub fn from_media(
        width: Option<u32>,
        height: Option<u32>,
        codec: Option<&str>,
        src_fps: Option<i64>,
        bit_rate: Option<u64>,
    ) -> (r: Self)
        ensures
            (r.fps as nat, r.prefer_hw, r.heavy, r.label@) == profile_fields(
                width,
                height,
                match codec { Some(c) => Some(c@), None => None },
                src_fps,
                bit_rate,
            ),
    {
        let w: u32 = match width { Some(x) => x, None => 0 };
        let h: u32 = match height { Some(x) => x, None => 0 };
        let pixels = sat_pixels(w, h);
        let (hevc, av1) = codec_kind(codec);
        let heavy_codec = hevc || av1;
        let uhd = pixels >= 3_000_000 || w >= 2560;
        let high_br = match bit_rate { Some(b) => b >= 20_000_000, None => false };
        let heavy = uhd || (heavy_codec && pixels >= 1_500_000) || high_br;
        if heavy {
            let fps: u64 = if uhd && heavy_codec { 12000 } else { 15000 };
            let label = heavy_label_exec(w, h, hevc, av1, codec, fps);
            StreamProfile { fps, prefer_hw: true, heavy: true, label }
        } else if pixels >= 1_500_000 {
            StreamProfile { fps: 20000, prefer_hw: true, heavy: false, label: String::from_str("live 480×270@20") }
        } else {
            let fps: u64 = match src_fps {
                Some(f) => if f > 1000 { if f <= 24000 { f as u64 } else { 24000 } } else { 24000 },
                None => 24000,
            };
            let mut label = String::new();
            push_str(&mut label, "live @");
            push_dec(&mut label, whole_rate_exec(fps));
            assert(label@ =~= "live @"@ + dec(whole_rate(fps as nat)));
            StreamProfile { fps, prefer_hw: false, heavy: false, label }
        }
    }
}

/// The decoder a still or a live stream uses: VAAPI when the profile asks for hardware
/// decoding and a VAAPI device was found, else the CPU.
pub fn hw_label(prefer_hw: bool, has_vaapi: bool) -> (r: &'static str)
    ensures
        r@ == if prefer_hw && has_vaapi { "VAAPI"@ } else { "CPU"@ },
{
    if prefer_hw && has_vaapi { "VAAPI" } else { "CPU" }
}

/// Decoder options of one preview request.
#[derive(Debug)]
pub struct DecodeOpts {
    /// Thousandths of a frame per second.
    pub fps: u64,
    pub use_vaapi: bool,
    pub vaapi_device: Option<String>,
    /// true = audio master (skip frames). false = free-run, sleep to fps.
    pub audio_master: bool,
    pub heavy: bool,
}

/// The rate a live stream decodes at: the profile's, kept within 8–30 fps.
pub open spec fn stream_rate(fps: nat) -> nat {
    if fps < 8000 { 8000 } else if fps > 30000 { 30000 } else { fps }
}

/// The scaler of a preview: nearest neighbour for heavy sources, fast bilinear otherwise.
pub open spec fn scale_flags(heavy: bool) -> Seq<char> {
    if heavy { "neighbor"@ } else { "fast_bilinear"@ }
}

/// Scaling into the 480×270 frame, letterboxed, as RGB.
pub open spec fn frame_filter(flags: Seq<char>) -> Seq<char> {
    "scale=480:270:flags="@ + flags + ":force_original_aspect_ratio=decrease,pad=480:270:(ow-iw)/2:(oh-ih)/2,format=rgb24"@
}

/// `fps=<rate with 3 decimals>:round=down,` before the frame filter.
pub open spec fn live_filter(fps: nat, heavy: bool) -> Seq<char> {
    "fps="@ + ffmpeg_time(stream_rate(fps)) + ":round=down,"@ + frame_filter(scale_flags(heavy))
}

/// `-hwaccel vaapi -hwaccel_device <dev>` when VAAPI is used and a device is known.
pub open spec fn hwaccel_args(use_vaapi: bool, dev: Option<Seq<char>>) -> Seq<Seq<char>> {
    if use_vaapi && dev is Some {
        seq!["-hwaccel"@, "vaapi"@, "-hwaccel_device"@, dev.unwrap()]
    } else {
        seq![]
    }
}

pub open spec fn dev_view(o: Option<String>) -> Option<Seq<char>> {
    match o {
        Some(s) => Some(s@),
        None => None,
    }
}

/// A live raw-RGB stream from `from`, without audio, subtitles or data.
pub open spec fn stream_before(from: nat, o: &DecodeOpts) -> Seq<Seq<char>> {
    seq![
        "-hide_banner"@,
        "-loglevel"@,
        "error"@,
        "-fflags"@,
        "nobuffer+discardcorrupt+fastseek"@,
        "-flags"@,
        "low_delay"@,
        "-probesize"@,
        "32k"@,
        "-analyzeduration"@,
        "0"@,
    ] + hwaccel_args(o.use_vaapi, dev_view(o.vaapi_device)) + seq!["-ss"@, ffmpeg_time(from), "-i"@]
}

pub open spec fn stream_after(o: &DecodeOpts) -> Seq<Seq<char>> {
    seq![
        "-an"@,
        "-sn"@,
        "-dn"@,
        "-threads"@,
        "0"@,
        "-vf"@,
        live_filter(o.fps as nat, o.heavy),
        "-f"@,
        "rawvideo"@,
        "-pix_fmt"@,
        "rgb24"@,
        "-"@,
    ]
}

fn push_hwaccel(args: &mut Vec<String>, o: &DecodeOpts)
    ensures
        args_view(final(args)@) == args_view(old(args)@) + hwaccel_args(o.use_vaapi, dev_view(o.vaapi_device)),
{
    let ghost a0 = args_view(args@);
    if o.use_vaapi {
        if let Some(dev) = &o.vaapi_device {
            push_arg(args, "-hwaccel");
            push_arg(args, "vaapi");
            push_arg(args, "-hwaccel_device");
            push_arg(args, dev.as_str());
        }
    }
    assert(args_view(args@) =~= a0 + hwaccel_args(o.use_vaapi, dev_view(o.vaapi_device)));
}

fn frame_filter_string(heavy: bool, prefix: String) -> (r: String)
    ensures
        r@ == prefix@ + frame_filter(scale_flags(heavy)),
{
    let mut r = prefix;
    let ghost p = r@;
    push_str(&mut r, "scale=480:270:flags=");
    push_str(&mut r, if heavy { "neighbor" } else { "fast_bilinear" });
    push_str(&mut r, ":force_original_aspect_ratio=decrease,pad=480:270:(ow-iw)/2:(oh-ih)/2,format=rgb24");
    assert(r@ =~= p + frame_filter(scale_flags(heavy)));
    r
}

/// The arguments of a live preview stream from `from` (the input is the source file).
pub fn stream_args(from: u64, o: &DecodeOpts) -> (r: FfmpegArgs)
    ensures
        args_view(r.before_input@) == stream_before(from as nat, o),
        args_view(r.after_input@) == stream_after(o),
{
    let mut before: Vec<String> = Vec::new();
    push_arg(&mut before, "-hide_banner");
    push_arg(&mut before, "-loglevel");
    push_arg(&mut before, "error");
    push_arg(&mut before, "-fflags");
    push_arg(&mut before, "nobuffer+discardcorrupt+fastseek");
    push_arg(&mut before, "-flags");
    push_arg(&mut before, "low_delay");
    push_arg(&mut before, "-probesize");
    push_arg(&mut before, "32k");
    push_arg(&mut before, "-analyzeduration");
    push_arg(&mut before, "0");
    push_hwaccel(&mut before, o);
    push_arg(&mut before, "-ss");
    push_arg_string(&mut before, format_ffmpeg_time(from));
    push_arg(&mut before, "-i");
    assert(args_view(before@) =~= stream_before(from as nat, o));
    let rate: u64 = if o.fps < 8000 { 8000 } else if o.fps > 30000 { 30000 } else { o.fps };
    let mut pre = String::new();
    push_str(&mut pre, "fps=");
    let t = format_ffmpeg_time(rate);
    push_str(&mut pre, t.as_str());
    push_str(&mut pre, ":round=down,");
    let vf = frame_filter_string(o.heavy, pre);
    assert(vf@ =~= live_filter(o.fps as nat, o.heavy));
    let mut after: Vec<String> = Vec::new();
    push_arg(&mut after, "-an");
    push_arg(&mut after, "-sn");
    push_arg(&mut after, "-dn");
    push_arg(&mut after, "-threads");
    push_arg(&mut after, "0");
    push_arg(&mut after, "-vf");
    push_arg_string(&mut after, vf);
    push_arg(&mut after, "-f");
    push_arg(&mut after, "rawvideo");
    push_arg(&mut after, "-pix_fmt");
    push_arg(&mut after, "rgb24");
    push_arg(&mut after, "-");
    assert(args_view(after@) =~= stream_after(o));
    FfmpegArgs { before_input: before, after_input: after }
}

/// One still frame at `at`: keyframes only for heavy sources; `basic` is the plain
/// fallback (nearest-neighbour scaling, subtitles kept out of the options).
pub open spec fn still_before(at: nat, o: &DecodeOpts, basic: bool) -> Seq<Seq<char>> {
    seq!["-hide_banner"@, "-loglevel"@, "error"@] + hwaccel_args(o.use_vaapi, dev_view(o.vaapi_device))
        + (if !basic && o.heavy { seq!["-skip_frame"@, "nokey"@] } else { seq![] }) + seq![
        "-ss"@,
        ffmpeg_time(at),
        "-i"@,
    ]
}

pub open spec fn still_after(o: &DecodeOpts, basic: bool) -> Seq<Seq<char>> {
    if basic {
        seq![
            "-frames:v"@,
            "1"@,
            "-an"@,
            "-vf"@,
            frame_filter("neighbor"@),
            "-f"@,
            "rawvideo"@,
            "-pix_fmt"@,
            "rgb24"@,
            "-"@,
        ]
    } else {
        seq![
            "-frames:v"@,
            "1"@,
            "-an"@,
            "-sn"@,
            "-vf"@,
            frame_filter(scale_flags(o.heavy)),
            "-f"@,
            "rawvideo"@,
            "-pix_fmt"@,
            "rgb24"@,
            "-"@,
        ]
    }
}

/// The arguments that extract one RGB frame at `at` (the input is the source file).
pub fn still_args(at: u64, o: &DecodeOpts, basic: bool) -> (r: FfmpegArgs)
    ensures
        args_view(r.before_input@) == still_before(at as nat, o, basic),
        args_view(r.after_input@) == still_after(o, basic),
{
    let mut before: Vec<String> = Vec::new();
    push_arg(&mut before, "-hide_banner");
    push_arg(&mut before, "-loglevel");
    push_arg(&mut before, "error");
    push_hwaccel(&mut before, o);
    let ghost b1 = args_view(before@);
    if !basic && o.heavy {
        push_arg(&mut before, "-skip_frame");
        push_arg(&mut before, "nokey");
    }
    push_arg(&mut before, "-ss");
    push_arg_string(&mut before, format_ffmpeg_time(at));
    push_arg(&mut before, "-i");
    assert(args_view(before@) =~= still_before(at as nat, o, basic));
    let mut after: Vec<String> = Vec::new();
    push_arg(&mut after, "-frames:v");
    push_arg(&mut after, "1");
    push_arg(&mut after, "-an");
    if !basic {
        push_arg(&mut after, "-sn");
    }
    push_arg(&mut after, "-vf");
    let vf = frame_filter_string(if basic { true } else { o.heavy }, String::new());
    assert(vf@ =~= if basic { frame_filter("neighbor"@) } else { frame_filter(scale_flags(o.heavy)) });
    push_arg_string(&mut after, vf);
    push_arg(&mut after, "-f");
    push_arg(&mut after, "rawvideo");
    push_arg(&mut after, "-pix_fmt");
    push_arg(&mut after, "rgb24");
    push_arg(&mut after, "-");
    assert(args_view(after@) =~= still_after(o, basic));
    FfmpegArgs { before_input: before, after_input: after }
}

/// A still that failed with VAAPI or keyframe-only decoding is tried once more on the
/// CPU with the plain arguments.
pub fn still_retry_opts(o: &DecodeOpts) -> (r: Option<DecodeOpts>)
    ensures
        (o.use_vaapi || o.heavy) <==> r is Some,
        r matches Some(s) ==> !s.use_vaapi && !s.heavy && s.fps == o.fps && s.audio_master == o.audio_master
            && dev_view(s.vaapi_device) == dev_view(o.vaapi_device),
{
    if o.use_vaapi || o.heavy {
        let dev = match &o.vaapi_device {
            Some(d) => Some(d.clone()),
            None => None,
        };
        Some(DecodeOpts { fps: o.fps, use_vaapi: false, vaapi_device: dev, audio_master: o.audio_master, heavy: false })
    } else {
        None
    }
}

/// Length in bytes of the RGBA form of an RGB frame.
pub open spec fn rgba_len(rgb: Seq<u8>) -> int {
    (rgb.len() / 3 * 4) as int
}

/// The RGB frame as RGBA (opaque): pixel `i` takes bytes `3i..3i+3`, then 255.
pub open spec fn rgba_of(rgb: Seq<u8>) -> Seq<u8> {
    Seq::new(rgb.len() / 3 * 4, |k: int| if k % 4 == 3 { 255u8 } else { rgb[(k / 4) * 3 + k % 4] })
}

/// Writes the RGBA form of `rgb` into the start of `out`; `false` (and nothing
/// written) when `out` is too short or no frame has come yet (`has_frame`).
fn rgb_to_rgba_into(rgb: &[u8], has_frame: bool, out: &mut Vec<u8>) -> (r: bool)
    ensures
        r == (has_frame && old(out)@.len() >= rgba_len(rgb@)),
        r ==> final(out)@.len() == old(out)@.len()
            && final(out)@.subrange(0, rgba_len(rgb@)) == rgba_of(rgb@)
            && final(out)@.subrange(rgba_len(rgb@), old(out)@.len() as int) == old(out)@.subrange(
            rgba_len(rgb@),
            old(out)@.len() as int,
        ),
        !r ==> final(out)@ == old(out)@,
{
    let n = rgb.len() / 3;
    if !has_frame || out.len() / 4 < n {
        return false;
    }
    let ghost o0 = out@;
    let mut i: usize = 0;
    while i < n
        invariant
            n == rgb@.len() / 3,
            i <= n,
            out@.len() == o0.len(),
            o0.len() >= n * 4,
            o0.len() <= usize::MAX,
            forall|k: int| 0 <= k < i * 4 ==> out@[k] == rgba_of(rgb@)[k],
            forall|k: int| i * 4 <= k < o0.len() ==> out@[k] == o0[k],
        decreases n - i,
    {
        let o = i * 4;
        let p = i * 3;
        out.set(o, rgb[p]);
        out.set(o + 1, rgb[p + 1]);
        out.set(o + 2, rgb[p + 2]);
        out.set(o + 3, 255);
        proof {
            assert forall|k: int| 0 <= k < (i + 1) * 4 implies out@[k] == rgba_of(rgb@)[k] by {
                if k >= i * 4 {
                    assert(k / 4 == i);
                    assert(k % 4 == k - i * 4);
                }
            }
        }
        i = i + 1;
    }
    assert(out@.subrange(0, n * 4) =~= rgba_of(rgb@));
    assert(out@.subrange(n * 4, o0.len() as int) =~= o0.subrange(n * 4, o0.len() as int));
    true
}

/// The newest decoded preview frame with its time and a generation counter that every
/// stored frame advances (0: nothing stored yet).
pub struct SharedFrame {
    time_ms: u64,
    gen: u64,
    rgb: Vec<u8>,
}

impl SharedFrame {
    #[verifier::type_invariant]
    spec fn wf(self) -> bool {
        self.rgb@.len() == RGB_BYTES
    }

    /// The stored RGB bytes.
    pub closed spec fn frame(self) -> Seq<u8> {
        self.rgb@
    }

    pub closed spec fn gen_count(self) -> u64 {
        self.gen
    }

    /// The time of the stored frame (meaningful once a frame was stored).
    pub closed spec fn frame_time(self) -> u64 {
        self.time_ms
    }

    /// A black frame, generation 0.
    pub fn new() -> (r: Self)
        ensures
            r.gen_count() == 0,
            r.frame() == Seq::new(RGB_BYTES as nat, |i: int| 0u8),
    {
        let mut rgb: Vec<u8> = Vec::new();
        let mut i: usize = 0;
        while i < RGB_BYTES
            invariant
                i <= RGB_BYTES,
                rgb@ == Seq::new(i as nat, |k: int| 0u8),
            decreases RGB_BYTES - i,
        {
            rgb.push(0u8);
            i = i + 1;
            assert(rgb@ =~= Seq::new(i as nat, |k: int| 0u8));
        }
        SharedFrame { time_ms: 0, gen: 0, rgb }
    }

    /// Stores a frame decoded for time `t`; a buffer of another size is ignored.
    pub fn store_rgb(&mut self, t: u64, rgb: &[u8])
        ensures
            rgb@.len() != RGB_BYTES ==> *final(self) == *old(self),
            rgb@.len() == RGB_BYTES ==> final(self).frame() == rgb@ && final(self).frame_time() == t
                && final(self).gen_count() == old(self).gen_count().wrapping_add(1),
    {
        proof {
            use_type_invariant(&*self);
        }
        if rgb.len() != RGB_BYTES {
            return;
        }
        let mut copy: Vec<u8> = Vec::new();
        let mut i: usize = 0;
        while i < rgb.len()
            invariant
                i <= rgb@.len(),
                copy@ == rgb@.subrange(0, i as int),
            decreases rgb@.len() - i,
        {
            copy.push(rgb[i]);
            i = i + 1;
            assert(copy@ =~= rgb@.subrange(0, i as int));
        }
        assert(copy@ =~= rgb@);
        self.rgb = copy;
        self.time_ms = t;
        self.gen = self.gen.wrapping_add(1);
    }

    pub fn gen(&self) -> (r: u64)
        ensures
            r == self.gen_count(),
    {
        self.gen
    }

    /// The time of the newest frame; `None` before the first one.
    pub fn time(&self) -> (r: Option<u64>)
        ensures
            r == if self.gen_count() == 0 { None } else { Some(self.frame_time()) },
    {
        if self.gen == 0 { None } else { Some(self.time_ms) }
    }

    /// Writes the newest frame as RGBA into the start of `out`: `false`, with `out`
    /// untouched, before the first frame or when `out` is shorter than a frame.
    pub fn copy_rgba_into(&self, out: &mut Vec<u8>) -> (r: bool)
        ensures
            r == (self.gen_count() != 0 && old(out)@.len() >= RGBA_BYTES),
            r ==> final(out)@.len() == old(out)@.len()
                && final(out)@.subrange(0, RGBA_BYTES as int) == rgba_of(self.frame())
                && final(out)@.subrange(RGBA_BYTES as int, old(out)@.len() as int) == old(out)@.subrange(
                RGBA_BYTES as int,
                old(out)@.len() as int,
            ),
            !r ==> final(out)@ == old(out)@,
    {
        proof {
            use_type_invariant(self);
        }
        rgb_to_rgba_into(self.rgb.as_slice(), self.gen != 0, out)
    }
}

/// A request to the preview worker.
#[derive(Debug)]
pub enum StreamCmd {
    /// Stream live frames from `from`.
    Start { from: u64, opts: DecodeOpts },
    /// Decode the one frame at `at`.
    Still { at: u64, opts: DecodeOpts },
    Stop,
    Shutdown,
}

/// The decision side of the ffmpeg preview: which source is set, its profile, whether a
/// live stream runs, and when a still or a texture upload is due. Frames and the worker
/// that decodes them live beside it.
#[derive(Debug)]
pub struct VideoStream {
    pub has_source: bool,
    pub profile: StreamProfile,
    pub vaapi_device: Option<String>,
    pub streaming: bool,
    /// Whether the media has sound (the stream then follows the audio clock).
    pub has_audio: bool,
    /// Time of the last still asked for; `None` before the first.
    pub last_still_at: Option<u64>,
    /// Generation of the frame last uploaded.
    pub last_gen: u64,
    /// Wall time (ms) of the last upload.
    pub last_tex_ms: u64,
}

fn clone_dev(d: &Option<String>) -> (r: Option<String>)
    ensures
        dev_view(r) == dev_view(*d),
{
    match d {
        Some(x) => Some(x.clone()),
        None => None,
    }
}

fn clone_profile(p: &StreamProfile) -> (r: StreamProfile)
    ensures
        r.fps == p.fps && r.prefer_hw == p.prefer_hw && r.heavy == p.heavy && r.label@ == p.label@,
{
    StreamProfile { fps: p.fps, prefer_hw: p.prefer_hw, heavy: p.heavy, label: p.label.clone() }
}

/// The decoder options a request of `s` carries.
pub open spec fn opts_match(o: DecodeOpts, s: VideoStream) -> bool {
    &&& o.fps == s.profile.fps
    &&& o.use_vaapi == (s.profile.prefer_hw && s.vaapi_device is Some)
    &&& dev_view(o.vaapi_device) == dev_view(s.vaapi_device)
    &&& o.audio_master == s.has_audio
    &&& o.heavy == s.profile.heavy
}

pub open spec fn is_still_for(c: StreamCmd, at: u64, s: VideoStream) -> bool {
    match c {
        StreamCmd::Still { at: a, opts } => a == at && opts_match(opts, s),
        _ => false,
    }
}

pub open spec fn is_start_for(c: StreamCmd, from: u64, s: VideoStream) -> bool {
    match c {
        StreamCmd::Start { from: f, opts } => f == from && opts_match(opts, s),
        _ => false,
    }
}

impl VideoStream {
    /// No source, the default profile, nothing streaming; `vaapi_device` is the VAAPI
    /// render node found on this machine, if any.
    pub fn new(vaapi_device: Option<String>) -> (r: Self)
        ensures
            !r.has_source && !r.streaming && !r.has_audio,
            r.profile.fps == 24000 && !r.profile.prefer_hw && !r.profile.heavy && r.profile.label@ == "live"@,
            dev_view(r.vaapi_device) == dev_view(vaapi_device),
            r.last_still_at is None && r.last_gen == 0 && r.last_tex_ms == 0,
    {
        VideoStream {
            has_source: false,
            profile: StreamProfile::default_profile(),
            vaapi_device,
            streaming: false,
            has_audio: false,
            last_still_at: None,
            last_gen: 0,
            last_tex_ms: 0,
        }
    }

    /// Stops any stream and forgets the source: the command to send is returned.
    pub fn clear(&mut self) -> (r: StreamCmd)
        ensures
            r is Stop,
            !final(self).has_source && !final(self).streaming && !final(self).has_audio,
            final(self).profile.fps == 24000 && !final(self).profile.prefer_hw && !final(self).profile.heavy
                && final(self).profile.label@ == "live"@,
            dev_view(final(self).vaapi_device) == dev_view(old(self).vaapi_device),
            final(self).last_still_at is None && final(self).last_gen == 0,
            final(self).last_tex_ms == old(self).last_tex_ms,
    {
        let cmd = self.stop();
        self.has_source = false;
        self.last_gen = 0;
        self.last_still_at = None;
        self.profile = StreamProfile::default_profile();
        self.has_audio = false;
        cmd
    }

    pub fn set_source(&mut self, profile: StreamProfile, has_audio: bool)
        ensures
            final(self).has_source && final(self).has_audio == has_audio,
            final(self).profile == profile,
            final(self).streaming == old(self).streaming,
            dev_view(final(self).vaapi_device) == dev_view(old(self).vaapi_device),
            final(self).last_still_at == old(self).last_still_at,
            final(self).last_gen == old(self).last_gen && final(self).last_tex_ms == old(self).last_tex_ms,
    {
        self.has_source = true;
        self.profile = profile;
        self.has_audio = has_audio;
    }

    pub fn profile_label(&self) -> (r: &str)
        ensures
            r@ == self.profile.label@,
    {
        self.profile.label.as_str()
    }

    /// `VAAPI` when the profile asks for hardware decoding and a device was found.
    pub fn hw_label(&self) -> (r: &'static str)
        ensures
            r@ == if self.profile.prefer_hw && self.vaapi_device is Some { "VAAPI"@ } else { "CPU"@ },
    {
        hw_label(self.profile.prefer_hw, self.vaapi_device.is_some())
    }

    pub fn decode_opts(&self) -> (r: DecodeOpts)
        ensures
            opts_match(r, *self),
    {
        DecodeOpts {
            fps: self.profile.fps,
            use_vaapi: self.profile.prefer_hw && self.vaapi_device.is_some(),
            vaapi_device: clone_dev(&self.vaapi_device),
            audio_master: self.has_audio,
            heavy: self.profile.heavy,
        }
    }

    /// Starts a live stream from `from`; nothing without a source.
    pub fn play_from(&mut self, from: u64) -> (r: Option<StreamCmd>)
        ensures
            old(self).has_source <==> r is Some,
            !old(self).has_source ==> *final(self) == *old(self),
            r is Some ==> is_start_for(r->0, from, *old(self))
                && *final(self) == (VideoStream { streaming: true, ..*old(self) }),
    {
        if !self.has_source {
            return None;
        }
        self.streaming = true;
        let opts = self.decode_opts();
        Some(StreamCmd::Start { from, opts })
    }

    pub fn has_realtime_stream(&self) -> (r: bool)
        ensures
            r == self.streaming,
    {
        self.streaming
    }

    /// Stops the live stream.
    pub fn stop(&mut self) -> (r: StreamCmd)
        ensures
            r is Stop,
            *final(self) == (VideoStream { streaming: false, ..*old(self) }),
    {
        self.streaming = false;
        StreamCmd::Stop
    }

    /// The smallest move of the playhead (ms) that asks for a new still.
    pub open spec fn still_step(&self) -> nat {
        if self.profile.heavy { 120 } else { 50 }
    }

    /// Asks for the still at `at`, unless there is no source or (without `force`) the
    /// last still was asked for less than 120 ms (heavy sources) or 50 ms away. A
    /// running stream is stopped first. Returns the commands to send, in order.
    pub fn show_still(&mut self, at: u64, force: bool) -> (r: Vec<StreamCmd>)
        ensures
            ({
                let due = old(self).has_source && (force || match old(self).last_still_at {
                    Some(l) => (if at >= l { at - l } else { l - at }) >= old(self).still_step(),
                    None => true,
                });
                &&& !due ==> r@.len() == 0 && *final(self) == *old(self)
                &&& due ==> final(self).last_still_at == Some(at) && !final(self).streaming
                    && r@.len() == (if old(self).streaming { 2int } else { 1int })
                    && (old(self).streaming ==> r@[0] is Stop)
                    && is_still_for(r@.last(), at, *old(self))
                    && *final(self) == (VideoStream { last_still_at: Some(at), streaming: false, ..*old(self) })
            }),
    {
        let mut cmds: Vec<StreamCmd> = Vec::new();
        if !self.has_source {
            return cmds;
        }
        let step: u64 = if self.profile.heavy { 120 } else { 50 };
        if !force {
            match self.last_still_at {
                Some(l) => {
                    let d = if at >= l { at - l } else { l - at };
                    if d < step {
                        return cmds;
                    }
                },
                None => {},
            }
        }
        self.last_still_at = Some(at);
        if self.streaming {
            let c = self.stop();
            cmds.push(c);
        }
        let opts = self.decode_opts();
        cmds.push(StreamCmd::Still { at, opts });
        cmds
    }

    /// Whether frame generation `gen` is to be uploaded at wall time `now_ms`: a new
    /// frame, and (once a texture exists) at most one upload per frame interval of the
    /// profile, taken at 8 fps or more.
    pub fn upload_due(&self, gen: u64, now_ms: u64, has_texture: bool) -> (r: bool)
        ensures
            r == (gen != 0 && gen != self.last_gen && !(has_texture && (if now_ms >= self.last_tex_ms {
                now_ms - self.last_tex_ms
            } else {
                0
            }) < 1_000_000int / (if self.profile.fps < 8000 { 8000int } else { self.profile.fps as int }))),
    {
        if gen == 0 || gen == self.last_gen {
            return false;
        }
        let rate: u64 = if self.profile.fps < 8000 { 8000 } else { self.profile.fps };
        let min_ms: u64 = 1_000_000 / rate;
        let since: u64 = if now_ms >= self.last_tex_ms { now_ms - self.last_tex_ms } else { 0 };
        !(has_texture && since < min_ms)
    }

    /// Records the upload of generation `gen` at `now_ms`.
    pub fn mark_uploaded(&mut self, gen: u64, now_ms: u64)
        ensures
            *final(self) == (VideoStream { last_gen: gen, last_tex_ms: now_ms, ..*old(self) }),
    {
        self.last_gen = gen;
        self.last_tex_ms = now_ms;
    }
}

/// The time (ms) of frame `idx` of a stream started at `start` at `fps` thousandths of
/// a frame per second, rounded down, saturated at `u64::MAX`.
pub open spec fn frame_time_of(start: nat, idx: nat, fps: nat) -> nat {
    min_nat(start + idx * 1_000_000 / fps, u64::MAX as nat)
}

pub fn frame_time(start: u64, idx: u64, fps: u64) -> (r: u64)
    requires
        fps > 0,
    ensures
        r == frame_time_of(start as nat, idx as nat, fps as nat),
{
    let a = idx as u128;
    assert(a * 1_000_000 <= 0xFFFF_FFFF_FFFF_FFFFu128 * 1_000_000) by (nonlinear_arith)
        requires
            a <= 0xFFFF_FFFF_FFFF_FFFFu128,
    ;
    let off: u128 = a * 1_000_000 / (fps as u128);
    assert(off <= a * 1_000_000) by (nonlinear_arith)
        requires
            off == (a * 1_000_000) as int / (fps as int),
            fps > 0,
    ;
    let total: u128 = start as u128 + off;
    if total > u64::MAX as u128 { u64::MAX } else { total as u64 }
}

/// What the worker does with a decoded frame while following the audio clock.
#[derive(Debug)]
pub enum Pace {
    /// More than 1.5 frames behind the playhead: read ahead and drop frames.
    CatchUp,
    /// More than 2 frames ahead: wait this many ms (1–35) before showing it.
    Wait(u64),
    /// Show it now.
    Show,
}

/// `a` lies more than `k/den` frame intervals (of `fps` thousandths of a frame per
/// second) before `b`, all in ms: `(b - a) · fps · den > k · 10^6`.
pub open spec fn frames_before(a: int, b: int, k: int, den: int, fps: int) -> bool {
    a < b && (b - a) * fps * den > k * 1_000_000
}

fn frames_before_exec(a: u64, b: u64, k: u64, den: u64, fps: u64) -> (r: bool)
    requires
        k <= 10,
        den <= 10,
    ensures
        r == frames_before(a as int, b as int, k as int, den as int, fps as int),
{
    if a >= b {
        return false;
    }
    let d = (b - a) as u128;
    let f = fps as u128;
    let n = den as u128;
    assert(d * f <= 0xFFFF_FFFF_FFFF_FFFFu128 * 0xFFFF_FFFF_FFFF_FFFFu128) by (nonlinear_arith)
        requires
            d <= 0xFFFF_FFFF_FFFF_FFFFu128,
            f <= 0xFFFF_FFFF_FFFF_FFFFu128,
    ;
    let df = d * f;
    assert(d == b - a && f == fps && n == den);
    if df > u128::MAX / 16 {
        assert(d * f * n > (k as u128) * 1_000_000 || n == 0) by (nonlinear_arith)
            requires
                d * f > u128::MAX / 16,
                k <= 10,
        ;
        assert(d * f * n == (b - a) * fps * den);
        assert(n != 0 ==> (b - a) * fps * den > k * 1_000_000);
        assert(den == 0 ==> (b - a) * fps * den == 0) by (nonlinear_arith);
        n != 0
    } else {
        assert(df * n <= u128::MAX) by (nonlinear_arith)
            requires
                df <= u128::MAX / 16,
                n <= 10,
        ;
        let x = df * n;
        assert(x == (b - a) * fps * den);
        x > (k as u128) * 1_000_000
    }
}

/// Pacing of frame time `t` against the playhead `ph` (both ms) at `fps`.
pub open spec fn master_pace_of(t: nat, ph: nat, fps: nat) -> Pace {
    if frames_before(t as int, ph as int, 3, 2, fps as int) {
        Pace::CatchUp
    } else if frames_before(ph as int, t as int, 2, 1, fps as int) {
        Pace::Wait(if (t - ph) < 1 { 1 } else if (t - ph) > 35 { 35 } else { (t - ph) as u64 })
    } else {
        Pace::Show
    }
}

pub fn master_pace(t: u64, ph: u64, fps: u64) -> (r: Pace)
    ensures
        r == master_pace_of(t as nat, ph as nat, fps as nat),
{
    if frames_before_exec(t, ph, 3, 2, fps) {
        Pace::CatchUp
    } else if frames_before_exec(ph, t, 2, 1, fps) {
        let d = t - ph;
        Pace::Wait(if d < 1 { 1 } else if d > 35 { 35 } else { d })
    } else {
        Pace::Show
    }
}

/// While catching up, frames are dropped until one is due within 0.4 frame intervals
/// of the playhead.
pub fn caught_up(cur: u64, ph: u64, fps: u64) -> (r: bool)
    ensures
        r == !frames_before(cur as int, ph as int, 2, 5, fps as int),
{
    !frames_before_exec(cur, ph, 2, 5, fps)
}

/// Without an audio clock frames are shown at the stream's rate from its start: frame
/// `idx` (counted from 1) is due `(idx - 1) / fps` after the start; the wait (ms) for it
/// when `elapsed_ms` have passed.
pub fn free_run_wait(idx: u64, fps: u64, elapsed_ms: u64) -> (r: u64)
    requires
        fps > 0,
    ensures
        r == if elapsed_ms < frame_time_of(0, if idx == 0 { 0 } else { (idx - 1) as nat }, fps as nat) {
            frame_time_of(0, if idx == 0 { 0 } else { (idx - 1) as nat }, fps as nat) - elapsed_ms
        } else {
            0
        },
{
    let due = frame_time(0, if idx == 0 { 0 } else { idx - 1 }, fps);
    if elapsed_ms < due { due - elapsed_ms } else { 0 }
}

/// What one `read` into the rest of a frame buffer gave.
#[derive(Debug)]
pub enum ReadOutcome {
    /// This many bytes (0: end of stream).
    Data(usize),
    /// Interrupted before reading; try again.
    Interrupted,
    /// Any other error.
    Failed,
}

/// Where filling a buffer of `len` bytes stands.
#[derive(Debug)]
pub enum ReadStep {
    /// Read on from this offset.
    More(usize),
    /// The buffer is full.
    Full,
    /// The stream ended first.
    Eof,
    /// The read failed.
    Fail,
}

/// One step of reading a whole frame: after a read at offset `off` of a `len`-byte buffer.
pub fn read_exact_step(off: usize, len: usize, outcome: ReadOutcome) -> (r: ReadStep)
    ensures
        r == match outcome {
            ReadOutcome::Data(n) => if n == 0 {
                ReadStep::Eof
            } else if off + n >= len {
                ReadStep::Full
            } else {
                ReadStep::More((off + n) as usize)
            },
            ReadOutcome::Interrupted => if off >= len { ReadStep::Full } else { ReadStep::More(off) },
            ReadOutcome::Failed => ReadStep::Fail,
        },
{
    match outcome {
        ReadOutcome::Data(n) => {
            if n == 0 {
                ReadStep::Eof
            } else if n >= len || off >= len - n {
                ReadStep::Full
            } else {
                ReadStep::More(off + n)
            }
        },
        ReadOutcome::Interrupted => {
            if off >= len { ReadStep::Full } else { ReadStep::More(off) }
        },
        ReadOutcome::Failed => ReadStep::Fail,
    }
}

/// The label of a stream profile once a preview size is chosen: the profile's own label
/// up to its first ` · `, then ` · preview W×H`.
pub open spec fn preview_label_of(label: Seq<char>, size: PreviewSize) -> Seq<char> {
    split_head(label, " · "@) + " · preview "@ + dec(size.w as nat) + seq!['×'] + dec(size.h as nat)
}

pub fn preview_label(label: &str, size: PreviewSize) -> (r: String)
    ensures
        r@ == preview_label_of(label@, size),
{
    proof {
        reveal_strlit(" · ");
    }
    let mut r = split_head_str(label, " · ");
    push_str(&mut r, " · preview ");
    let l = size.label();
    push_str(&mut r, l.as_str());
    assert(r@ =~= preview_label_of(label@, size));
    r
}

/// The rate (thousandths of a frame per second) a live stream is decoded and paced at.
pub fn clamp_stream_rate(fps: u64) -> (r: u64)
    ensures
        r == stream_rate(fps as nat),
        8000 <= r <= 30000,
{
    if fps < 8000 { 8000 } else if fps > 30000 { 30000 } else { fps }
}

/// The frame a still decode gave: the first frame's bytes of its output, when the run
/// succeeded and the output holds a whole frame.
pub fn still_frame(ok: bool, out: &[u8]) -> (r: Option<Vec<u8>>)
    ensures
        (ok && out@.len() >= RGB_BYTES) <==> r is Some,
        r matches Some(f) ==> f@ == out@.subrange(0, RGB_BYTES as int),
{
    if !ok || out.len() < RGB_BYTES {
        return None;
    }
    let mut f: Vec<u8> = Vec::new();
    let mut i: usize = 0;
    while i < RGB_BYTES
        invariant
            i <= RGB_BYTES,
            out@.len() >= RGB_BYTES,
            f@ == out@.subrange(0, i as int),
        decreases RGB_BYTES - i,
    {
        f.push(out[i]);
        i = i + 1;
        assert(f@ =~= out@.subrange(0, i as int));
    }
    Some(f)
}

} // verus!
