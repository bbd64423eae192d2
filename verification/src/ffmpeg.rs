//! The ffmpeg side of cutting: what a cut or a re-encode asks of ffmpeg, checked and
//! spelled out as argument lists. Times are whole milliseconds.
//! Default trim uses stream copy (`-c copy`) so container, codecs, and quality
//! of the source are preserved without re-encoding (audio, video, subtitles, etc.).

use vstd::prelude::*;
use crate::encode_settings::{
    preset_settings, AudioCodec, ContainerFmt, EncodePreset, ReencodeSettings, ResolutionOpt,
    VideoCodec, VideoRateMode,
};
use crate::text::{
    ascii_lower, chars_of, dec, pad0, push_char, push_dec, push_dec_pad, push_sdec, push_str, sdec,
    str_eq, to_ascii_lower, trim, trim_str,
};
use crate::timecode::{format_seconds, format_seconds_of};

verus! {

/// How a cut is written.
#[derive(Debug, Clone, Copy, PartialEq, Eq, Structural)]
pub enum EncodeMode {
    /// `-c copy` — no re-encode; same codecs/bitrate/resolution.
    StreamCopy,
    /// Re-encode (more accurate cut boundaries).
    Reencode,
}

impl EncodeMode {
    pub open spec fn label_of(self) -> Seq<char> {
        match self {
            EncodeMode::StreamCopy => "Stream copy (lossless)"@,
            EncodeMode::Reencode => "Re-encode (accurate cuts)"@,
        }
    }

    pub fn label(self) -> (r: &'static str)
        ensures
            r@ == self.label_of(),
    {
        match self {
            EncodeMode::StreamCopy => "Stream copy (lossless)",
            EncodeMode::Reencode => "Re-encode (accurate cuts)",
        }
    }
}

/// What went wrong around ffmpeg / ffprobe.
#[derive(Debug)]
pub enum FfmpegError {
    NotFound(String),
    ProbeFailed(String),
    TrimFailed(String),
    InvalidRange(String),
    Io(String),
}

impl FfmpegError {
    /// The user-facing text of the error.
    pub open spec fn message_of(&self) -> Seq<char> {
        match self {
            FfmpegError::NotFound(t) => t@ + " not found. Install ffmpeg."@,
            FfmpegError::ProbeFailed(m) => "Probe failed: "@ + m@,
            FfmpegError::TrimFailed(m) => "Trim failed: "@ + m@,
            FfmpegError::InvalidRange(m) => "Invalid range: "@ + m@,
            FfmpegError::Io(m) => "I/O error: "@ + m@,
        }
    }

    /// The user-facing text of the error (what `Display` shows).
    pub fn message(&self) -> (r: String)
        ensures
            r@ == self.message_of(),
    {
        let mut r = String::new();
        match self {
            FfmpegError::NotFound(t) => {
                push_str(&mut r, t.as_str());
                push_str(&mut r, " not found. Install ffmpeg.");
            },
            FfmpegError::ProbeFailed(m) => {
                push_str(&mut r, "Probe failed: ");
                push_str(&mut r, m.as_str());
            },
            FfmpegError::TrimFailed(m) => {
                push_str(&mut r, "Trim failed: ");
                push_str(&mut r, m.as_str());
            },
            FfmpegError::InvalidRange(m) => {
                push_str(&mut r, "Invalid range: ");
                push_str(&mut r, m.as_str());
            },
            FfmpegError::Io(m) => {
                push_str(&mut r, "I/O error: ");
                push_str(&mut r, m.as_str());
            },
        }
        r
    }
}

/// The views of an argument list.
pub open spec fn args_view(v: Seq<String>) -> Seq<Seq<char>> {
    v.map_values(|s: String| s@)
}

/// Appends one argument.
pub fn push_arg(args: &mut Vec<String>, a: &str)
    ensures
        args_view(final(args)@) == args_view(old(args)@).push(a@),
{
    let ghost before = args@;
    args.push(String::from_str(a));
    assert(args_view(args@) =~= args_view(before).push(a@));
}

/// Appends one argument that was built.
pub fn push_arg_string(args: &mut Vec<String>, a: String)
    ensures
        args_view(final(args)@) == args_view(old(args)@).push(a@),
{
    let ghost before = args@;
    let ghost av = a@;
    args.push(a);
    assert(args_view(args@) =~= args_view(before).push(av));
}

/// `n` followed by `k` (a bitrate in kbit/s).
pub open spec fn kbit(n: nat) -> Seq<char> {
    dec(n) + "k"@
}

/// Seconds with exactly three decimals, as ffmpeg takes them (`{:.3}`).
pub open spec fn ffmpeg_time(ms: nat) -> Seq<char> {
    dec(ms / 1000) + "."@ + pad0(dec(ms % 1000), 3)
}

/// `format!("{secs:.3}")` of a time given in milliseconds.
pub fn format_ffmpeg_time(ms: u64) -> (r: String)
    ensures
        r@ == ffmpeg_time(ms as nat),
{
    let mut r = String::new();
    push_dec(&mut r, ms / 1000);
    push_str(&mut r, ".");
    push_dec_pad(&mut r, ms % 1000, 3);
    assert(r@ =~= ffmpeg_time(ms as nat));
    r
}

/// The source's video track is written.
pub open spec fn wants_video(s: ReencodeSettings, src_has_video: bool) -> bool {
    src_has_video && s.video_codec != VideoCodec::NoVideo && !s.container.audio_only()
}

/// The source's audio track is written.
pub open spec fn wants_audio(s: ReencodeSettings, src_has_audio: bool) -> bool {
    src_has_audio && s.audio_codec != AudioCodec::NoAudio
}

pub open spec fn max_nat(a: nat, b: nat) -> nat {
    if a >= b { a } else { b }
}

/// The scaling filter, if the frame size changes.
pub open spec fn scale_filter(s: ReencodeSettings) -> Option<Seq<char>> {
    match s.resolution {
        ResolutionOpt::Original => None,
        ResolutionOpt::Custom => Some(
            "scale="@ + dec(max_nat(s.custom_w as nat, 16)) + ":"@ + dec(max_nat(s.custom_h as nat, 16))
                + ":flags=bicubic"@,
        ),
        other => match other.max_height_of() {
            Some(h) => Some("scale=-2:'min("@ + dec(h as nat) + ",ih)':flags=bicubic"@),
            None => None,
        },
    }
}

/// The frame-rate filter, if the rate changes.
pub open spec fn fps_filter(s: ReencodeSettings) -> Option<Seq<char>> {
    match s.fps.value_of() {
        Some(f) => Some("fps="@ + dec(f as nat)),
        None => None,
    }
}

/// `-vf` with the filters joined by commas, or nothing.
#[verifier::opaque]
pub open spec fn filter_args(s: ReencodeSettings) -> Seq<Seq<char>> {
    match (scale_filter(s), fps_filter(s)) {
        (None, None) => seq![],
        (Some(a), None) => seq!["-vf"@, a],
        (None, Some(b)) => seq!["-vf"@, b],
        (Some(a), Some(b)) => seq!["-vf"@, a + ","@ + b],
    }
}

/// The bitrate a video encoder is given: at least 100k.
pub open spec fn video_rate(s: ReencodeSettings) -> Seq<char> {
    kbit(max_nat(s.video_bitrate_k as nat, 100))
}

pub open spec fn min_nat(a: nat, b: nat) -> nat {
    if a <= b { a } else { b }
}

/// The video encoder and its rate control.
#[verifier::opaque]
pub open spec fn video_codec_args(s: ReencodeSettings) -> Seq<Seq<char>> {
    match s.video_codec {
        VideoCodec::H264 => seq!["-c:v"@, "libx264"@, "-preset"@, s.speed.label_of(), "-pix_fmt"@, "yuv420p"@]
            + match s.rate_mode {
            VideoRateMode::Crf => seq!["-crf"@, dec(min_nat(s.crf as nat, 51))],
            VideoRateMode::Bitrate => seq![
                "-b:v"@,
                video_rate(s),
                "-maxrate"@,
                video_rate(s),
                "-bufsize"@,
                kbit(s.video_bitrate_k as nat * 2),
            ],
        },
        VideoCodec::H265 => seq![
            "-c:v"@,
            "libx265"@,
            "-preset"@,
            s.speed.label_of(),
            "-pix_fmt"@,
            "yuv420p"@,
            "-tag:v"@,
            "hvc1"@,
        ] + match s.rate_mode {
            VideoRateMode::Crf => seq!["-crf"@, dec(min_nat(s.crf as nat, 51))],
            VideoRateMode::Bitrate => seq!["-b:v"@, video_rate(s)],
        },
        VideoCodec::Vp9 => seq!["-c:v"@, "libvpx-vp9"@, "-row-mt"@, "1"@, "-b:v"@, "0"@] + match s.rate_mode {
            VideoRateMode::Crf => seq!["-crf"@, dec(max_nat(min_nat(s.crf as nat, 45), 15))],
            VideoRateMode::Bitrate => seq!["-b:v"@, video_rate(s)],
        },
        VideoCodec::NoVideo => seq!["-vn"@],
    }
}

/// The audio encoder and its rate (at least 32k).
#[verifier::opaque]
pub open spec fn audio_codec_args(s: ReencodeSettings) -> Seq<Seq<char>> {
    let ab = kbit(max_nat(s.audio_bitrate_k as nat, 32));
    match s.audio_codec {
        AudioCodec::Aac => seq!["-c:a"@, "aac"@, "-b:a"@, ab],
        AudioCodec::Mp3 => seq!["-c:a"@, "libmp3lame"@, "-b:a"@, ab],
        AudioCodec::Opus => seq!["-c:a"@, "libopus"@, "-b:a"@, ab],
        AudioCodec::Vorbis => seq!["-c:a"@, "libvorbis"@, "-b:a"@, ab],
        AudioCodec::Flac => seq!["-c:a"@, "flac"@, "-compression_level"@, "8"@],
        AudioCodec::Pcm => seq!["-c:a"@, "pcm_s16le"@],
        AudioCodec::NoAudio => seq!["-an"@],
    }
}

/// Stream mapping: first video, first audio, and subtitles along with video.
#[verifier::opaque]
pub open spec fn map_args(s: ReencodeSettings, v: bool, a: bool) -> Seq<Seq<char>> {
    (if wants_video(s, v) { seq!["-map"@, "0:v:0?"@] } else { seq![] })
        + (if wants_audio(s, a) { seq!["-map"@, "0:a:0?"@] } else { seq![] })
        + (if wants_video(s, v) { seq!["-map"@, "0:s?"@, "-c:s"@, "copy"@] } else { seq![] })
}

/// `+faststart` for the MP4 family of containers.
#[verifier::opaque]
pub open spec fn container_flag_args(s: ReencodeSettings) -> Seq<Seq<char>> {
    match s.container {
        ContainerFmt::Mp4 | ContainerFmt::Mov | ContainerFmt::M4a => seq!["-movflags"@, "+faststart"@],
        _ => seq![],
    }
}

/// Everything a re-encode adds after the input and the cut range.
pub open spec fn reencode_args(s: ReencodeSettings, v: bool, a: bool) -> Seq<Seq<char>> {
    map_args(s, v, a) + video_part(s, v) + audio_part(s, a) + container_flag_args(s)
}

fn push_map_args(args: &mut Vec<String>, s: &ReencodeSettings, v: bool, a: bool)
    ensures
        args_view(final(args)@) == args_view(old(args)@) + map_args(*s, v, a),
{
    reveal(map_args);
    let ghost a0 = args_view(args@);
    let want_video = v && s.video_codec != VideoCodec::NoVideo && !s.container.is_audio_only();
    let want_audio = a && s.audio_codec != AudioCodec::NoAudio;
    if want_video {
        push_arg(args, "-map");
        push_arg(args, "0:v:0?");
    }
    let ghost a1 = args_view(args@);
    if want_audio {
        push_arg(args, "-map");
        push_arg(args, "0:a:0?");
    }
    let ghost a2 = args_view(args@);
    if want_video {
        push_arg(args, "-map");
        push_arg(args, "0:s?");
        push_arg(args, "-c:s");
        push_arg(args, "copy");
    }
    assert(args_view(args@) =~= a0 + map_args(*s, v, a));
}

fn push_filter_args(args: &mut Vec<String>, s: &ReencodeSettings)
    ensures
        args_view(final(args)@) == args_view(old(args)@) + filter_args(*s),
{
    reveal(filter_args);
    let ghost a0 = args_view(args@);
    let mut vf = String::new();
    let mut has_scale = false;
    match s.resolution {
        ResolutionOpt::Original => {},
        ResolutionOpt::Custom => {
            let w = if s.custom_w >= 16 { s.custom_w } else { 16 };
            let h = if s.custom_h >= 16 { s.custom_h } else { 16 };
            push_str(&mut vf, "scale=");
            push_dec(&mut vf, w as u64);
            push_str(&mut vf, ":");
            push_dec(&mut vf, h as u64);
            push_str(&mut vf, ":flags=bicubic");
            has_scale = true;
        },
        other => {
            if let Some(h) = other.max_height() {
                push_str(&mut vf, "scale=-2:'min(");
                push_dec(&mut vf, h as u64);
                push_str(&mut vf, ",ih)':flags=bicubic");
                has_scale = true;
            }
        },
    }
    proof {
        if has_scale {
            assert(scale_filter(*s) == Some(vf@));
        } else {
            assert(scale_filter(*s) == None::<Seq<char>>);
            assert(vf@ =~= Seq::<char>::empty());
        }
    }
    let ghost scale_part = vf@;
    let mut has_fps = false;
    if let Some(f) = s.fps.value() {
        if has_scale {
            push_str(&mut vf, ",");
        }
        push_str(&mut vf, "fps=");
        push_dec(&mut vf, f as u64);
        has_fps = true;
    }
    if has_scale || has_fps {
        push_arg(args, "-vf");
        proof {
            if has_scale && has_fps {
                assert(vf@ =~= scale_part + ","@ + ("fps="@ + dec(s.fps.value_of().unwrap() as nat)));
            } else if has_fps {
                assert(vf@ =~= "fps="@ + dec(s.fps.value_of().unwrap() as nat));
            }
        }
        push_arg_string(args, vf);
    }
    assert(args_view(args@) =~= a0 + filter_args(*s));
}

fn push_crf(args: &mut Vec<String>, crf: u64)
    ensures
        args_view(final(args)@) == args_view(old(args)@) + seq!["-crf"@, dec(crf as nat)],
{
    let ghost a0 = args_view(args@);
    push_arg(args, "-crf");
    let mut c = String::new();
    push_dec(&mut c, crf);
    assert(c@ =~= dec(crf as nat));
    push_arg_string(args, c);
    assert(args_view(args@) =~= a0 + seq!["-crf"@, dec(crf as nat)]);
}

fn kbit_string(n: u64) -> (r: String)
    ensures
        r@ == kbit(n as nat),
{
    let mut r = String::new();
    push_dec(&mut r, n);
    push_str(&mut r, "k");
    assert(r@ =~= kbit(n as nat));
    r
}

fn push_video_codec_args(args: &mut Vec<String>, s: &ReencodeSettings)
    ensures
        args_view(final(args)@) == args_view(old(args)@) + video_codec_args(*s),
{
    reveal(video_codec_args);
    let ghost a0 = args_view(args@);
    let vb: u64 = if s.video_bitrate_k >= 100 { s.video_bitrate_k as u64 } else { 100 };
    match s.video_codec {
        VideoCodec::H264 => {
            push_arg(args, "-c:v");
            push_arg(args, "libx264");
            push_arg(args, "-preset");
            push_arg(args, s.speed.ffmpeg());
            push_arg(args, "-pix_fmt");
            push_arg(args, "yuv420p");
            let ghost a1 = args_view(args@);
            match s.rate_mode {
                VideoRateMode::Crf => {
                    let c: u64 = if s.crf <= 51 { s.crf as u64 } else { 51 };
                    push_crf(args, c);
                },
                VideoRateMode::Bitrate => {
                    push_arg(args, "-b:v");
                    push_arg_string(args, kbit_string(vb));
                    push_arg(args, "-maxrate");
                    push_arg_string(args, kbit_string(vb));
                    push_arg(args, "-bufsize");
                    push_arg_string(args, kbit_string(s.video_bitrate_k as u64 * 2));
                },
            }
            assert(args_view(args@) =~= a0 + video_codec_args(*s));
        },
        VideoCodec::H265 => {
            push_arg(args, "-c:v");
            push_arg(args, "libx265");
            push_arg(args, "-preset");
            push_arg(args, s.speed.ffmpeg());
            push_arg(args, "-pix_fmt");
            push_arg(args, "yuv420p");
            push_arg(args, "-tag:v");
            push_arg(args, "hvc1");
            match s.rate_mode {
                VideoRateMode::Crf => {
                    let c: u64 = if s.crf <= 51 { s.crf as u64 } else { 51 };
                    push_crf(args, c);
                },
                VideoRateMode::Bitrate => {
                    push_arg(args, "-b:v");
                    push_arg_string(args, kbit_string(vb));
                },
            }
            assert(args_view(args@) =~= a0 + video_codec_args(*s));
        },
        VideoCodec::Vp9 => {
            push_arg(args, "-c:v");
            push_arg(args, "libvpx-vp9");
            push_arg(args, "-row-mt");
            push_arg(args, "1");
            push_arg(args, "-b:v");
            push_arg(args, "0");
            match s.rate_mode {
                VideoRateMode::Crf => {
                    let c: u64 = if s.crf > 45 { 45 } else if s.crf < 15 { 15 } else { s.crf as u64 };
                    push_crf(args, c);
                },
                VideoRateMode::Bitrate => {
                    push_arg(args, "-b:v");
                    push_arg_string(args, kbit_string(vb));
                },
            }
            assert(args_view(args@) =~= a0 + video_codec_args(*s));
        },
        VideoCodec::NoVideo => {
            push_arg(args, "-vn");
            assert(args_view(args@) =~= a0 + video_codec_args(*s));
        },
    }
}

fn push_audio_codec_args(args: &mut Vec<String>, s: &ReencodeSettings)
    ensures
        args_view(final(args)@) == args_view(old(args)@) + audio_codec_args(*s),
{
    reveal(audio_codec_args);
    let ghost a0 = args_view(args@);
    let ab: u64 = if s.audio_bitrate_k >= 32 { s.audio_bitrate_k as u64 } else { 32 };
    match s.audio_codec {
        AudioCodec::Aac => {
            push_arg(args, "-c:a");
            push_arg(args, "aac");
            push_arg(args, "-b:a");
            push_arg_string(args, kbit_string(ab));
        },
        AudioCodec::Mp3 => {
            push_arg(args, "-c:a");
            push_arg(args, "libmp3lame");
            push_arg(args, "-b:a");
            push_arg_string(args, kbit_string(ab));
        },
        AudioCodec::Opus => {
            push_arg(args, "-c:a");
            push_arg(args, "libopus");
            push_arg(args, "-b:a");
            push_arg_string(args, kbit_string(ab));
        },
        AudioCodec::Vorbis => {
            push_arg(args, "-c:a");
            push_arg(args, "libvorbis");
            push_arg(args, "-b:a");
            push_arg_string(args, kbit_string(ab));
        },
        AudioCodec::Flac => {
            push_arg(args, "-c:a");
            push_arg(args, "flac");
            push_arg(args, "-compression_level");
            push_arg(args, "8");
        },
        AudioCodec::Pcm => {
            push_arg(args, "-c:a");
            push_arg(args, "pcm_s16le");
        },
        AudioCodec::NoAudio => {
            push_arg(args, "-an");
        },
    }
    assert(args_view(args@) =~= a0 + audio_codec_args(*s));
}

/// The video part of a re-encode: filters and encoder, or `-vn`.
pub open spec fn video_part(s: ReencodeSettings, v: bool) -> Seq<Seq<char>> {
    if wants_video(s, v) {
        filter_args(s) + video_codec_args(s)
    } else {
        seq!["-vn"@]
    }
}

/// The audio part of a re-encode: encoder, or `-an`.
pub open spec fn audio_part(s: ReencodeSettings, a: bool) -> Seq<Seq<char>> {
    if wants_audio(s, a) {
        audio_codec_args(s)
    } else {
        seq!["-an"@]
    }
}

fn push_video_part(args: &mut Vec<String>, s: &ReencodeSettings, v: bool)
    ensures
        args_view(final(args)@) == args_view(old(args)@) + video_part(*s, v),
{
    let ghost a0 = args_view(args@);
    if v && s.video_codec != VideoCodec::NoVideo && !s.container.is_audio_only() {
        push_filter_args(args, s);
        let ghost a1 = args_view(args@);
        push_video_codec_args(args, s);
        assert(args_view(args@) =~= a0 + video_part(*s, v));
    } else {
        push_arg(args, "-vn");
        assert(args_view(args@) =~= a0 + video_part(*s, v));
    }
}

fn push_audio_part(args: &mut Vec<String>, s: &ReencodeSettings, a: bool)
    ensures
        args_view(final(args)@) == args_view(old(args)@) + audio_part(*s, a),
{
    let ghost a0 = args_view(args@);
    if a && s.audio_codec != AudioCodec::NoAudio {
        push_audio_codec_args(args, s);
    } else {
        push_arg(args, "-an");
        assert(args_view(args@) =~= a0 + audio_part(*s, a));
    }
}

fn push_container_flags(args: &mut Vec<String>, s: &ReencodeSettings)
    ensures
        args_view(final(args)@) == args_view(old(args)@) + container_flag_args(*s),
{
    reveal(container_flag_args);
    let ghost a0 = args_view(args@);
    match s.container {
        ContainerFmt::Mp4 | ContainerFmt::Mov | ContainerFmt::M4a => {
            push_arg(args, "-movflags");
            push_arg(args, "+faststart");
        },
        _ => {},
    }
    assert(args_view(args@) =~= a0 + container_flag_args(*s));
}

/// Appends the re-encode arguments for settings `s` on a source with or without
/// video and audio.
pub fn apply_reencode_settings(
    args: &mut Vec<String>,
    s: &ReencodeSettings,
    src_has_video: bool,
    src_has_audio: bool,
)
    ensures
        args_view(final(args)@) == args_view(old(args)@) + reencode_args(*s, src_has_video, src_has_audio),
{
    let ghost a0 = args_view(args@);
    push_map_args(args, s, src_has_video, src_has_audio);
    push_video_part(args, s, src_has_video);
    push_audio_part(args, s, src_has_audio);
    push_container_flags(args, s);
    assert(args_view(args@) =~= a0 + reencode_args(*s, src_has_video, src_has_audio));
}

/// The settings a re-encode uses when none were chosen: the default preset without
/// the tracks the source lacks.
pub open spec fn fallback_settings(has_video: bool, has_audio: bool) -> ReencodeSettings {
    let d = preset_settings(EncodePreset::HighQuality);
    ReencodeSettings {
        video_codec: if has_video { d.video_codec } else { VideoCodec::NoVideo },
        audio_codec: if has_audio { d.audio_codec } else { AudioCodec::NoAudio },
        ..d
    }
}

/// Appends the re-encode arguments of the default settings, narrowed to the tracks the
/// source has. The extension of the output plays no part.
pub fn apply_reencode_args(args: &mut Vec<String>, ext: &str, has_video: bool, has_audio: bool)
    ensures
        args_view(final(args)@) == args_view(old(args)@) + reencode_args(
            fallback_settings(has_video, has_audio),
            has_video,
            has_audio,
        ),
{
    let mut s = ReencodeSettings::default();
    if !has_video {
        s.video_codec = VideoCodec::NoVideo;
    }
    if !has_audio {
        s.audio_codec = AudioCodec::NoAudio;
    }
    let _ = ext;
    assert(s == fallback_settings(has_video, has_audio));
    apply_reencode_settings(args, &s, has_video, has_audio);
}

/// The extensions (lower case) whose containers get `-movflags +faststart`.
pub open spec fn is_mp4_family(ext: Seq<char>) -> bool {
    ext == "mp4"@ || ext == "m4v"@ || ext == "mov"@ || ext == "m4a"@
}

/// Whether the lower-cased extension is one of the MP4 family.
pub fn ext_is_mp4_family(ext: &str) -> (r: bool)
    ensures
        r == is_mp4_family(ascii_lower(ext@)),
{
    let e = to_ascii_lower(ext);
    str_eq(e.as_str(), "mp4") || str_eq(e.as_str(), "m4v") || str_eq(e.as_str(), "mov")
        || str_eq(e.as_str(), "m4a")
}

/// The arguments of one ffmpeg run around its input: `ffmpeg <before_input> <input>
/// <after_input> <output>`.
#[derive(Debug)]
pub struct FfmpegArgs {
    pub before_input: Vec<String>,
    pub after_input: Vec<String>,
}

/// One cut: the range `[start, end)` in milliseconds of the source, written with `mode`.
/// `output_ext` is the extension of the output file, if it has one.
pub struct TrimRequest<'a> {
    pub output_ext: Option<&'a str>,
    pub start: u64,
    pub end: u64,
    pub mode: EncodeMode,
    pub total_duration: u64,
    pub has_video: bool,
    pub has_audio: bool,
    /// Re-encode params (ignored for StreamCopy).
    pub reencode: Option<&'a ReencodeSettings>,
}

/// The message of the range error a cut is refused with, if any.
pub open spec fn trim_range_error(start: nat, end: nat, total: nat) -> Option<Seq<char>> {
    if end <= start {
        Some("end must be greater than start"@)
    } else if total > 0 && start >= total {
        Some("start is past end of file"@)
    } else {
        None
    }
}

/// `-y -hide_banner -loglevel error`.
pub open spec fn quiet_args() -> Seq<Seq<char>> {
    seq!["-y"@, "-hide_banner"@, "-loglevel"@, "error"@]
}

/// Arguments before the input: stream copy seeks before opening the input (to the
/// nearest keyframe); a re-encode seeks after decoding.
pub open spec fn trim_before_input(mode: EncodeMode, start: nat) -> Seq<Seq<char>> {
    match mode {
        EncodeMode::StreamCopy => quiet_args() + seq!["-ss"@, ffmpeg_time(start), "-i"@],
        EncodeMode::Reencode => quiet_args() + seq!["-i"@],
    }
}

/// What stream copy asks after the input: video, audio and subtitles only, the
/// metadata and chapters of the source, no re-encode.
pub open spec fn copy_after_input(dur: nat, ext: Option<Seq<char>>) -> Seq<Seq<char>> {
    seq![
        "-t"@,
        ffmpeg_time(dur),
        "-map"@,
        "0:v?"@,
        "-map"@,
        "0:a?"@,
        "-map"@,
        "0:s?"@,
        "-map_metadata"@,
        "0"@,
        "-map_chapters"@,
        "0"@,
        "-c"@,
        "copy"@,
        "-ignore_unknown"@,
        "-avoid_negative_ts"@,
        "make_zero"@,
    ] + (if is_mp4_family(ascii_lower(match ext { Some(e) => e, None => ""@ })) {
        seq!["-movflags"@, "+faststart"@]
    } else {
        seq![]
    })
}

/// What a re-encode asks after the input: the range, the metadata, then the encoders
/// of the chosen settings (or of the defaults narrowed to the source's tracks).
pub open spec fn reencode_after_input(
    start: nat,
    dur: nat,
    settings: Option<ReencodeSettings>,
    has_video: bool,
    has_audio: bool,
) -> Seq<Seq<char>> {
    seq!["-ss"@, ffmpeg_time(start), "-t"@, ffmpeg_time(dur), "-map_metadata"@, "0"@] + match settings {
        Some(s) => reencode_args(s, has_video, has_audio),
        None => reencode_args(fallback_settings(has_video, has_audio), has_video, has_audio),
    }
}

pub open spec fn opt_view(o: Option<&str>) -> Option<Seq<char>> {
    match o {
        Some(e) => Some(e@),
        None => None,
    }
}

pub open spec fn opt_settings(o: Option<&ReencodeSettings>) -> Option<ReencodeSettings> {
    match o {
        Some(s) => Some(*s),
        None => None,
    }
}

fn push_quiet(args: &mut Vec<String>)
    ensures
        args_view(final(args)@) == args_view(old(args)@) + quiet_args(),
{
    let ghost a0 = args_view(args@);
    push_arg(args, "-y");
    push_arg(args, "-hide_banner");
    push_arg(args, "-loglevel");
    push_arg(args, "error");
    assert(args_view(args@) =~= a0 + quiet_args());
}

fn push_copy_after(args: &mut Vec<String>, dur: u64, ext: Option<&str>)
    ensures
        args_view(final(args)@) == args_view(old(args)@) + copy_after_input(dur as nat, opt_view(ext)),
{
    let ghost a0 = args_view(args@);
    push_arg(args, "-t");
    push_arg_string(args, format_ffmpeg_time(dur));
    push_arg(args, "-map");
    push_arg(args, "0:v?");
    push_arg(args, "-map");
    push_arg(args, "0:a?");
    push_arg(args, "-map");
    push_arg(args, "0:s?");
    push_arg(args, "-map_metadata");
    push_arg(args, "0");
    push_arg(args, "-map_chapters");
    push_arg(args, "0");
    push_arg(args, "-c");
    push_arg(args, "copy");
    push_arg(args, "-ignore_unknown");
    push_arg(args, "-avoid_negative_ts");
    push_arg(args, "make_zero");
    let ghost a1 = args_view(args@);
    let e: &str = match ext {
        Some(e) => e,
        None => "",
    };
    if ext_is_mp4_family(e) {
        push_arg(args, "-movflags");
        push_arg(args, "+faststart");
    }
    assert(args_view(args@) =~= a0 + copy_after_input(dur as nat, opt_view(ext)));
}

/// Checks a cut and spells out its ffmpeg arguments. The range is refused when it is
/// empty or starts past the end of a file of known length; the output directory and the
/// run itself are the caller's.
pub fn trim_args(req: &TrimRequest) -> (r: Result<FfmpegArgs, FfmpegError>)
    ensures
        match r {
            Ok(a) => trim_range_error(req.start as nat, req.end as nat, req.total_duration as nat)
                is None && args_view(a.before_input@) == trim_before_input(req.mode, req.start as nat)
                && args_view(a.after_input@) == match req.mode {
                EncodeMode::StreamCopy => copy_after_input(
                    (req.end - req.start) as nat,
                    opt_view(req.output_ext),
                ),
                EncodeMode::Reencode => reencode_after_input(
                    req.start as nat,
                    (req.end - req.start) as nat,
                    opt_settings(req.reencode),
                    req.has_video,
                    req.has_audio,
                ),
            },
            Err(e) => trim_range_error(req.start as nat, req.end as nat, req.total_duration as nat)
                matches Some(m) && e is InvalidRange && e->InvalidRange_0@ == m,
        },
{
    if req.end <= req.start {
        return Err(FfmpegError::InvalidRange(String::from_str("end must be greater than start")));
    }
    if req.total_duration > 0 && req.start >= req.total_duration {
        return Err(FfmpegError::InvalidRange(String::from_str("start is past end of file")));
    }
    let dur = req.end - req.start;
    let mut before: Vec<String> = Vec::new();
    let mut after: Vec<String> = Vec::new();
    push_quiet(&mut before);
    let ghost b0 = args_view(before@);
    match req.mode {
        EncodeMode::StreamCopy => {
            push_arg(&mut before, "-ss");
            push_arg_string(&mut before, format_ffmpeg_time(req.start));
            push_arg(&mut before, "-i");
            assert(args_view(before@) =~= trim_before_input(req.mode, req.start as nat));
            push_copy_after(&mut after, dur, req.output_ext);
            assert(args_view(after@) =~= copy_after_input(dur as nat, opt_view(req.output_ext)));
        },
        EncodeMode::Reencode => {
            push_arg(&mut before, "-i");
            assert(args_view(before@) =~= trim_before_input(req.mode, req.start as nat));
            push_arg(&mut after, "-ss");
            push_arg_string(&mut after, format_ffmpeg_time(req.start));
            push_arg(&mut after, "-t");
            push_arg_string(&mut after, format_ffmpeg_time(dur));
            push_arg(&mut after, "-map_metadata");
            push_arg(&mut after, "0");
            let ghost a1 = args_view(after@);
            match req.reencode {
                Some(settings) => apply_reencode_settings(&mut after, settings, req.has_video, req.has_audio),
                None => {
                    let e: &str = match req.output_ext {
                        Some(e) => e,
                        None => "",
                    };
                    apply_reencode_args(&mut after, e, req.has_video, req.has_audio)
                },
            }
            assert(args_view(after@) =~= reencode_after_input(
                req.start as nat,
                dur as nat,
                opt_settings(req.reencode),
                req.has_video,
                req.has_audio,
            ));
        },
    }
    Ok(FfmpegArgs { before_input: before, after_input: after })
}

/// Why a finished ffmpeg run failed: its trimmed error output, else its trimmed
/// standard output, else its exit code.
pub open spec fn failure_text(stderr: Seq<char>, stdout: Seq<char>, code: Option<i32>) -> Seq<char> {
    if trim(stderr).len() > 0 {
        trim(stderr)
    } else if trim(stdout).len() > 0 {
        trim(stdout)
    } else {
        "exit code "@ + debug_code(code)
    }
}

/// `{:?}` of an exit code.
pub open spec fn debug_code(code: Option<i32>) -> Seq<char> {
    match code {
        Some(c) => "Some("@ + sdec(c as int) + ")"@,
        None => "None"@,
    }
}

fn push_debug_code(s: &mut String, code: Option<i32>)
    ensures
        final(s)@ == old(s)@ + debug_code(code),
{
    let ghost s0 = s@;
    match code {
        Some(c) => {
            push_str(s, "Some(");
            push_sdec(s, c as i64);
            push_str(s, ")");
        },
        None => push_str(s, "None"),
    }
    assert(s@ =~= s0 + debug_code(code));
}

/// The message of a failed cut (from the run's decoded output and exit code).
pub fn failure_message(stderr: &str, stdout: &str, code: Option<i32>) -> (r: String)
    ensures
        r@ == failure_text(stderr@, stdout@, code),
{
    let e = trim_str(stderr);
    if e.as_str().unicode_len() > 0 {
        return e;
    }
    let o = trim_str(stdout);
    if o.as_str().unicode_len() > 0 {
        return o;
    }
    let mut r = String::new();
    push_str(&mut r, "exit code ");
    push_debug_code(&mut r, code);
    r
}

/// The message of a failed join of the pieces: the trimmed error output, else the exit code.
pub open spec fn concat_failure_text(stderr: Seq<char>, code: Option<i32>) -> Seq<char> {
    if trim(stderr).len() == 0 {
        "concat exit "@ + debug_code(code)
    } else {
        trim(stderr)
    }
}

pub fn concat_failure_message(stderr: &str, code: Option<i32>) -> (r: String)
    ensures
        r@ == concat_failure_text(stderr@, code),
{
    let e = trim_str(stderr);
    if e.as_str().unicode_len() == 0 {
        let mut r = String::new();
        push_str(&mut r, "concat exit ");
        push_debug_code(&mut r, code);
        r
    } else {
        e
    }
}

/// One keep-range for multi-cut export (several pieces joined in order), in milliseconds.
#[derive(Debug, Clone, Copy, PartialEq, Eq, Structural)]
pub struct KeepSegment {
    pub start: u64,
    pub end: u64,
}

impl KeepSegment {
    /// The length of the piece, 0 when it is reversed.
    pub open spec fn len_of(self) -> nat {
        if self.end >= self.start { (self.end - self.start) as nat } else { 0 }
    }

    /// Longer than 10 ms.
    pub open spec fn valid(self) -> bool {
        self.end > self.start + 10
    }

    pub fn duration(self) -> (r: u64)
        ensures
            r == self.len_of(),
    {
        if self.end >= self.start { self.end - self.start } else { 0 }
    }

    pub fn is_valid(self) -> (r: bool)
        ensures
            r == self.valid(),
    {
        self.end as u128 > self.start as u128 + 10
    }
}

/// How a multi-cut goes: one piece is a plain cut; several are cut one by one and joined.
#[derive(Debug, Clone, Copy, PartialEq, Eq, Structural)]
pub enum MultiTrimPlan {
    Single(KeepSegment),
    Join,
}

/// Checks the keep-ranges of a multi-cut and says how it goes. Refused: no range at
/// all, or a range of 10 ms or less (the first such, numbered from 1).
pub fn plan_multi_trim(segments: &[KeepSegment]) -> (r: Result<MultiTrimPlan, FfmpegError>)
    ensures
        segments@.len() == 0 ==> (r matches Err(FfmpegError::InvalidRange(m))
            && m@ == "no keep ranges — add at least one segment"@),
        segments@.len() > 0 && (exists|i: int| 0 <= i < segments@.len() && !segments@[i].valid())
            ==> (r matches Err(FfmpegError::InvalidRange(m)) && exists|i: int|
            0 <= i < segments@.len() && !segments@[i].valid() && (forall|j: int|
                0 <= j < i ==> segments@[j].valid()) && m@ == "segment #"@ + dec((i + 1) as nat)
                + " invalid (end must be > start)"@),
        segments@.len() > 0 && (forall|i: int| 0 <= i < segments@.len() ==> segments@[i].valid())
            ==> (r matches Ok(p) && (segments@.len() == 1 ==> p == MultiTrimPlan::Single(segments@[0]))
            && (segments@.len() > 1 ==> p == MultiTrimPlan::Join)),
{
    if segments.len() == 0 {
        return Err(FfmpegError::InvalidRange(String::from_str("no keep ranges — add at least one segment")));
    }
    let mut i: usize = 0;
    while i < segments.len()
        invariant
            i <= segments@.len(),
            forall|j: int| 0 <= j < i ==> segments@[j].valid(),
        decreases segments.len() - i,
    {
        if !segments[i].is_valid() {
            let mut m = String::new();
            push_str(&mut m, "segment #");
            push_dec(&mut m, i as u64 + 1);
            push_str(&mut m, " invalid (end must be > start)");
            assert(m@ =~= "segment #"@ + dec((i + 1) as nat) + " invalid (end must be > start)"@);
            return Err(FfmpegError::InvalidRange(m));
        }
        i = i + 1;
    }
    if segments.len() == 1 {
        Ok(MultiTrimPlan::Single(segments[0]))
    } else {
        Ok(MultiTrimPlan::Join)
    }
}

/// The file name proposed for the cut of an input whose file stem and extension are
/// given (`None` where the path has none, or it is not UTF-8): `{stem}_cut.{ext}`,
/// with `output` and `mp4` in their place. It goes beside the input.
pub open spec fn suggested_name(stem: Option<Seq<char>>, ext: Option<Seq<char>>) -> Seq<char> {
    let s = match stem { Some(x) => x, None => "output"@ };
    let e = match ext { Some(x) => x, None => "mp4"@ };
    s + "_cut."@ + e
}

pub fn suggest_output(stem: Option<&str>, ext: Option<&str>) -> (r: String)
    ensures
        r@ == suggested_name(
            match stem { Some(x) => Some(x@), None => None },
            match ext { Some(x) => Some(x@), None => None },
        ),
{
    let mut r = String::new();
    match stem {
        Some(s) => push_str(&mut r, s),
        None => push_str(&mut r, "output"),
    }
    push_str(&mut r, "_cut.");
    match ext {
        Some(e) => push_str(&mut r, e),
        None => push_str(&mut r, "mp4"),
    }
    r
}

/// The file name of piece `i` of a multi-cut: `part_{i:03}.{ext}`.
pub fn part_file_name(i: usize, ext: &str) -> (r: String)
    ensures
        r@ == "part_"@ + pad0(dec(i as nat), 3) + "."@ + ext@,
{
    let mut r = String::new();
    push_str(&mut r, "part_");
    push_dec_pad(&mut r, i as u64, 3);
    push_str(&mut r, ".");
    push_str(&mut r, ext);
    assert(r@ =~= "part_"@ + pad0(dec(i as nat), 3) + "."@ + ext@);
    r
}

/// One character of a path as the concat demuxer's list quotes it: backslashes become
/// slashes, a single quote becomes `'\''`.
pub open spec fn quote_char(c: char) -> Seq<char> {
    if c == '\\' {
        seq!['/']
    } else if c == '\'' {
        seq!['\'', '\\', '\'', '\'']
    } else {
        seq![c]
    }
}

/// A path quoted for the concat list.
pub open spec fn quote_path(p: Seq<char>) -> Seq<char>
    decreases p.len(),
{
    if p.len() == 0 {
        seq![]
    } else {
        quote_path(p.drop_last()) + quote_char(p.last())
    }
}

/// The line of one piece in the concat list.
pub open spec fn concat_line(p: Seq<char>) -> Seq<char> {
    "file '"@ + quote_path(p) + "'\n"@
}

/// The concat list of several pieces, one line each, in order.
pub open spec fn concat_body(paths: Seq<Seq<char>>) -> Seq<char>
    decreases paths.len(),
{
    if paths.len() == 0 {
        seq![]
    } else {
        concat_body(paths.drop_last()) + concat_line(paths.last())
    }
}

fn push_quoted(s: &mut String, p: &str)
    ensures
        final(s)@ == old(s)@ + quote_path(p@),
{
    let v = chars_of(p);
    let ghost s0 = s@;
    let mut i: usize = 0;
    while i < v.len()
        invariant
            i <= v@.len(),
            v@ == p@,
            s@ == s0 + quote_path(v@.take(i as int)),
        decreases v.len() - i,
    {
        let c = v[i];
        if c == '\\' {
            push_char(s, '/');
        } else if c == '\'' {
            push_char(s, '\'');
            push_char(s, '\\');
            push_char(s, '\'');
            push_char(s, '\'');
        } else {
            push_char(s, c);
        }
        assert(v@.take(i + 1).drop_last() =~= v@.take(i as int));
        assert(s@ =~= s0 + quote_path(v@.take(i + 1)));
        i = i + 1;
    }
    assert(v@.take(v.len() as int) =~= v@);
}

/// The concat demuxer's list for the pieces (absolute paths, in output order).
pub fn concat_list_body(paths: &[String]) -> (r: String)
    ensures
        r@ == concat_body(paths@.map_values(|p: String| p@)),
{
    let mut r = String::new();
    let mut i: usize = 0;
    while i < paths.len()
        invariant
            i <= paths@.len(),
            r@ == concat_body(paths@.map_values(|p: String| p@).take(i as int)),
        decreases paths.len() - i,
    {
        let ghost r0 = r@;
        push_str(&mut r, "file '");
        push_quoted(&mut r, paths[i].as_str());
        push_str(&mut r, "'\n");
        let ghost pv = paths@.map_values(|p: String| p@);
        assert(pv.take(i + 1).drop_last() =~= pv.take(i as int));
        assert(pv.take(i + 1).last() == paths@[i as int]@);
        assert(r@ =~= r0 + concat_line(paths@[i as int]@));
        i = i + 1;
    }
    assert(paths@.map_values(|p: String| p@).take(paths.len() as int) =~= paths@.map_values(|p: String| p@));
    r
}

/// The arguments that join the pieces listed in a concat file (given as the input)
/// into the output, without re-encoding. `ext` is the output's extension (`mp4` where
/// it has none).
pub open spec fn concat_after_input(ext: Seq<char>) -> Seq<Seq<char>> {
    seq!["-c"@, "copy"@, "-ignore_unknown"@] + (if is_mp4_family(ascii_lower(ext)) {
        seq!["-movflags"@, "+faststart"@]
    } else {
        seq![]
    })
}

pub fn concat_args(ext: &str) -> (r: FfmpegArgs)
    ensures
        args_view(r.before_input@) == quiet_args() + seq!["-f"@, "concat"@, "-safe"@, "0"@, "-i"@],
        args_view(r.after_input@) == concat_after_input(ext@),
{
    let mut before: Vec<String> = Vec::new();
    push_quiet(&mut before);
    let ghost b0 = args_view(before@);
    push_arg(&mut before, "-f");
    push_arg(&mut before, "concat");
    push_arg(&mut before, "-safe");
    push_arg(&mut before, "0");
    push_arg(&mut before, "-i");
    assert(args_view(before@) =~= quiet_args() + seq!["-f"@, "concat"@, "-safe"@, "0"@, "-i"@]);
    let mut after: Vec<String> = Vec::new();
    push_arg(&mut after, "-c");
    push_arg(&mut after, "copy");
    push_arg(&mut after, "-ignore_unknown");
    if ext_is_mp4_family(ext) {
        push_arg(&mut after, "-movflags");
        push_arg(&mut after, "+faststart");
    }
    assert(args_view(after@) =~= concat_after_input(ext@));
    FfmpegArgs { before_input: before, after_input: after }
}

/// Why an export cannot start, checked in this order: no input, an empty output path,
/// or no piece to keep (or one of 10 ms or less).
pub open spec fn export_problem_of(has_input: bool, output: Seq<char>, segments: Seq<KeepSegment>) -> Option<Seq<char>> {
    if !has_input {
        Some("Select a file first."@)
    } else if trim(output).len() == 0 {
        Some("Set an output path."@)
    } else if segments.len() == 0 || exists|i: int| 0 <= i < segments.len() && !(#[trigger] segments[i]).valid() {
        Some("Nothing to export."@)
    } else {
        None
    }
}

pub fn export_problem(has_input: bool, output: &str, segments: &[KeepSegment]) -> (r: Option<&'static str>)
    ensures
        match export_problem_of(has_input, output@, segments@) {
            Some(m) => r matches Some(x) && x@ == m,
            None => r is None,
        },
{
    if !has_input {
        return Some("Select a file first.");
    }
    let t = trim_str(output);
    if t.as_str().unicode_len() == 0 {
        return Some("Set an output path.");
    }
    if segments.len() == 0 {
        return Some("Nothing to export.");
    }
    let mut i: usize = 0;
    while i < segments.len()
        invariant
            i <= segments@.len(),
            has_input,
            trim(output@).len() > 0,
            forall|j: int| 0 <= j < i ==> (#[trigger] segments@[j]).valid(),
        decreases segments@.len() - i,
    {
        if !segments[i].is_valid() {
            assert(!segments@[i as int].valid());
            assert(exists|k: int| 0 <= k < segments@.len() && !(#[trigger] segments@[k]).valid());
            return Some("Nothing to export.");
        }
        i = i + 1;
    }
    assert(!exists|k: int| 0 <= k < segments@.len() && !(#[trigger] segments@[k]).valid());
    None
}

/// The total length of the pieces.
pub open spec fn keep_total(segments: Seq<KeepSegment>) -> nat
    decreases segments.len(),
{
    if segments.len() == 0 {
        0
    } else {
        keep_total(segments.drop_last()) + segments.last().len_of()
    }
}

/// The status shown while a cut runs: the range of a single piece, or the number of
/// pieces and their total length (saturated at `u64::MAX` ms).
pub open spec fn cutting_status_of(segments: Seq<KeepSegment>) -> Seq<char> {
    if segments.len() == 1 {
        "Cutting "@ + format_seconds_of(segments[0].start as nat) + " → "@ + format_seconds_of(
            segments[0].end as nat,
        ) + " …"@
    } else {
        "Cutting "@ + dec(segments.len()) + " pieces ("@ + format_seconds_of(
            min_nat(keep_total(segments), u64::MAX as nat),
        ) + ") …"@
    }
}

pub fn cutting_status(segments: &[KeepSegment]) -> (r: String)
    ensures
        r@ == cutting_status_of(segments@),
{
    let mut r = String::new();
    push_str(&mut r, "Cutting ");
    if segments.len() == 1 {
        let a = format_seconds(segments[0].start);
        push_str(&mut r, a.as_str());
        push_str(&mut r, " → ");
        let b = format_seconds(segments[0].end);
        push_str(&mut r, b.as_str());
        push_str(&mut r, " …");
        return r;
    }
    let mut total: u64 = 0;
    let mut i: usize = 0;
    while i < segments.len()
        invariant
            i <= segments@.len(),
            total == min_nat(keep_total(segments@.subrange(0, i as int)), u64::MAX as nat),
        decreases segments@.len() - i,
    {
        let d = segments[i].duration();
        assert(segments@.subrange(0, i + 1).drop_last() =~= segments@.subrange(0, i as int));
        total = if total as u128 + d as u128 > u64::MAX as u128 { u64::MAX } else { total + d };
        i = i + 1;
    }
    assert(segments@.subrange(0, segments@.len() as int) =~= segments@);
    push_dec(&mut r, segments.len() as u64);
    push_str(&mut r, " pieces (");
    let k = format_seconds(total);
    push_str(&mut r, k.as_str());
    push_str(&mut r, ") …");
    r
}

/// A re-encode names the encoder of the chosen video codec right after `-c:v`: H.264 is
/// `libx264`, H.265 `libx265`, VP9 `libvpx-vp9`; without a video codec the video is
/// dropped. When the video is kept, these arguments close the video part.
pub proof fn law_video_encoder_matches_codec(s: ReencodeSettings, v: bool)
    ensures
        s.video_codec == VideoCodec::H264 ==> video_codec_args(s).take(2) == seq!["-c:v"@, "libx264"@],
        s.video_codec == VideoCodec::H265 ==> video_codec_args(s).take(2) == seq!["-c:v"@, "libx265"@],
        s.video_codec == VideoCodec::Vp9 ==> video_codec_args(s).take(2) == seq!["-c:v"@, "libvpx-vp9"@],
        s.video_codec == VideoCodec::NoVideo ==> video_codec_args(s) == seq!["-vn"@],
        wants_video(s, v) ==> video_part(s, v) == filter_args(s) + video_codec_args(s),
        !wants_video(s, v) ==> video_part(s, v) == seq!["-vn"@],
{
    reveal(video_codec_args);
    match s.video_codec {
        VideoCodec::H264 => {
            assert(video_codec_args(s).take(2) =~= seq!["-c:v"@, "libx264"@]);
        },
        VideoCodec::H265 => {
            assert(video_codec_args(s).take(2) =~= seq!["-c:v"@, "libx265"@]);
        },
        VideoCodec::Vp9 => {
            assert(video_codec_args(s).take(2) =~= seq!["-c:v"@, "libvpx-vp9"@]);
        },
        VideoCodec::NoVideo => {},
    }
}

/// A stream-copy cut copies every stream as it is: its arguments hold `-c copy` and no
/// encoder choice (`-c:v`, `-c:a`) at all.
pub proof fn law_stream_copy_copies(dur: nat, ext: Option<Seq<char>>)
    ensures
        copy_after_input(dur, ext)[12] == "-c"@,
        copy_after_input(dur, ext)[13] == "copy"@,
        forall|i: int|
            0 <= i < copy_after_input(dur, ext).len() ==> #[trigger] copy_after_input(dur, ext)[i] != "-c:v"@
                && copy_after_input(dur, ext)[i] != "-c:a"@,
{
    let a = copy_after_input(dur, ext);
    reveal_strlit("-c:v");
    reveal_strlit("-c:a");
    crate::text::lemma_dec_digits(dur / 1000);
    assert(crate::text::is_digit(ffmpeg_time(dur)[0]));
    assert forall|i: int| 0 <= i < a.len() implies #[trigger] a[i] != "-c:v"@ && a[i] != "-c:a"@ by {
        if i == 1 {
            assert(a[i][0] != '-');
        } else {
            reveal_strlit("-t");
            reveal_strlit("-map");
            reveal_strlit("0:v?");
            reveal_strlit("0:a?");
            reveal_strlit("0:s?");
            reveal_strlit("-map_metadata");
            reveal_strlit("0");
            reveal_strlit("-map_chapters");
            reveal_strlit("-c");
            reveal_strlit("copy");
            reveal_strlit("-ignore_unknown");
            reveal_strlit("-avoid_negative_ts");
            reveal_strlit("make_zero");
            reveal_strlit("-movflags");
            reveal_strlit("+faststart");
            assert(a[i].len() != 4 || a[i][2] != ':' || a[i][0] != '-');
        }
    }
}

} // verus!
