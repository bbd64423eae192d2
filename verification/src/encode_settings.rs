//! Re-encode settings: presets and manual parameters.

use vstd::prelude::*;
use crate::text::{dec, push_dec, push_str};

verus! {

/// Template (preset).
#[derive(Debug, Clone, Copy, PartialEq, Eq, Structural)]
pub enum EncodePreset {
    /// CRF 18, source resolution, medium
    HighQuality,
    /// CRF 23, up to 1080p
    Balanced,
    /// 720p, CRF 23, faster
    Web720,
    /// 480p, CRF 28, veryfast
    Mobile480,
    /// Audio only MP3 320k
    AudioMp3,
    /// Audio only AAC 256k
    AudioAac,
    /// Manual settings
    Custom,
}

impl EncodePreset {
    pub open spec fn label_of(self) -> Seq<char> {
        match self {
            EncodePreset::HighQuality => "High quality"@,
            EncodePreset::Balanced => "Balanced"@,
            EncodePreset::Web720 => "Web 720p"@,
            EncodePreset::Mobile480 => "Mobile 480p"@,
            EncodePreset::AudioMp3 => "Audio only · MP3"@,
            EncodePreset::AudioAac => "Audio only · AAC"@,
            EncodePreset::Custom => "Custom"@,
        }
    }

    pub open spec fn hint_of(self) -> Seq<char> {
        match self {
            EncodePreset::HighQuality => "near-lossless, source frame size"@,
            EncodePreset::Balanced => "good quality, up to Full HD"@,
            EncodePreset::Web720 => "good for web and messengers"@,
            EncodePreset::Mobile480 => "small file size"@,
            EncodePreset::AudioMp3 => "drop video, MP3 320k"@,
            EncodePreset::AudioAac => "drop video, AAC 256k"@,
            EncodePreset::Custom => "format, codec, bitrate, resolution by hand"@,
        }
    }

    /// Every preset, in menu order.
    pub fn all() -> (r: &'static [EncodePreset])
        ensures
            r@ == seq![
                EncodePreset::HighQuality,
                EncodePreset::Balanced,
                EncodePreset::Web720,
                EncodePreset::Mobile480,
                EncodePreset::AudioMp3,
                EncodePreset::AudioAac,
                EncodePreset::Custom,
            ],
    {
        let r: &'static [EncodePreset] = &[
            EncodePreset::HighQuality,
            EncodePreset::Balanced,
            EncodePreset::Web720,
            EncodePreset::Mobile480,
            EncodePreset::AudioMp3,
            EncodePreset::AudioAac,
            EncodePreset::Custom,
        ];
        r
    }

    pub fn label(self) -> (r: &'static str)
        ensures
            r@ == self.label_of(),
    {
        match self {
            EncodePreset::HighQuality => "High quality",
            EncodePreset::Balanced => "Balanced",
            EncodePreset::Web720 => "Web 720p",
            EncodePreset::Mobile480 => "Mobile 480p",
            EncodePreset::AudioMp3 => "Audio only · MP3",
            EncodePreset::AudioAac => "Audio only · AAC",
            EncodePreset::Custom => "Custom",
        }
    }

    pub fn hint(self) -> (r: &'static str)
        ensures
            r@ == self.hint_of(),
    {
        match self {
            EncodePreset::HighQuality => "near-lossless, source frame size",
            EncodePreset::Balanced => "good quality, up to Full HD",
            EncodePreset::Web720 => "good for web and messengers",
            EncodePreset::Mobile480 => "small file size",
            EncodePreset::AudioMp3 => "drop video, MP3 320k",
            EncodePreset::AudioAac => "drop video, AAC 256k",
            EncodePreset::Custom => "format, codec, bitrate, resolution by hand",
        }
    }
}

/// Output container.
#[derive(Debug, Clone, Copy, PartialEq, Eq, Structural)]
pub enum ContainerFmt {
    Mp4,
    Mkv,
    Webm,
    Mov,
    Mp3,
    M4a,
    Flac,
    Wav,
    Ogg,
}

impl ContainerFmt {
    pub open spec fn label_of(self) -> Seq<char> {
        match self {
            ContainerFmt::Mp4 => "MP4"@,
            ContainerFmt::Mkv => "MKV"@,
            ContainerFmt::Webm => "WebM"@,
            ContainerFmt::Mov => "MOV"@,
            ContainerFmt::Mp3 => "MP3"@,
            ContainerFmt::M4a => "M4A"@,
            ContainerFmt::Flac => "FLAC"@,
            ContainerFmt::Wav => "WAV"@,
            ContainerFmt::Ogg => "OGG"@,
        }
    }

    pub open spec fn ext_of(self) -> Seq<char> {
        match self {
            ContainerFmt::Mp4 => "mp4"@,
            ContainerFmt::Mkv => "mkv"@,
            ContainerFmt::Webm => "webm"@,
            ContainerFmt::Mov => "mov"@,
            ContainerFmt::Mp3 => "mp3"@,
            ContainerFmt::M4a => "m4a"@,
            ContainerFmt::Flac => "flac"@,
            ContainerFmt::Wav => "wav"@,
            ContainerFmt::Ogg => "ogg"@,
        }
    }

    /// The containers that hold no video track.
    pub open spec fn audio_only(self) -> bool {
        match self {
            ContainerFmt::Mp3 | ContainerFmt::M4a | ContainerFmt::Flac | ContainerFmt::Wav
            | ContainerFmt::Ogg => true,
            _ => false,
        }
    }

    pub fn all() -> (r: &'static [ContainerFmt])
        ensures
            r@ == seq![
                ContainerFmt::Mp4,
                ContainerFmt::Mkv,
                ContainerFmt::Webm,
                ContainerFmt::Mov,
                ContainerFmt::Mp3,
                ContainerFmt::M4a,
                ContainerFmt::Flac,
                ContainerFmt::Wav,
                ContainerFmt::Ogg,
            ],
    {
        let r: &'static [ContainerFmt] = &[
            ContainerFmt::Mp4,
            ContainerFmt::Mkv,
            ContainerFmt::Webm,
            ContainerFmt::Mov,
            ContainerFmt::Mp3,
            ContainerFmt::M4a,
            ContainerFmt::Flac,
            ContainerFmt::Wav,
            ContainerFmt::Ogg,
        ];
        r
    }

    pub fn label(self) -> (r: &'static str)
        ensures
            r@ == self.label_of(),
    {
        match self {
            ContainerFmt::Mp4 => "MP4",
            ContainerFmt::Mkv => "MKV",
            ContainerFmt::Webm => "WebM",
            ContainerFmt::Mov => "MOV",
            ContainerFmt::Mp3 => "MP3",
            ContainerFmt::M4a => "M4A",
            ContainerFmt::Flac => "FLAC",
            ContainerFmt::Wav => "WAV",
            ContainerFmt::Ogg => "OGG",
        }
    }

    pub fn ext(self) -> (r: &'static str)
        ensures
            r@ == self.ext_of(),
    {
        match self {
            ContainerFmt::Mp4 => "mp4",
            ContainerFmt::Mkv => "mkv",
            ContainerFmt::Webm => "webm",
            ContainerFmt::Mov => "mov",
            ContainerFmt::Mp3 => "mp3",
            ContainerFmt::M4a => "m4a",
            ContainerFmt::Flac => "flac",
            ContainerFmt::Wav => "wav",
            ContainerFmt::Ogg => "ogg",
        }
    }

    pub fn is_audio_only(self) -> (r: bool)
        ensures
            r == self.audio_only(),
    {
        match self {
            ContainerFmt::Mp3 | ContainerFmt::M4a | ContainerFmt::Flac | ContainerFmt::Wav
            | ContainerFmt::Ogg => true,
            _ => false,
        }
    }
}

/// Video codec of a re-encode.
#[derive(Debug, Clone, Copy, PartialEq, Eq, Structural)]
pub enum VideoCodec {
    H264,
    H265,
    Vp9,
    /// Drop the video track.
    NoVideo,
}

impl VideoCodec {
    pub open spec fn label_of(self) -> Seq<char> {
        match self {
            VideoCodec::H264 => "H.264"@,
            VideoCodec::H265 => "H.265 / HEVC"@,
            VideoCodec::Vp9 => "VP9"@,
            VideoCodec::NoVideo => "No video"@,
        }
    }

    pub fn all() -> (r: &'static [VideoCodec])
        ensures
            r@ == seq![VideoCodec::H264, VideoCodec::H265, VideoCodec::Vp9, VideoCodec::NoVideo],
    {
        let r: &'static [VideoCodec] = &[
            VideoCodec::H264,
            VideoCodec::H265,
            VideoCodec::Vp9,
            VideoCodec::NoVideo,
        ];
        r
    }

    pub fn label(self) -> (r: &'static str)
        ensures
            r@ == self.label_of(),
    {
        match self {
            VideoCodec::H264 => "H.264",
            VideoCodec::H265 => "H.265 / HEVC",
            VideoCodec::Vp9 => "VP9",
            VideoCodec::NoVideo => "No video",
        }
    }
}

/// Audio codec of a re-encode.
#[derive(Debug, Clone, Copy, PartialEq, Eq, Structural)]
pub enum AudioCodec {
    Aac,
    Mp3,
    Opus,
    Vorbis,
    Flac,
    Pcm,
    /// Drop the audio track.
    NoAudio,
}

impl AudioCodec {
    pub open spec fn label_of(self) -> Seq<char> {
        match self {
            AudioCodec::Aac => "AAC"@,
            AudioCodec::Mp3 => "MP3"@,
            AudioCodec::Opus => "Opus"@,
            AudioCodec::Vorbis => "Vorbis"@,
            AudioCodec::Flac => "FLAC"@,
            AudioCodec::Pcm => "PCM (WAV)"@,
            AudioCodec::NoAudio => "No audio"@,
        }
    }

    pub fn all() -> (r: &'static [AudioCodec])
        ensures
            r@ == seq![
                AudioCodec::Aac,
                AudioCodec::Mp3,
                AudioCodec::Opus,
                AudioCodec::Vorbis,
                AudioCodec::Flac,
                AudioCodec::Pcm,
                AudioCodec::NoAudio,
            ],
    {
        let r: &'static [AudioCodec] = &[
            AudioCodec::Aac,
            AudioCodec::Mp3,
            AudioCodec::Opus,
            AudioCodec::Vorbis,
            AudioCodec::Flac,
            AudioCodec::Pcm,
            AudioCodec::NoAudio,
        ];
        r
    }

    pub fn label(self) -> (r: &'static str)
        ensures
            r@ == self.label_of(),
    {
        match self {
            AudioCodec::Aac => "AAC",
            AudioCodec::Mp3 => "MP3",
            AudioCodec::Opus => "Opus",
            AudioCodec::Vorbis => "Vorbis",
            AudioCodec::Flac => "FLAC",
            AudioCodec::Pcm => "PCM (WAV)",
            AudioCodec::NoAudio => "No audio",
        }
    }
}

/// Output frame size.
#[derive(Debug, Clone, Copy, PartialEq, Eq, Structural)]
pub enum ResolutionOpt {
    Original,
    P2160,
    P1440,
    P1080,
    P720,
    P480,
    P360,
    Custom,
}

impl ResolutionOpt {
    pub open spec fn label_of(self) -> Seq<char> {
        match self {
            ResolutionOpt::Original => "Source"@,
            ResolutionOpt::P2160 => "2160p (4K)"@,
            ResolutionOpt::P1440 => "1440p"@,
            ResolutionOpt::P1080 => "1080p"@,
            ResolutionOpt::P720 => "720p"@,
            ResolutionOpt::P480 => "480p"@,
            ResolutionOpt::P360 => "360p"@,
            ResolutionOpt::Custom => "Custom…"@,
        }
    }

    pub open spec fn max_height_of(self) -> Option<u32> {
        match self {
            ResolutionOpt::Original => None,
            ResolutionOpt::P2160 => Some(2160),
            ResolutionOpt::P1440 => Some(1440),
            ResolutionOpt::P1080 => Some(1080),
            ResolutionOpt::P720 => Some(720),
            ResolutionOpt::P480 => Some(480),
            ResolutionOpt::P360 => Some(360),
            ResolutionOpt::Custom => None,
        }
    }

    pub fn all() -> (r: &'static [ResolutionOpt])
        ensures
            r@ == seq![
                ResolutionOpt::Original,
                ResolutionOpt::P2160,
                ResolutionOpt::P1440,
                ResolutionOpt::P1080,
                ResolutionOpt::P720,
                ResolutionOpt::P480,
                ResolutionOpt::P360,
                ResolutionOpt::Custom,
            ],
    {
        let r: &'static [ResolutionOpt] = &[
            ResolutionOpt::Original,
            ResolutionOpt::P2160,
            ResolutionOpt::P1440,
            ResolutionOpt::P1080,
            ResolutionOpt::P720,
            ResolutionOpt::P480,
            ResolutionOpt::P360,
            ResolutionOpt::Custom,
        ];
        r
    }

    pub fn label(self) -> (r: &'static str)
        ensures
            r@ == self.label_of(),
    {
        match self {
            ResolutionOpt::Original => "Source",
            ResolutionOpt::P2160 => "2160p (4K)",
            ResolutionOpt::P1440 => "1440p",
            ResolutionOpt::P1080 => "1080p",
            ResolutionOpt::P720 => "720p",
            ResolutionOpt::P480 => "480p",
            ResolutionOpt::P360 => "360p",
            ResolutionOpt::Custom => "Custom…",
        }
    }

    /// Max height (scale=-2:H).
    pub fn max_height(self) -> (r: Option<u32>)
        ensures
            r == self.max_height_of(),
    {
        match self {
            ResolutionOpt::Original => None,
            ResolutionOpt::P2160 => Some(2160),
            ResolutionOpt::P1440 => Some(1440),
            ResolutionOpt::P1080 => Some(1080),
            ResolutionOpt::P720 => Some(720),
            ResolutionOpt::P480 => Some(480),
            ResolutionOpt::P360 => Some(360),
            ResolutionOpt::Custom => None,
        }
    }
}

/// How the video rate is controlled.
#[derive(Debug, Clone, Copy, PartialEq, Eq, Structural)]
pub enum VideoRateMode {
    /// CRF (quality, VBR)
    Crf,
    /// Target video bitrate
    Bitrate,
}

impl VideoRateMode {
    pub open spec fn label_of(self) -> Seq<char> {
        match self {
            VideoRateMode::Crf => "CRF (quality)"@,
            VideoRateMode::Bitrate => "Bitrate"@,
        }
    }

    pub fn label(self) -> (r: &'static str)
        ensures
            r@ == self.label_of(),
    {
        match self {
            VideoRateMode::Crf => "CRF (quality)",
            VideoRateMode::Bitrate => "Bitrate",
        }
    }
}

/// Output frame rate.
#[derive(Debug, Clone, Copy, PartialEq, Eq, Structural)]
pub enum FpsOpt {
    Original,
    F60,
    F30,
    F25,
    F24,
    F15,
}

impl FpsOpt {
    pub open spec fn label_of(self) -> Seq<char> {
        match self {
            FpsOpt::Original => "Source"@,
            FpsOpt::F60 => "60"@,
            FpsOpt::F30 => "30"@,
            FpsOpt::F25 => "25"@,
            FpsOpt::F24 => "24"@,
            FpsOpt::F15 => "15"@,
        }
    }

    pub open spec fn value_of(self) -> Option<u32> {
        match self {
            FpsOpt::Original => None,
            FpsOpt::F60 => Some(60),
            FpsOpt::F30 => Some(30),
            FpsOpt::F25 => Some(25),
            FpsOpt::F24 => Some(24),
            FpsOpt::F15 => Some(15),
        }
    }

    pub fn all() -> (r: &'static [FpsOpt])
        ensures
            r@ == seq![
                FpsOpt::Original,
                FpsOpt::F60,
                FpsOpt::F30,
                FpsOpt::F25,
                FpsOpt::F24,
                FpsOpt::F15,
            ],
    {
        let r: &'static [FpsOpt] = &[
            FpsOpt::Original,
            FpsOpt::F60,
            FpsOpt::F30,
            FpsOpt::F25,
            FpsOpt::F24,
            FpsOpt::F15,
        ];
        r
    }

    pub fn label(self) -> (r: &'static str)
        ensures
            r@ == self.label_of(),
    {
        match self {
            FpsOpt::Original => "Source",
            FpsOpt::F60 => "60",
            FpsOpt::F30 => "30",
            FpsOpt::F25 => "25",
            FpsOpt::F24 => "24",
            FpsOpt::F15 => "15",
        }
    }

    /// Frames per second, `None` to keep the source rate (whole numbers only).
    pub fn value(self) -> (r: Option<u32>)
        ensures
            r == self.value_of(),
    {
        match self {
            FpsOpt::Original => None,
            FpsOpt::F60 => Some(60),
            FpsOpt::F30 => Some(30),
            FpsOpt::F25 => Some(25),
            FpsOpt::F24 => Some(24),
            FpsOpt::F15 => Some(15),
        }
    }
}

/// Encoder speed preset (x264/x265 `-preset`).
#[derive(Debug, Clone, Copy, PartialEq, Eq, Structural)]
pub enum EncodeSpeed {
    Ultrafast,
    Veryfast,
    Faster,
    Fast,
    Medium,
    Slow,
}

impl EncodeSpeed {
    pub open spec fn label_of(self) -> Seq<char> {
        match self {
            EncodeSpeed::Ultrafast => "ultrafast"@,
            EncodeSpeed::Veryfast => "veryfast"@,
            EncodeSpeed::Faster => "faster"@,
            EncodeSpeed::Fast => "fast"@,
            EncodeSpeed::Medium => "medium"@,
            EncodeSpeed::Slow => "slow"@,
        }
    }

    pub fn all() -> (r: &'static [EncodeSpeed])
        ensures
            r@ == seq![
                EncodeSpeed::Ultrafast,
                EncodeSpeed::Veryfast,
                EncodeSpeed::Faster,
                EncodeSpeed::Fast,
                EncodeSpeed::Medium,
                EncodeSpeed::Slow,
            ],
    {
        let r: &'static [EncodeSpeed] = &[
            EncodeSpeed::Ultrafast,
            EncodeSpeed::Veryfast,
            EncodeSpeed::Faster,
            EncodeSpeed::Fast,
            EncodeSpeed::Medium,
            EncodeSpeed::Slow,
        ];
        r
    }

    pub fn label(self) -> (r: &'static str)
        ensures
            r@ == self.label_of(),
    {
        match self {
            EncodeSpeed::Ultrafast => "ultrafast",
            EncodeSpeed::Veryfast => "veryfast",
            EncodeSpeed::Faster => "faster",
            EncodeSpeed::Fast => "fast",
            EncodeSpeed::Medium => "medium",
            EncodeSpeed::Slow => "slow",
        }
    }

    /// The value of ffmpeg's `-preset` option: the label itself.
    pub fn ffmpeg(self) -> (r: &'static str)
        ensures
            r@ == self.label_of(),
    {
        self.label()
    }
}

/// All re-encode parameters.
#[derive(Debug, Clone, Copy, PartialEq, Eq, Structural)]
pub struct ReencodeSettings {
    pub preset: EncodePreset,
    pub container: ContainerFmt,
    pub video_codec: VideoCodec,
    pub audio_codec: AudioCodec,
    pub resolution: ResolutionOpt,
    pub custom_w: u32,
    pub custom_h: u32,
    pub rate_mode: VideoRateMode,
    pub crf: u8,
    pub video_bitrate_k: u32,
    pub audio_bitrate_k: u32,
    pub fps: FpsOpt,
    pub speed: EncodeSpeed,
}

/// The settings a preset stands for: the common base (MP4, H.264, AAC, source size,
/// CRF 18, 4000k video, 192k audio, source fps, medium, custom size 1920×1080) with the
/// preset's own changes.
pub open spec fn preset_settings(p: EncodePreset) -> ReencodeSettings {
    let base = ReencodeSettings {
        preset: p,
        container: ContainerFmt::Mp4,
        video_codec: VideoCodec::H264,
        audio_codec: AudioCodec::Aac,
        resolution: ResolutionOpt::Original,
        custom_w: 1920,
        custom_h: 1080,
        rate_mode: VideoRateMode::Crf,
        crf: 18,
        video_bitrate_k: 4000,
        audio_bitrate_k: 192,
        fps: FpsOpt::Original,
        speed: EncodeSpeed::Medium,
    };
    match p {
        EncodePreset::HighQuality => ReencodeSettings { crf: 18, speed: EncodeSpeed::Medium, audio_bitrate_k: 256, ..base },
        EncodePreset::Balanced => ReencodeSettings {
            crf: 23,
            resolution: ResolutionOpt::P1080,
            speed: EncodeSpeed::Faster,
            audio_bitrate_k: 160,
            ..base
        },
        EncodePreset::Web720 => ReencodeSettings {
            crf: 23,
            resolution: ResolutionOpt::P720,
            speed: EncodeSpeed::Faster,
            audio_bitrate_k: 128,
            ..base
        },
        EncodePreset::Mobile480 => ReencodeSettings {
            crf: 28,
            resolution: ResolutionOpt::P480,
            speed: EncodeSpeed::Veryfast,
            audio_bitrate_k: 96,
            fps: FpsOpt::F30,
            ..base
        },
        EncodePreset::AudioMp3 => ReencodeSettings {
            container: ContainerFmt::Mp3,
            video_codec: VideoCodec::NoVideo,
            audio_codec: AudioCodec::Mp3,
            audio_bitrate_k: 320,
            ..base
        },
        EncodePreset::AudioAac => ReencodeSettings {
            container: ContainerFmt::M4a,
            video_codec: VideoCodec::NoVideo,
            audio_codec: AudioCodec::Aac,
            audio_bitrate_k: 256,
            ..base
        },
        EncodePreset::Custom => base,
    }
}

/// The video part of the summary (with its leading separator).
pub open spec fn summary_video_of(s: ReencodeSettings) -> Seq<char> {
    let sep = " · "@;
    if s.video_codec != VideoCodec::NoVideo {
        sep + s.video_codec.label_of() + sep + s.resolution.label_of() + sep + match s.rate_mode {
            VideoRateMode::Crf => "CRF "@ + dec(s.crf as nat),
            VideoRateMode::Bitrate => dec(s.video_bitrate_k as nat) + "k video"@,
        }
    } else {
        sep + "no video"@
    }
}

/// The audio part of the summary (with its leading separator), empty without audio.
pub open spec fn summary_audio_of(s: ReencodeSettings) -> Seq<char> {
    if s.audio_codec != AudioCodec::NoAudio {
        " · "@ + s.audio_codec.label_of() + " "@ + dec(s.audio_bitrate_k as nat) + "k"@
    } else {
        Seq::empty()
    }
}

/// The one-line description of the settings: parts joined by ` · `.
pub open spec fn summary_of(s: ReencodeSettings) -> Seq<char> {
    s.container.label_of() + summary_video_of(s) + summary_audio_of(s)
}

impl Default for ReencodeSettings {
    fn default() -> (r: Self)
        ensures
            r == preset_settings(EncodePreset::HighQuality),
    {
        Self::from_preset(EncodePreset::HighQuality)
    }
}

impl ReencodeSettings {
    pub fn from_preset(preset: EncodePreset) -> (r: Self)
        ensures
            r == preset_settings(preset),
    {
        let mut s = Self {
            preset,
            container: ContainerFmt::Mp4,
            video_codec: VideoCodec::H264,
            audio_codec: AudioCodec::Aac,
            resolution: ResolutionOpt::Original,
            custom_w: 1920,
            custom_h: 1080,
            rate_mode: VideoRateMode::Crf,
            crf: 18,
            video_bitrate_k: 4000,
            audio_bitrate_k: 192,
            fps: FpsOpt::Original,
            speed: EncodeSpeed::Medium,
        };
        match preset {
            EncodePreset::HighQuality => {
                s.crf = 18;
                s.speed = EncodeSpeed::Medium;
                s.audio_bitrate_k = 256;
            },
            EncodePreset::Balanced => {
                s.crf = 23;
                s.resolution = ResolutionOpt::P1080;
                s.speed = EncodeSpeed::Faster;
                s.audio_bitrate_k = 160;
            },
            EncodePreset::Web720 => {
                s.crf = 23;
                s.resolution = ResolutionOpt::P720;
                s.speed = EncodeSpeed::Faster;
                s.audio_bitrate_k = 128;
            },
            EncodePreset::Mobile480 => {
                s.crf = 28;
                s.resolution = ResolutionOpt::P480;
                s.speed = EncodeSpeed::Veryfast;
                s.audio_bitrate_k = 96;
                s.fps = FpsOpt::F30;
            },
            EncodePreset::AudioMp3 => {
                s.container = ContainerFmt::Mp3;
                s.video_codec = VideoCodec::NoVideo;
                s.audio_codec = AudioCodec::Mp3;
                s.audio_bitrate_k = 320;
            },
            EncodePreset::AudioAac => {
                s.container = ContainerFmt::M4a;
                s.video_codec = VideoCodec::NoVideo;
                s.audio_codec = AudioCodec::Aac;
                s.audio_bitrate_k = 256;
            },
            EncodePreset::Custom => {
                s.preset = EncodePreset::Custom;
            },
        }
        s
    }

    pub fn apply_preset(&mut self, preset: EncodePreset)
        ensures
            *final(self) == preset_settings(preset),
    {
        *self = Self::from_preset(preset);
    }

    /// Marks the settings as edited by hand; nothing else changes.
    pub fn touch_custom(&mut self)
        ensures
            *final(self) == (ReencodeSettings { preset: EncodePreset::Custom, ..*old(self) }),
    {
        self.preset = EncodePreset::Custom;
    }

    /// The settings after the container was changed by hand: marked custom, no video
    /// in an audio-only container, and WebM moved to VP9 / Opus where H.264, H.265,
    /// AAC or MP3 were chosen.
    pub open spec fn container_fixed(s: ReencodeSettings) -> ReencodeSettings {
        let v = if s.container.audio_only() { VideoCodec::NoVideo } else { s.video_codec };
        let webm = s.container == ContainerFmt::Webm;
        ReencodeSettings {
            preset: EncodePreset::Custom,
            video_codec: if webm && (v == VideoCodec::H264 || v == VideoCodec::H265) { VideoCodec::Vp9 } else { v },
            audio_codec: if webm && (s.audio_codec == AudioCodec::Aac || s.audio_codec == AudioCodec::Mp3) {
                AudioCodec::Opus
            } else {
                s.audio_codec
            },
            ..s
        }
    }

    pub fn container_changed(&mut self)
        ensures
            *final(self) == Self::container_fixed(*old(self)),
    {
        self.touch_custom();
        if self.container.is_audio_only() {
            self.video_codec = VideoCodec::NoVideo;
        }
        if self.container == ContainerFmt::Webm {
            if self.video_codec == VideoCodec::H264 || self.video_codec == VideoCodec::H265 {
                self.video_codec = VideoCodec::Vp9;
            }
            if self.audio_codec == AudioCodec::Aac || self.audio_codec == AudioCodec::Mp3 {
                self.audio_codec = AudioCodec::Opus;
            }
        }
    }

    pub fn extension(&self) -> (r: &'static str)
        ensures
            r@ == self.container.ext_of(),
    {
        self.container.ext()
    }

    /// The output file name with this container's extension: the input's stem
    /// (`output` where it has none), a dot, and the extension.
    /// The directory part stays with the caller.
    pub fn with_output_ext(&self, stem: Option<&str>) -> (r: String)
        ensures
            r@ == (match stem {
                Some(s) => s@,
                None => "output"@,
            }) + "."@ + self.container.ext_of(),
    {
        let mut r = String::new();
        match stem {
            Some(s) => push_str(&mut r, s),
            None => push_str(&mut r, "output"),
        }
        push_str(&mut r, ".");
        push_str(&mut r, self.extension());
        r
    }

    fn push_summary_video(&self, r: &mut String)
        ensures
            final(r)@ == old(r)@ + summary_video_of(*self),
    {
        let ghost r0 = r@;
        if self.video_codec != VideoCodec::NoVideo {
            push_str(r, " · ");
            push_str(r, self.video_codec.label());
            push_str(r, " · ");
            push_str(r, self.resolution.label());
            push_str(r, " · ");
            let ghost r1 = r@;
            match self.rate_mode {
                VideoRateMode::Crf => {
                    push_str(r, "CRF ");
                    push_dec(r, self.crf as u64);
                },
                VideoRateMode::Bitrate => {
                    push_dec(r, self.video_bitrate_k as u64);
                    push_str(r, "k video");
                },
            }
            assert(r@ =~= r0 + summary_video_of(*self));
        } else {
            push_str(r, " · ");
            push_str(r, "no video");
            assert(r@ =~= r0 + summary_video_of(*self));
        }
    }

    fn push_summary_audio(&self, r: &mut String)
        ensures
            final(r)@ == old(r)@ + summary_audio_of(*self),
    {
        let ghost r0 = r@;
        if self.audio_codec != AudioCodec::NoAudio {
            push_str(r, " · ");
            push_str(r, self.audio_codec.label());
            push_str(r, " ");
            push_dec(r, self.audio_bitrate_k as u64);
            push_str(r, "k");
            assert(r@ =~= r0 + summary_audio_of(*self));
        } else {
            assert(r@ =~= r0 + summary_audio_of(*self));
        }
    }

    pub fn summary(&self) -> (r: String)
        ensures
            r@ == summary_of(*self),
    {
        let mut r = String::new();
        push_str(&mut r, self.container.label());
        self.push_summary_video(&mut r);
        self.push_summary_audio(&mut r);
        assert(r@ =~= summary_of(*self));
        r
    }
}

/// The settings of a preset name that preset, and a preset that writes an audio-only
/// container encodes no video.
pub proof fn law_preset_consistent(p: EncodePreset)
    ensures
        preset_settings(p).preset == p,
        preset_settings(p).container.audio_only() ==> preset_settings(p).video_codec == VideoCodec::NoVideo,
{
}

/// A frame-rate choice is labelled "Source" exactly when it keeps the source rate, and
/// otherwise its label is the decimal digits of its rate.
pub proof fn law_fps_label_is_rate(f: FpsOpt)
    ensures
        (f.label_of() == "Source"@) <==> f.value_of() is None,
        f.value_of() matches Some(v) ==> f.label_of() == dec(v as nat),
{
    reveal_strlit("Source");
    reveal_with_fuel(dec, 2);
    match f {
        FpsOpt::Original => {},
        FpsOpt::F60 => {
            reveal_strlit("60");
            assert(dec(60) =~= "60"@);
        },
        FpsOpt::F30 => {
            reveal_strlit("30");
            assert(dec(30) =~= "30"@);
        },
        FpsOpt::F25 => {
            reveal_strlit("25");
            assert(dec(25) =~= "25"@);
        },
        FpsOpt::F24 => {
            reveal_strlit("24");
            assert(dec(24) =~= "24"@);
        },
        FpsOpt::F15 => {
            reveal_strlit("15");
            assert(dec(15) =~= "15"@);
        },
    }
}

} // verus!

