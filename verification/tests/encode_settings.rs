use kalicut::encode_settings::{
    AudioCodec, ContainerFmt, EncodePreset, EncodeSpeed, FpsOpt, ReencodeSettings, ResolutionOpt, VideoCodec,
    VideoRateMode,
};

#[test]
fn menus_list_every_choice_in_order() {
    assert_eq!(EncodePreset::all().len(), 7);
    assert_eq!(EncodePreset::all()[0], EncodePreset::HighQuality);
    assert_eq!(EncodePreset::all()[6], EncodePreset::Custom);
    assert_eq!(ContainerFmt::all().len(), 9);
    assert_eq!(VideoCodec::all(), &[VideoCodec::H264, VideoCodec::H265, VideoCodec::Vp9, VideoCodec::NoVideo]);
    assert_eq!(AudioCodec::all().len(), 7);
    assert_eq!(ResolutionOpt::all().len(), 8);
    assert_eq!(FpsOpt::all().len(), 6);
    assert_eq!(EncodeSpeed::all().len(), 6);
}

#[test]
fn labels_and_values() {
    assert_eq!(EncodePreset::Web720.label(), "Web 720p");
    assert_eq!(EncodePreset::AudioMp3.hint(), "drop video, MP3 320k");
    assert_eq!(ContainerFmt::Webm.label(), "WebM");
    assert_eq!(ContainerFmt::M4a.ext(), "m4a");
    assert!(ContainerFmt::Flac.is_audio_only());
    assert!(!ContainerFmt::Mov.is_audio_only());
    assert_eq!(VideoCodec::H265.label(), "H.265 / HEVC");
    assert_eq!(AudioCodec::Pcm.label(), "PCM (WAV)");
    assert_eq!(ResolutionOpt::P2160.label(), "2160p (4K)");
    assert_eq!(ResolutionOpt::P720.max_height(), Some(720));
    assert_eq!(ResolutionOpt::Custom.max_height(), None);
    assert_eq!(VideoRateMode::Crf.label(), "CRF (quality)");
    assert_eq!(FpsOpt::F25.label(), "25");
    assert_eq!(FpsOpt::F30.value(), Some(30));
    assert_eq!(FpsOpt::Original.value(), None);
    assert_eq!(EncodeSpeed::Veryfast.label(), "veryfast");
    assert_eq!(EncodeSpeed::Slow.ffmpeg(), "slow");
}

#[test]
fn presets_set_their_fields() {
    let d = ReencodeSettings::default();
    assert_eq!(d, ReencodeSettings::from_preset(EncodePreset::HighQuality));
    assert_eq!((d.crf, d.audio_bitrate_k, d.speed), (18, 256, EncodeSpeed::Medium));
    let m = ReencodeSettings::from_preset(EncodePreset::Mobile480);
    assert_eq!(m.preset, EncodePreset::Mobile480);
    assert_eq!((m.crf, m.resolution, m.fps, m.audio_bitrate_k), (28, ResolutionOpt::P480, FpsOpt::F30, 96));
    assert_eq!(m.speed, EncodeSpeed::Veryfast);
    let w = ReencodeSettings::from_preset(EncodePreset::Web720);
    assert_eq!((w.resolution, w.crf, w.speed), (ResolutionOpt::P720, 23, EncodeSpeed::Faster));
    let a = ReencodeSettings::from_preset(EncodePreset::AudioAac);
    assert_eq!((a.container, a.video_codec, a.audio_codec), (ContainerFmt::M4a, VideoCodec::NoVideo, AudioCodec::Aac));
    for p in EncodePreset::all() {
        let s = ReencodeSettings::from_preset(*p);
        assert_eq!(s.preset, *p);
        if s.container.is_audio_only() {
            assert_eq!(s.video_codec, VideoCodec::NoVideo);
        }
    }
}

#[test]
fn custom_edits_keep_the_rest() {
    let mut s = ReencodeSettings::from_preset(EncodePreset::Balanced);
    let before = s;
    s.touch_custom();
    assert_eq!(s.preset, EncodePreset::Custom);
    assert_eq!(s.crf, before.crf);
    assert_eq!(s.resolution, before.resolution);
    s.apply_preset(EncodePreset::Web720);
    assert_eq!(s, ReencodeSettings::from_preset(EncodePreset::Web720));
}

#[test]
fn output_extension_follows_the_container() {
    let s = ReencodeSettings::from_preset(EncodePreset::AudioMp3);
    assert_eq!(s.extension(), "mp3");
    assert_eq!(s.with_output_ext(Some("clip_cut")), "clip_cut.mp3");
    assert_eq!(s.with_output_ext(None), "output.mp3");
}

#[test]
fn one_line_summaries() {
    assert_eq!(ReencodeSettings::from_preset(EncodePreset::Web720).summary(), "MP4 · H.264 · 720p · CRF 23 · AAC 128k");
    assert_eq!(ReencodeSettings::from_preset(EncodePreset::AudioMp3).summary(), "MP3 · no video · MP3 320k");
    let mut s = ReencodeSettings::from_preset(EncodePreset::HighQuality);
    s.rate_mode = VideoRateMode::Bitrate;
    s.video_bitrate_k = 2500;
    s.audio_codec = AudioCodec::NoAudio;
    assert_eq!(s.summary(), "MP4 · H.264 · Source · 2500k video");
}

#[test]
fn changing_the_container_keeps_codecs_usable() {
    let mut s = ReencodeSettings::from_preset(EncodePreset::HighQuality);
    s.container = ContainerFmt::Webm;
    s.container_changed();
    assert_eq!(s.preset, EncodePreset::Custom);
    assert_eq!((s.video_codec, s.audio_codec), (VideoCodec::Vp9, AudioCodec::Opus));
    s.container = ContainerFmt::Flac;
    s.audio_codec = AudioCodec::Flac;
    s.container_changed();
    assert_eq!((s.video_codec, s.audio_codec), (VideoCodec::NoVideo, AudioCodec::Flac));
    let mut m = ReencodeSettings::from_preset(EncodePreset::Balanced);
    m.container = ContainerFmt::Mkv;
    m.container_changed();
    assert_eq!((m.video_codec, m.audio_codec, m.resolution), (VideoCodec::H264, AudioCodec::Aac, ResolutionOpt::P1080));
}

#[test]
fn fps_label_is_source_or_the_rate() {
    for f in FpsOpt::all() {
        match f.value() {
            None => assert_eq!(f.label(), "Source"),
            Some(v) => {
                assert_ne!(f.label(), "Source");
                assert_eq!(f.label(), v.to_string());
            }
        }
    }
}
