use kalicut::probe::{
    is_attached_pic, media_info_from_probe, parse_duration, parse_fps, Disposition, ProbeFormat, ProbeJson,
    ProbeStream,
};
use kalicut::ffmpeg::FfmpegError;

fn stream(kind: &str, codec: &str) -> ProbeStream {
    ProbeStream {
        codec_type: Some(kind.to_string()),
        codec_name: Some(codec.to_string()),
        sample_rate: None,
        channels: None,
        duration: None,
        width: None,
        height: None,
        avg_frame_rate: None,
        r_frame_rate: None,
        disposition: None,
    }
}

fn sample_report() -> ProbeJson {
    let mut v = stream("video", "h264");
    v.width = Some(1920);
    v.height = Some(1080);
    v.avg_frame_rate = Some("30000/1001".to_string());
    v.duration = Some("12.300".to_string());
    let mut cover = stream("video", "mjpeg");
    cover.disposition = Some(Disposition { attached_pic: Some(1) });
    let mut a = stream("audio", "aac");
    a.sample_rate = Some("48000".to_string());
    a.channels = Some(2);
    ProbeJson {
        streams: vec![cover, v, a],
        format: Some(ProbeFormat {
            format_name: Some("mov,mp4,m4a".to_string()),
            duration: Some("12.345678".to_string()),
            size: Some("1000".to_string()),
            bit_rate: Some("8000000".to_string()),
        }),
    }
}

#[test]
fn media_info_from_a_report() {
    let m = media_info_from_probe(&sample_report(), "/clips/a.mp4").unwrap();
    assert_eq!(m.path, "/clips/a.mp4");
    assert_eq!(m.duration, 12_346);
    assert_eq!(m.format_name, "mov,mp4,m4a");
    assert_eq!(m.bit_rate, Some(8_000_000));
    assert_eq!(m.size_bytes, Some(1000));
    assert!(m.has_video && m.has_audio);
    assert_eq!(m.video_codec.as_deref(), Some("h264"));
    assert_eq!(m.audio_codec.as_deref(), Some("aac"));
    assert_eq!((m.width, m.height), (Some(1920), Some(1080)));
    assert_eq!(m.fps, Some(29_970));
    assert_eq!(m.sample_rate, Some(48_000));
    assert_eq!(m.channels, Some(2));
    assert_eq!(m.duration_label(), "00:12.346");
    assert_eq!(m.resolution_label(), "1920×1080");
    assert_eq!(m.kind_label(), "video + audio");
    assert_eq!(m.codecs_label(), "V:h264 · A:aac");
    assert_eq!(m.loaded_status(), "Loaded: 00:12.346 · video + audio · V:h264 · A:aac · mov,mp4,m4a");
}

#[test]
fn stream_duration_when_the_format_has_none() {
    let mut r = sample_report();
    r.format = None;
    let m = media_info_from_probe(&r, "b.mkv").unwrap();
    assert_eq!(m.duration, 12_300);
    assert_eq!(m.format_name, "unknown");
    assert_eq!(m.bit_rate, None);
}

#[test]
fn cover_art_alone_is_no_video() {
    let mut cover = stream("video", "png");
    cover.disposition = Some(Disposition { attached_pic: Some(1) });
    assert!(is_attached_pic(&cover));
    assert!(!is_attached_pic(&stream("video", "h264")));
    let only_cover = ProbeJson { streams: vec![cover], format: None };
    let e = media_info_from_probe(&only_cover, "c.mp3").unwrap_err();
    assert!(matches!(&e, FfmpegError::ProbeFailed(m) if m == "No video or audio stream in file"));
    let audio_only = ProbeJson { streams: vec![stream("audio", "mp3")], format: None };
    let m = media_info_from_probe(&audio_only, "d.mp3").unwrap();
    assert_eq!(m.kind_label(), "audio only");
    assert_eq!(m.codecs_label(), "A:mp3");
    assert_eq!(m.resolution_label(), "—");
    assert_eq!(m.duration, 0);
}

#[test]
fn durations_and_rates() {
    assert_eq!(parse_duration(&Some("1.5".to_string())), Some(1_500));
    assert_eq!(parse_duration(&Some("-3".to_string())), Some(-3_000));
    assert_eq!(parse_duration(&Some("-0.0015".to_string())), Some(-2));
    assert_eq!(parse_duration(&Some("N/A".to_string())), None);
    assert_eq!(parse_duration(&Some("1.2e1".to_string())), Some(12_000));
    assert_eq!(parse_duration(&None), None);
    let mut s = stream("video", "h264");
    s.avg_frame_rate = Some("0/0".to_string());
    s.r_frame_rate = Some("25/1".to_string());
    assert_eq!(parse_fps(&s), Some(25_000));
    s.avg_frame_rate = Some("24000/1001".to_string());
    assert_eq!(parse_fps(&s), Some(23_976));
    s.avg_frame_rate = Some("1/0".to_string());
    assert_eq!(parse_fps(&s), None);
    s.avg_frame_rate = None;
    s.r_frame_rate = None;
    assert_eq!(parse_fps(&s), None);
}

#[test]
fn negative_values_are_kept() {
    let mut s = stream("video", "h264");
    s.avg_frame_rate = Some("-25/1".to_string());
    assert_eq!(parse_fps(&s), Some(-25_000));
    s.avg_frame_rate = Some("30000/-1001".to_string());
    assert_eq!(parse_fps(&s), Some(-29_970));
    let mut r = sample_report();
    r.format.as_mut().unwrap().duration = Some("-2.5".to_string());
    let m = media_info_from_probe(&r, "e.mp4").unwrap();
    assert_eq!(m.duration, -2_500);
    assert_eq!(m.duration_label(), "00:00.000");
}
