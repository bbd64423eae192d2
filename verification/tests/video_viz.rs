use kalicut::preview_quality::PreviewSize;
use kalicut::video_viz::{
    caught_up, clamp_stream_rate, still_frame, frame_time, free_run_wait, hw_label, master_pace, preview_label, read_exact_step, still_args,
    still_retry_opts, stream_args, DecodeOpts, Pace, ReadOutcome, ReadStep, SharedFrame, StreamCmd, StreamProfile,
    VideoStream, RGBA_BYTES, RGB_BYTES,
};

fn opts(fps: u64, use_vaapi: bool, heavy: bool) -> DecodeOpts {
    DecodeOpts {
        fps,
        use_vaapi,
        vaapi_device: Some("/dev/dri/renderD128".to_string()),
        audio_master: true,
        heavy,
    }
}

#[test]
fn stream_profiles() {
    let uhd = StreamProfile::from_media(Some(3840), Some(2160), Some("hevc"), Some(30_000), None);
    assert_eq!((uhd.fps, uhd.prefer_hw, uhd.heavy), (12_000, true, true));
    assert_eq!(uhd.label, "live 3840×2160 HEVC → 270p@12 VAAPI/CPU");
    let br = StreamProfile::from_media(Some(1280), Some(720), Some("h264"), None, Some(30_000_000));
    assert_eq!((br.fps, br.heavy), (15_000, true));
    assert_eq!(br.label, "live 1280×720 h264 → 270p@15 VAAPI/CPU");
    let fhd = StreamProfile::from_media(Some(1920), Some(1080), Some("h264"), Some(25_000), None);
    assert_eq!((fhd.fps, fhd.prefer_hw, fhd.heavy), (20_000, true, false));
    assert_eq!(fhd.label, "live 480×270@20");
    let hd = StreamProfile::from_media(Some(1280), Some(720), Some("h264"), Some(23_976), None);
    assert_eq!((hd.fps, hd.prefer_hw), (23_976, false));
    assert_eq!(hd.label, "live @24");
    let fast = StreamProfile::from_media(Some(640), Some(360), None, Some(60_000), None);
    assert_eq!(fast.fps, 24_000);
    let unknown = StreamProfile::from_media(None, None, None, Some(500), None);
    assert_eq!((unknown.fps, unknown.label.as_str()), (24_000, "live @24"));
    let d = StreamProfile::default_profile();
    assert_eq!((d.fps, d.label.as_str()), (24_000, "live"));
    assert_eq!(hw_label(true, true), "VAAPI");
    assert_eq!(hw_label(true, false), "CPU");
}

#[test]
fn live_stream_arguments() {
    let a = stream_args(1_500, &opts(24_000, false, false));
    assert_eq!(
        a.before_input,
        vec![
            "-hide_banner", "-loglevel", "error", "-fflags", "nobuffer+discardcorrupt+fastseek", "-flags",
            "low_delay", "-probesize", "32k", "-analyzeduration", "0", "-ss", "1.500", "-i",
        ]
    );
    assert_eq!(
        a.after_input,
        vec![
            "-an", "-sn", "-dn", "-threads", "0", "-vf",
            "fps=24.000:round=down,scale=480:270:flags=fast_bilinear:force_original_aspect_ratio=decrease,pad=480:270:(ow-iw)/2:(oh-ih)/2,format=rgb24",
            "-f", "rawvideo", "-pix_fmt", "rgb24", "-",
        ]
    );
    let h = stream_args(0, &opts(60_000, true, true));
    assert_eq!(&h.before_input[11..15], &["-hwaccel", "vaapi", "-hwaccel_device", "/dev/dri/renderD128"]);
    assert!(h.after_input[6].starts_with("fps=30.000:round=down,scale=480:270:flags=neighbor:"));
}

#[test]
fn still_frame_arguments() {
    let a = still_args(2_000, &opts(24_000, false, true), false);
    assert_eq!(
        a.before_input,
        vec!["-hide_banner", "-loglevel", "error", "-skip_frame", "nokey", "-ss", "2.000", "-i"]
    );
    let b = still_args(2_000, &opts(24_000, false, true), true);
    assert_eq!(b.before_input, vec!["-hide_banner", "-loglevel", "error", "-ss", "2.000", "-i"]);
    assert_eq!(b.after_input[0..4], ["-frames:v", "1", "-an", "-vf"]);
    let retry = still_retry_opts(&opts(24_000, true, true)).unwrap();
    assert!(!retry.use_vaapi && !retry.heavy);
    assert!(still_retry_opts(&opts(24_000, false, false)).is_none());
}

#[test]
fn shared_frame_generations() {
    let mut f = SharedFrame::new();
    assert_eq!((f.gen(), f.time()), (0, None));
    let mut out = vec![7u8; RGBA_BYTES + 2];
    assert!(!f.copy_rgba_into(&mut out));
    assert!(out.iter().all(|b| *b == 7));
    f.store_rgb(40, &[1, 2, 3]);
    assert_eq!(f.gen(), 0);
    let mut rgb = vec![0u8; RGB_BYTES];
    rgb[0] = 10;
    rgb[1] = 20;
    rgb[2] = 30;
    rgb[3] = 40;
    f.store_rgb(1_250, &rgb);
    assert_eq!((f.gen(), f.time()), (1, Some(1_250)));
    assert!(f.copy_rgba_into(&mut out));
    assert_eq!(&out[0..8], &[10, 20, 30, 255, 40, 0, 0, 255]);
    assert_eq!(&out[RGBA_BYTES..], &[7, 7]);
    let mut short = vec![0u8; 4];
    assert!(!f.copy_rgba_into(&mut short));
}

#[test]
fn stream_control() {
    let mut v = VideoStream::new(None);
    assert!(v.play_from(1_000).is_none());
    assert!(v.show_still(0, true).is_empty());
    let p = StreamProfile::from_media(Some(1920), Some(1080), Some("h264"), None, None);
    v.set_source(p, true);
    assert_eq!(v.profile_label(), "live 480×270@20");
    assert_eq!(v.hw_label(), "CPU");
    match v.play_from(1_000) {
        Some(StreamCmd::Start { from, opts }) => {
            assert_eq!(from, 1_000);
            assert_eq!(opts.fps, 20_000);
            assert!(opts.audio_master && !opts.use_vaapi);
        },
        _ => panic!("expected a start"),
    }
    assert!(v.has_realtime_stream());
    let c = v.show_still(1_000, false);
    assert_eq!(c.len(), 2);
    assert!(matches!(c[0], StreamCmd::Stop));
    assert!(matches!(c[1], StreamCmd::Still { at: 1_000, .. }));
    assert!(!v.streaming);
    assert!(v.show_still(1_030, false).is_empty());
    assert_eq!(v.show_still(1_060, false).len(), 1);
    assert_eq!(v.show_still(1_060, true).len(), 1);
    assert!(matches!(v.clear(), StreamCmd::Stop));
    assert!(!v.has_source);
    assert_eq!(v.profile_label(), "live");
}

#[test]
fn texture_uploads_are_rate_limited() {
    let mut v = VideoStream::new(Some("/dev/dri/renderD128".to_string()));
    assert!(!v.upload_due(0, 100, false));
    assert!(v.upload_due(1, 100, true));
    v.mark_uploaded(1, 100);
    assert!(!v.upload_due(1, 500, true));
    // 24 fps: one upload per 41 ms
    assert!(!v.upload_due(2, 140, true));
    assert!(v.upload_due(2, 141, true));
    assert!(v.upload_due(2, 101, false));
}

#[test]
fn worker_pacing() {
    assert_eq!(frame_time(1_000, 48, 24_000), 3_000);
    assert_eq!(frame_time(0, 1, 30_000), 33);
    assert_eq!(frame_time(u64::MAX - 1, 10, 8_000), u64::MAX);
    assert!(matches!(master_pace(1_000, 2_000, 24_000), Pace::CatchUp));
    assert!(matches!(master_pace(1_200, 1_000, 24_000), Pace::Wait(35)));
    assert!(matches!(master_pace(1_090, 1_000, 24_000), Pace::Wait(35)));
    assert!(matches!(master_pace(1_083, 1_000, 24_000), Pace::Show));
    assert!(matches!(master_pace(1_000, 1_000, 24_000), Pace::Show));
    assert!(matches!(master_pace(1_000, 1_062, 24_000), Pace::Show));
    assert!(matches!(master_pace(1_000, 1_063, 24_000), Pace::CatchUp));
    assert!(caught_up(1_000, 1_016, 24_000));
    assert!(!caught_up(1_000, 1_017, 24_000));
    assert_eq!(free_run_wait(25, 24_000, 500), 500);
    assert_eq!(free_run_wait(25, 24_000, 1_500), 0);
    assert_eq!(free_run_wait(1, 24_000, 0), 0);
}

#[test]
fn reading_whole_frames() {
    assert!(matches!(read_exact_step(0, 10, ReadOutcome::Data(4)), ReadStep::More(4)));
    assert!(matches!(read_exact_step(4, 10, ReadOutcome::Data(6)), ReadStep::Full));
    assert!(matches!(read_exact_step(4, 10, ReadOutcome::Data(0)), ReadStep::Eof));
    assert!(matches!(read_exact_step(4, 10, ReadOutcome::Interrupted), ReadStep::More(4)));
    assert!(matches!(read_exact_step(4, 10, ReadOutcome::Failed), ReadStep::Fail));
}

#[test]
fn preview_labels() {
    assert_eq!(preview_label("live @24", PreviewSize { w: 854, h: 480 }), "live @24 · preview 854×480");
    assert_eq!(preview_label("a · b · c", PreviewSize { w: 2, h: 2 }), "a · preview 2×2");
}

#[test]
fn still_output_and_stream_rate() {
    let mut bytes = vec![9u8; RGB_BYTES + 5];
    bytes[0] = 1;
    let f = still_frame(true, &bytes).unwrap();
    assert_eq!(f.len(), RGB_BYTES);
    assert_eq!((f[0], f[RGB_BYTES - 1]), (1, 9));
    assert!(still_frame(false, &bytes).is_none());
    assert!(still_frame(true, &bytes[..RGB_BYTES - 1]).is_none());
    assert_eq!(clamp_stream_rate(60_000), 30_000);
    assert_eq!(clamp_stream_rate(1_000), 8_000);
    assert_eq!(clamp_stream_rate(23_976), 23_976);
}
