use kalicut::encode_settings::{EncodePreset, ReencodeSettings};
use kalicut::ffmpeg::{
    apply_reencode_args, apply_reencode_settings, concat_args, concat_failure_message, concat_list_body,
    cutting_status, export_problem, ext_is_mp4_family, failure_message, format_ffmpeg_time, part_file_name,
    plan_multi_trim, suggest_output, trim_args, EncodeMode, FfmpegError, KeepSegment, MultiTrimPlan,
    TrimRequest,
};

fn strs(v: &[&str]) -> Vec<String> {
    v.iter().map(|s| s.to_string()).collect()
}

fn request(mode: EncodeMode, start: u64, end: u64, reencode: Option<&ReencodeSettings>) -> TrimRequest<'_> {
    TrimRequest {
        output_ext: Some("mp4"),
        start,
        end,
        mode,
        total_duration: 10_000,
        has_video: true,
        has_audio: true,
        reencode,
    }
}

#[test]
fn stream_copy_cut_arguments() {
    let a = trim_args(&request(EncodeMode::StreamCopy, 1_500, 4_000, None)).unwrap();
    assert_eq!(a.before_input, strs(&["-y", "-hide_banner", "-loglevel", "error", "-ss", "1.500", "-i"]));
    assert_eq!(
        a.after_input,
        strs(&[
            "-t", "2.500", "-map", "0:v?", "-map", "0:a?", "-map", "0:s?", "-map_metadata", "0",
            "-map_chapters", "0", "-c", "copy", "-ignore_unknown", "-avoid_negative_ts", "make_zero",
            "-movflags", "+faststart",
        ])
    );
}

#[test]
fn stream_copy_into_mkv_has_no_faststart() {
    let mut r = request(EncodeMode::StreamCopy, 0, 1_000, None);
    r.output_ext = Some("mkv");
    let a = trim_args(&r).unwrap();
    assert_eq!(a.after_input.last().map(|s| s.as_str()), Some("make_zero"));
    r.output_ext = Some("MOV");
    let b = trim_args(&r).unwrap();
    assert_eq!(b.after_input.last().map(|s| s.as_str()), Some("+faststart"));
}

#[test]
fn reencode_cut_arguments() {
    let s = ReencodeSettings::from_preset(EncodePreset::Web720);
    let a = trim_args(&request(EncodeMode::Reencode, 1_500, 4_000, Some(&s))).unwrap();
    assert_eq!(a.before_input, strs(&["-y", "-hide_banner", "-loglevel", "error", "-i"]));
    assert_eq!(
        a.after_input,
        strs(&[
            "-ss", "1.500", "-t", "2.500", "-map_metadata", "0", "-map", "0:v:0?", "-map", "0:a:0?", "-map",
            "0:s?", "-c:s", "copy", "-vf", "scale=-2:'min(720,ih)':flags=bicubic", "-c:v", "libx264",
            "-preset", "faster", "-pix_fmt", "yuv420p", "-crf", "23", "-c:a", "aac", "-b:a", "128k",
            "-movflags", "+faststart",
        ])
    );
}

#[test]
fn cut_range_refusals() {
    let e = trim_args(&request(EncodeMode::StreamCopy, 4_000, 4_000, None)).unwrap_err();
    assert!(matches!(&e, FfmpegError::InvalidRange(m) if m == "end must be greater than start"));
    assert_eq!(e.message(), "Invalid range: end must be greater than start");
    let e2 = trim_args(&request(EncodeMode::StreamCopy, 10_000, 12_000, None)).unwrap_err();
    assert!(matches!(&e2, FfmpegError::InvalidRange(m) if m == "start is past end of file"));
    let mut r = request(EncodeMode::StreamCopy, 10_000, 12_000, None);
    r.total_duration = 0;
    assert!(trim_args(&r).is_ok());
}

#[test]
fn reencode_settings_for_audio_only_and_mobile() {
    let mut args = Vec::new();
    apply_reencode_settings(&mut args, &ReencodeSettings::from_preset(EncodePreset::AudioMp3), true, true);
    assert_eq!(args, strs(&["-map", "0:a:0?", "-vn", "-c:a", "libmp3lame", "-b:a", "320k"]));
    let mut m = Vec::new();
    apply_reencode_settings(&mut m, &ReencodeSettings::from_preset(EncodePreset::Mobile480), true, false);
    assert_eq!(
        m,
        strs(&[
            "-map", "0:v:0?", "-map", "0:s?", "-c:s", "copy", "-vf", "scale=-2:'min(480,ih)':flags=bicubic,fps=30",
            "-c:v", "libx264", "-preset", "veryfast", "-pix_fmt", "yuv420p", "-crf", "28", "-an", "-movflags",
            "+faststart",
        ])
    );
}

#[test]
fn reencode_defaults_follow_the_source_tracks() {
    let mut args = strs(&["x"]);
    apply_reencode_args(&mut args, "mkv", false, true);
    assert_eq!(args, strs(&["x", "-map", "0:a:0?", "-vn", "-c:a", "aac", "-b:a", "256k", "-movflags", "+faststart"]));
}

#[test]
fn multi_cut_plans() {
    let e = plan_multi_trim(&[]).unwrap_err();
    assert_eq!(e.message(), "Invalid range: no keep ranges — add at least one segment");
    let bad = plan_multi_trim(&[KeepSegment { start: 0, end: 1_000 }, KeepSegment { start: 2_000, end: 2_005 }]);
    assert!(matches!(bad, Err(FfmpegError::InvalidRange(ref m)) if m == "segment #2 invalid (end must be > start)"));
    let one = KeepSegment { start: 0, end: 1_000 };
    assert_eq!(plan_multi_trim(&[one]).unwrap(), MultiTrimPlan::Single(one));
    assert_eq!(
        plan_multi_trim(&[one, KeepSegment { start: 3_000, end: 4_000 }]).unwrap(),
        MultiTrimPlan::Join
    );
}

#[test]
fn keep_segment_length_and_validity() {
    assert_eq!(KeepSegment { start: 1_000, end: 2_500 }.duration(), 1_500);
    assert_eq!(KeepSegment { start: 2_500, end: 1_000 }.duration(), 0);
    assert!(KeepSegment { start: 0, end: 11 }.is_valid());
    assert!(!KeepSegment { start: 0, end: 10 }.is_valid());
}

#[test]
fn concat_list_and_arguments() {
    let body = concat_list_body(&strs(&["/tmp/a b/part_000.mp4", "C:\\x\\it's.mp4"]));
    assert_eq!(body, "file '/tmp/a b/part_000.mp4'\nfile 'C:/x/it'\\''s.mp4'\n");
    let a = concat_args("MP4");
    assert_eq!(a.before_input, strs(&["-y", "-hide_banner", "-loglevel", "error", "-f", "concat", "-safe", "0", "-i"]));
    assert_eq!(a.after_input, strs(&["-c", "copy", "-ignore_unknown", "-movflags", "+faststart"]));
    assert_eq!(concat_args("webm").after_input, strs(&["-c", "copy", "-ignore_unknown"]));
    assert_eq!(part_file_name(7, "mkv"), "part_007.mkv");
    assert_eq!(part_file_name(1234, "ts"), "part_1234.ts");
}

#[test]
fn output_names() {
    assert_eq!(suggest_output(Some("clip"), Some("mov")), "clip_cut.mov");
    assert_eq!(suggest_output(None, None), "output_cut.mp4");
    assert_eq!(suggest_output(Some("a.b"), None), "a.b_cut.mp4");
}

#[test]
fn failure_messages() {
    assert_eq!(failure_message("  boom \n", "out", Some(1)), "boom");
    assert_eq!(failure_message("", " out ", None), "out");
    assert_eq!(failure_message("", " ", Some(-2)), "exit code Some(-2)");
    assert_eq!(failure_message("", "", None), "exit code None");
    assert_eq!(concat_failure_message("", Some(1)), "concat exit Some(1)");
    assert_eq!(concat_failure_message(" bad list\n", Some(1)), "bad list");
    assert_eq!(FfmpegError::NotFound("ffprobe".into()).message(), "ffprobe not found. Install ffmpeg.");
    assert_eq!(FfmpegError::ProbeFailed("x".into()).message(), "Probe failed: x");
    assert_eq!(FfmpegError::TrimFailed("y".into()).message(), "Trim failed: y");
    assert_eq!(FfmpegError::Io("z".into()).message(), "I/O error: z");
}

#[test]
fn times_and_extensions() {
    assert_eq!(format_ffmpeg_time(62_500), "62.500");
    assert_eq!(format_ffmpeg_time(5), "0.005");
    assert!(ext_is_mp4_family("M4V"));
    assert!(!ext_is_mp4_family("mkv"));
    assert_eq!(EncodeMode::StreamCopy.label(), "Stream copy (lossless)");
    assert_eq!(EncodeMode::Reencode.label(), "Re-encode (accurate cuts)");
}

#[test]
fn export_checks_and_status() {
    let one = [KeepSegment { start: 1_500, end: 4_000 }];
    assert_eq!(export_problem(false, "out.mp4", &one), Some("Select a file first."));
    assert_eq!(export_problem(true, "  ", &one), Some("Set an output path."));
    assert_eq!(export_problem(true, "out.mp4", &[]), Some("Nothing to export."));
    assert_eq!(
        export_problem(true, "out.mp4", &[KeepSegment { start: 0, end: 5 }]),
        Some("Nothing to export.")
    );
    assert_eq!(export_problem(true, "out.mp4", &one), None);
    assert_eq!(cutting_status(&one), "Cutting 00:01.500 → 00:04.000 …");
    let two = [KeepSegment { start: 0, end: 4_000 }, KeepSegment { start: 6_000, end: 10_000 }];
    assert_eq!(cutting_status(&two), "Cutting 2 pieces (00:08.000) …");
}
