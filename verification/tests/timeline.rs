use kalicut::time_edit::{clamp_edited, max_minutes, TimeParts};
use kalicut::ffmpeg::KeepSegment;
use kalicut::timeline::{clip_at, format_tc, nice_time_step, short_label};

#[test]
fn clip_labels() {
    assert_eq!(short_label("/home/u/Videos/holiday.mp4"), "holiday.mp4");
    assert_eq!(short_label("C:\\clips\\a.mkv "), "a.mkv");
    assert_eq!(short_label("   "), "Clip");
    assert_eq!(short_label("abcdefghijklmnopqrstuvwxyz0123.mp4"), "abcdefghijklmnopqrstuvwxy…");
    assert_eq!(short_label("abcdefghijklmnopqrstuvwx.mp4"), "abcdefghijklmnopqrstuvwx.mp4");
}

#[test]
fn ruler_labels_and_steps() {
    assert_eq!(format_tc(0), "0:00");
    assert_eq!(format_tc(65_999), "1:05");
    assert_eq!(format_tc(3_723_000), "1:02:03");
    assert_eq!(nice_time_step(1), 100);
    assert_eq!(nice_time_step(1_001), 2_000);
    assert_eq!(nice_time_step(15_000), 15_000);
    assert_eq!(nice_time_step(10_000_000), 600_000);
}

#[test]
fn time_fields() {
    let p = TimeParts::from_millis(3_723_120);
    assert_eq!(p, TimeParts { mins: 62, secs: 3, ms: 120 });
    assert_eq!(p.to_millis(), 3_723_120);
    assert_eq!(TimeParts::default().to_millis(), 0);
    assert_eq!(clamp_edited(5_000, 4_000), 4_000);
    assert_eq!(clamp_edited(5_000, 0), 5_000);
    assert_eq!(max_minutes(0), 9999);
    assert_eq!(max_minutes(61_000), 3);
}

#[test]
fn a_click_selects_the_piece_under_it() {
    let c = [KeepSegment { start: 0, end: 4_000 }, KeepSegment { start: 4_000, end: 6_000 }, KeepSegment { start: 8_000, end: 9_000 }];
    assert_eq!(clip_at(&c, 0), Some(0));
    assert_eq!(clip_at(&c, 4_000), Some(0));
    assert_eq!(clip_at(&c, 4_001), Some(1));
    assert_eq!(clip_at(&c, 7_000), None);
    assert_eq!(clip_at(&c, 9_000), Some(2));
    assert_eq!(clip_at(&[], 10), None);
}
