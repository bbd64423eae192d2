use kalicut::preview_quality::{even, fit_even, is_heavy_codec, resolve_preview_size, PreviewMode, PreviewSize};

fn size(w: u32, h: u32) -> PreviewSize {
    PreviewSize { w, h }
}

#[test]
fn fitting_keeps_even_sides_within_the_long_edge() {
    assert_eq!(fit_even(3840, 2160, 1280), size(1280, 720));
    assert_eq!(fit_even(1000, 500, 1920), size(1000, 500));
    assert_eq!(fit_even(1001, 3, 100), size(100, 2));
    assert_eq!(fit_even(1081, 1921, 1280), size(720, 1280));
    assert_eq!(even(7), 6);
    assert_eq!(even(8), 8);
}

#[test]
fn preview_sizes_by_mode() {
    assert_eq!(resolve_preview_size(PreviewMode::Auto, Some(3840), Some(2160), Some("hevc"), None, 8), size(1280, 720));
    assert_eq!(resolve_preview_size(PreviewMode::Auto, Some(3840), Some(2160), Some("hevc"), None, 4), size(854, 480));
    assert_eq!(resolve_preview_size(PreviewMode::Speed, Some(1280), Some(720), Some("h264"), None, 4), size(854, 480));
    assert_eq!(resolve_preview_size(PreviewMode::Quality, Some(1280), Some(720), Some("h264"), None, 4), size(1280, 720));
    assert_eq!(resolve_preview_size(PreviewMode::Auto, None, None, None, None, 8), size(1920, 1080));
    assert_eq!(resolve_preview_size(PreviewMode::Auto, Some(640), Some(360), None, None, 8), size(640, 360));
}

#[test]
fn preview_labels_and_codecs() {
    assert_eq!(PreviewMode::all(), &[PreviewMode::Auto, PreviewMode::Quality, PreviewMode::Speed]);
    assert_eq!(PreviewMode::default(), PreviewMode::Auto);
    assert_eq!(PreviewMode::Speed.label(), "Speed");
    assert_eq!(PreviewMode::Quality.hint(), "sharper preview (heavier load)");
    assert_eq!(size(1280, 720).label(), "1280×720");
    assert!(is_heavy_codec("HEVC"));
    assert!(is_heavy_codec("libdav1d-av1"));
    assert!(!is_heavy_codec("h264"));
}
