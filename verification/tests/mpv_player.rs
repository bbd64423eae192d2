use kalicut::mpv_player::{MpvPlayer, EMBED_H, EMBED_W};
use kalicut::preview_quality::PreviewSize;

#[test]
fn render_size_is_even_and_at_least_two() {
    let mut m = MpvPlayer::new(None);
    assert!(m.is_running());
    assert_eq!((m.render_w, m.render_h), (EMBED_W, EMBED_H));
    assert_eq!(m.render_size_label(), "960×540");
    assert!(m.set_render_size(PreviewSize { w: 1281, h: 1 }));
    assert_eq!((m.render_w, m.render_h), (1280, 2));
    assert!(!m.set_render_size(PreviewSize { w: 1280, h: 3 }));
    assert_eq!(m.render_size_label(), "1280×2");
}

#[test]
fn playback_pauses_at_the_stop_point() {
    let mut m = MpvPlayer::new(None);
    assert!(m.needs_load("/v/a.mp4"));
    m.mark_loaded("/v/a.mp4");
    assert!(!m.needs_load("/v/a.mp4"));
    assert!(m.needs_load("/v/b.mp4"));
    m.set_stop_at(Some(5_000));
    m.mark_paused(false);
    let (st, stopped) = m.poll(4_000, false, false);
    assert!(!stopped);
    assert_eq!((st.time, st.paused, st.eof), (4_000, false, false));
    let (st, stopped) = m.poll(4_970, false, false);
    assert!(stopped);
    assert_eq!((st.time, st.paused, st.eof), (5_000, true, false));
    assert_eq!(m.stop_at, None);
    assert_eq!(m.last_time, 5_000);
    let (_, again) = m.poll(5_000, true, true);
    assert!(!again);
}

#[test]
fn unavailable_player_and_seek_text() {
    let mut m = MpvPlayer::new(Some("libmpv init: missing".to_string()));
    assert!(!m.is_running());
    assert_eq!(m.init_error(), Some("libmpv init: missing"));
    assert_eq!(m.unavailable_error(), "libmpv init: missing");
    assert_eq!(MpvPlayer::new(None).unavailable_error(), "mpv unavailable");
    assert_eq!(MpvPlayer::seek_arg(1_234), "1.234");
    m.mark_seeked(700);
    assert_eq!(m.last_time, 700);
    m.mark_stopped();
    assert!(m.last_paused);
    m.mark_cleared();
    assert_eq!((m.last_time, m.stop_at, m.loaded.is_none()), (0, None, true));
}
