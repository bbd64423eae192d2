use kalicut::player::{
    decode_failure_message, decoded_from_pcm, pcm_args, samples_from_le, DecodedAudio, PlayerState, Start,
};

fn one_second() -> DecodedAudio {
    let bytes = vec![0u8; 44_100 * 2 * 2];
    decoded_from_pcm(&bytes).unwrap()
}

#[test]
fn pcm_bytes_become_samples() {
    assert_eq!(samples_from_le(&[0x01, 0x00, 0xFF, 0xFF, 0x00, 0x80, 0x07]), vec![1, -1, -32768]);
    assert_eq!(samples_from_le(&[0xFF, 0x7F]), vec![32767]);
    assert!(matches!(decoded_from_pcm(&[1, 2, 3]), Err(ref e) if e == "empty audio stream"));
    let d = one_second();
    assert_eq!((d.sample_rate, d.channels, d.duration), (44_100, 2, 1_000));
    assert_eq!(d.samples.len(), 88_200);
    assert_eq!(d.sample_count_frames(), 44_100);
}

#[test]
fn frame_positions() {
    let d = one_second();
    assert_eq!(d.frame_at(0), 0);
    assert_eq!(d.frame_at(500), 22_050);
    assert_eq!(d.frame_at(10_000), 44_099);
    let silent = DecodedAudio { sample_rate: 44_100, channels: 0, samples: vec![1, 2], duration: 0 };
    assert_eq!(silent.sample_count_frames(), 0);
    assert_eq!(silent.frame_at(100), 0);
}

#[test]
fn decode_arguments_and_errors() {
    let a = pcm_args();
    assert_eq!(a.before_input, vec!["-hide_banner", "-loglevel", "error", "-i"]);
    assert_eq!(a.after_input, vec!["-f", "s16le", "-acodec", "pcm_s16le", "-ac", "2", "-ar", "44100", "-vn", "-"]);
    assert_eq!(decode_failure_message("  "), "ffmpeg could not decode file for playback");
    assert_eq!(decode_failure_message(" No such file\n"), "ffmpeg: No such file");
}

#[test]
fn playing_a_selection_stops_at_its_end() {
    let mut p = PlayerState::new(None);
    assert!(p.init_error().is_none());
    let e = p.set_decoded(Some(one_second()));
    assert!(!e.stop_sink);
    assert_eq!(p.duration(), 1_000);
    assert!(p.has_audio());
    let e = p.play(None);
    assert!(matches!(e.start, Start::Sink { start_sample: 0, max_ms: None }));
    assert!(p.is_playing());
    let e = p.tick(400, false);
    assert!(!e.stop_sink);
    assert_eq!(p.playhead(), 400);
    let e = p.pause(450);
    assert!(e.stop_sink);
    assert_eq!(p.playhead(), 450);
    assert!(!p.is_playing());
    let e = p.play_selection(200, 300);
    assert!(matches!(e.start, Start::Sink { start_sample: 17_640, max_ms: Some(100) }));
    assert_eq!(p.playhead(), 200);
    let e = p.tick(97, false);
    assert!(e.stop_sink);
    assert_eq!(p.playhead(), 300);
    assert!(!p.is_playing());
    // not playing: a tick changes nothing
    let e = p.tick(5_000, true);
    assert!(!e.stop_sink);
    assert_eq!(p.playhead(), 300);
}

#[test]
fn playback_ends_at_the_end_of_the_media() {
    let mut p = PlayerState::new(None);
    p.set_decoded(Some(one_second()));
    p.set_playhead(900);
    p.play(None);
    let e = p.tick(95, false);
    assert!(e.stop_sink);
    assert_eq!(p.playhead(), 1_000);
    assert!(!p.is_playing());
}

#[test]
fn without_output_a_wall_clock_runs() {
    let mut p = PlayerState::new(Some("no device"));
    assert_eq!(p.init_error(), Some("audio output: no device"));
    p.set_decoded(Some(one_second()));
    let e = p.play(Some(800));
    assert!(matches!(e.start, Start::Wall));
    p.tick(300, true);
    assert_eq!(p.playhead(), 300);
    assert!(p.is_playing());
    p.tick(796, true);
    assert_eq!(p.playhead(), 800);
    assert!(!p.is_playing());
}

#[test]
fn video_only_follows_the_frames() {
    let mut p = PlayerState::new(None);
    p.set_media_duration(5_000);
    assert_eq!(p.duration(), 5_000);
    let e = p.play(None);
    assert!(matches!(e.start, Start::Nothing));
    assert!(p.is_playing() && p.video_clock);
    p.set_playhead_live(7_000);
    assert_eq!(p.playhead(), 5_000);
    p.set_playhead_live(1_200);
    p.tick(10, false);
    assert_eq!(p.playhead(), 1_200);
    p.stop();
    assert!(!p.is_playing());
}

#[test]
fn a_failed_sink_falls_back_to_the_video_clock() {
    let mut p = PlayerState::new(None);
    p.set_decoded(Some(one_second()));
    p.play(None);
    assert!(p.sink);
    p.sink_failed();
    assert!(!p.sink && p.video_clock && p.is_playing());
    let e = p.mark_external(false);
    assert!(!e.stop_sink);
    assert!(!p.is_playing() && !p.video_clock);
}

#[test]
fn sound_running_out_stops_playback() {
    let mut p = PlayerState::new(None);
    p.set_decoded(Some(one_second()));
    p.play(None);
    let e = p.tick(100, true);
    assert!(e.stop_sink);
    assert!(!p.is_playing());
    assert_eq!(p.playhead(), 100);
}

#[test]
fn seeking_while_playing_restarts_there() {
    let mut p = PlayerState::new(None);
    p.set_decoded(Some(one_second()));
    p.play(Some(900));
    let e = p.set_playhead(500);
    assert!(e.stop_sink);
    assert!(matches!(e.start, Start::Sink { start_sample: 44_100, max_ms: Some(400) }));
    assert_eq!(p.playhead(), 500);
    assert!(p.is_playing());
}
