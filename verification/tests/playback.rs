use kalicut::playback::{
    audio_program_step, can_play, mpv_program_step, release_after_failed_next, still_due, still_step, video_sync,
    AudioStep, ProgramStep, VideoSync,
};

#[test]
fn when_play_can_start() {
    assert!(!can_play(true, true, true, false, true, true));
    assert!(can_play(false, true, true, true, false, false));
    assert!(!can_play(false, true, false, false, true, true));
    assert!(!can_play(false, false, true, true, true, true));
    assert!(can_play(false, false, true, false, true, false));
    assert!(!can_play(false, false, true, false, false, false));
}

#[test]
fn paused_stills() {
    assert!(still_due(None, 0, 60));
    assert!(!still_due(Some(1_000), 1_060, 60));
    assert!(still_due(Some(1_000), 1_061, 60));
    assert!(still_due(Some(1_061), 1_000, 60));
    assert_eq!(still_step(true, true), 80);
    assert_eq!(still_step(false, true), 120);
    assert_eq!(still_step(false, false), 60);
}

#[test]
fn video_follows_the_player() {
    let prog = Some((6_000, 10_000));
    assert_eq!(video_sync(false, true, true, true, false, 0, None, prog, 9_000), VideoSync::Nothing);
    assert_eq!(
        video_sync(true, true, true, true, false, 5_000, None, prog, 9_000),
        VideoSync::MpvPlay { from: 6_000, stop: Some(10_000) }
    );
    assert_eq!(
        video_sync(true, true, true, true, false, 5_000, None, None, 9_000),
        VideoSync::MpvPlay { from: 5_000, stop: Some(9_000) }
    );
    assert_eq!(video_sync(true, true, false, true, false, 5_000, None, prog, 9_000), VideoSync::Nothing);
    assert_eq!(video_sync(true, true, true, false, true, 5_000, None, prog, 9_000), VideoSync::MpvPause);
    assert_eq!(video_sync(true, true, true, false, false, 5_000, Some(4_900), prog, 9_000), VideoSync::MpvSeek(5_000));
    assert_eq!(video_sync(true, true, true, false, false, 5_000, Some(4_950), prog, 9_000), VideoSync::Nothing);
    assert_eq!(video_sync(true, false, true, true, false, 5_000, None, prog, 9_000), VideoSync::StreamFrom(5_000));
    assert_eq!(video_sync(true, false, true, false, true, 5_000, None, prog, 9_000), VideoSync::StreamStop(5_000));
    assert_eq!(video_sync(true, false, true, false, false, 5_000, Some(4_959), prog, 9_000), VideoSync::Still(5_000));
    assert_eq!(video_sync(true, false, true, false, false, 5_000, Some(4_960), prog, 9_000), VideoSync::Nothing);
    assert_eq!(video_sync(true, false, true, true, true, 5_000, None, prog, 9_000), VideoSync::Nothing);
}

#[test]
fn program_play_steps_of_the_embedded_player() {
    let next = Some((5_000, 9_000));
    assert_eq!(mpv_program_step(true, true, true, next, true), ProgramStep::PlayNext { from: 5_000, stop: 9_000 });
    assert_eq!(mpv_program_step(true, true, false, next, true), ProgramStep::PlayNext { from: 5_000, stop: 9_000 });
    assert_eq!(mpv_program_step(true, true, true, None, true), ProgramStep::EndProgram);
    assert_eq!(mpv_program_step(true, false, true, next, true), ProgramStep::EndProgram);
    assert_eq!(mpv_program_step(true, true, false, None, true), ProgramStep::Stay);
    assert_eq!(mpv_program_step(false, true, true, next, true), ProgramStep::Release);
    assert_eq!(mpv_program_step(false, true, true, next, false), ProgramStep::Stay);
    assert_eq!(mpv_program_step(false, true, false, next, true), ProgramStep::Stay);
    assert!(release_after_failed_next(true, true));
    assert!(!release_after_failed_next(false, true));
    assert!(!release_after_failed_next(true, false));
}

#[test]
fn program_play_steps_of_the_audio_player() {
    assert_eq!(audio_program_step(true, Some((1, 2))), AudioStep::PlayNext { from: 1, stop: 2 });
    assert_eq!(audio_program_step(true, None), AudioStep::EndProgram);
    assert_eq!(audio_program_step(false, Some((1, 2))), AudioStep::ShowStill);
}
