//! Decisions of the transport: whether play can start, when the paused preview needs a
//! new still, and what the video does when the player starts or stops. Times are whole
//! milliseconds.

use vstd::prelude::*;

verus! {

/// Play can start: never while a job runs; with the embedded player once a file is
/// open; otherwise not while the audio decodes, and only with sound or video.
pub open spec fn can_play_of(
    busy: bool,
    use_mpv: bool,
    has_input: bool,
    decoding: bool,
    has_audio: bool,
    has_video: bool,
) -> bool {
    if busy {
        false
    } else if use_mpv {
        has_input
    } else if decoding {
        false
    } else {
        has_audio || has_video
    }
}

pub fn can_play(
    busy: bool,
    use_mpv: bool,
    has_input: bool,
    decoding: bool,
    has_audio: bool,
    has_video: bool,
) -> (r: bool)
    ensures
        r == can_play_of(busy, use_mpv, has_input, decoding, has_audio, has_video),
{
    if busy {
        false
    } else if use_mpv {
        has_input
    } else if decoding {
        false
    } else {
        has_audio || has_video
    }
}

/// The playhead `ph` is more than `min_ms` away from the last still (or there was none).
pub open spec fn still_due_of(last: Option<u64>, ph: u64, min_ms: u64) -> bool {
    match last {
        Some(l) => (if l >= ph { l - ph } else { ph - l }) > min_ms,
        None => true,
    }
}

pub fn still_due(last: Option<u64>, ph: u64, min_ms: u64) -> (r: bool)
    ensures
        r == still_due_of(last, ph, min_ms),
{
    match last {
        Some(l) => (if l >= ph { l - ph } else { ph - l }) > min_ms,
        None => true,
    }
}

/// How far the paused playhead moves before the preview shows it again: 80 ms with the
/// embedded player, 120 ms for a heavy ffmpeg preview, 60 ms otherwise.
pub fn still_step(use_mpv: bool, heavy: bool) -> (r: u64)
    ensures
        r == if use_mpv { 80u64 } else if heavy { 120u64 } else { 60u64 },
{
    if use_mpv { 80 } else if heavy { 120 } else { 60 }
}

/// What the video does after the player was started or stopped.
#[derive(Debug, Clone, Copy, PartialEq, Eq, Structural)]
pub enum VideoSync {
    Nothing,
    /// The embedded player plays `from`, up to `stop`.
    MpvPlay { from: u64, stop: Option<u64> },
    /// The embedded player pauses.
    MpvPause,
    /// The embedded player shows the frame at this time.
    MpvSeek(u64),
    /// The ffmpeg preview streams from this time.
    StreamFrom(u64),
    /// The ffmpeg stream stops and shows the still at this time.
    StreamStop(u64),
    /// The ffmpeg preview shows the still at this time.
    Still(u64),
}

/// The video's move when the player went from `was_playing` to `playing` at `ph`:
/// playback starts the program range from `ph` (`program`; else from `ph` to the range
/// end) in the embedded player, or the live stream; a stop pauses or stops them; while
/// paused, a still is shown when the playhead moved more than 50 ms (embedded player)
/// or 40 ms (ffmpeg preview) since the last one.
pub open spec fn video_sync_of(
    has_video: bool,
    use_mpv: bool,
    has_input: bool,
    playing: bool,
    was_playing: bool,
    ph: u64,
    last_still: Option<u64>,
    program: Option<(u64, u64)>,
    range_end: u64,
) -> VideoSync {
    if !has_video {
        VideoSync::Nothing
    } else if use_mpv {
        if !has_input {
            VideoSync::Nothing
        } else if playing && !was_playing {
            match program {
                Some((a, b)) => VideoSync::MpvPlay { from: a, stop: Some(b) },
                None => VideoSync::MpvPlay { from: ph, stop: Some(range_end) },
            }
        } else if !playing && was_playing {
            VideoSync::MpvPause
        } else if !playing && still_due_of(last_still, ph, 50) {
            VideoSync::MpvSeek(ph)
        } else {
            VideoSync::Nothing
        }
    } else if playing && !was_playing {
        VideoSync::StreamFrom(ph)
    } else if !playing && was_playing {
        VideoSync::StreamStop(ph)
    } else if !playing && still_due_of(last_still, ph, 40) {
        VideoSync::Still(ph)
    } else {
        VideoSync::Nothing
    }
}

pub fn video_sync(
    has_video: bool,
    use_mpv: bool,
    has_input: bool,
    playing: bool,
    was_playing: bool,
    ph: u64,
    last_still: Option<u64>,
    program: Option<(u64, u64)>,
    range_end: u64,
) -> (r: VideoSync)
    ensures
        r == video_sync_of(has_video, use_mpv, has_input, playing, was_playing, ph, last_still, program, range_end),
{
    if !has_video {
        VideoSync::Nothing
    } else if use_mpv {
        if !has_input {
            VideoSync::Nothing
        } else if playing && !was_playing {
            match program {
                Some((a, b)) => VideoSync::MpvPlay { from: a, stop: Some(b) },
                None => VideoSync::MpvPlay { from: ph, stop: Some(range_end) },
            }
        } else if !playing && was_playing {
            VideoSync::MpvPause
        } else if !playing && still_due(last_still, ph, 50) {
            VideoSync::MpvSeek(ph)
        } else {
            VideoSync::Nothing
        }
    } else if playing && !was_playing {
        VideoSync::StreamFrom(ph)
    } else if !playing && was_playing {
        VideoSync::StreamStop(ph)
    } else if !playing && still_due(last_still, ph, 40) {
        VideoSync::Still(ph)
    } else {
        VideoSync::Nothing
    }
}

/// What program play does when the embedded player reports a position.
#[derive(Debug, Clone, Copy, PartialEq, Eq, Structural)]
pub enum ProgramStep {
    /// Nothing beyond the playhead update.
    Stay,
    /// Start the next piece: play from `from` and stop at `stop`.
    PlayNext { from: u64, stop: u64 },
    /// Program play ran out of pieces: it ends, and the player's clock is its own again.
    EndProgram,
    /// The player stopped outside program play: its clock is its own again.
    Release,
}

/// The step of program play on a report of the embedded player: `stopped` when it is
/// paused or at its end, `next` the next piece after the reported time (for an open
/// file), `playing` whether the transport plays. While it runs, the next piece is queued
/// as soon as there is one.
pub open spec fn mpv_program_step_of(
    program_play: bool,
    has_input: bool,
    stopped: bool,
    next: Option<(u64, u64)>,
    playing: bool,
) -> ProgramStep {
    let queued = if program_play && has_input {
        next
    } else {
        None
    };
    match queued {
        Some((from, stop)) => ProgramStep::PlayNext { from, stop },
        None => if !stopped {
            ProgramStep::Stay
        } else if program_play {
            ProgramStep::EndProgram
        } else if playing {
            ProgramStep::Release
        } else {
            ProgramStep::Stay
        },
    }
}

pub fn mpv_program_step(
    program_play: bool,
    has_input: bool,
    stopped: bool,
    next: Option<(u64, u64)>,
    playing: bool,
) -> (r: ProgramStep)
    ensures
        r == mpv_program_step_of(program_play, has_input, stopped, next, playing),
{
    if program_play && has_input {
        if let Some((from, stop)) = next {
            return ProgramStep::PlayNext { from, stop };
        }
    }
    if !stopped {
        ProgramStep::Stay
    } else if program_play {
        ProgramStep::EndProgram
    } else if playing {
        ProgramStep::Release
    } else {
        ProgramStep::Stay
    }
}

/// After the next piece could not be started (program play then ends): the player's
/// clock is its own again when the player had stopped and the transport still plays.
pub fn release_after_failed_next(stopped: bool, playing: bool) -> (r: bool)
    ensures
        r == (stopped && playing),
{
    stopped && playing
}

/// What program play does when the audio player has just stopped on its own.
#[derive(Debug, Clone, Copy, PartialEq, Eq, Structural)]
pub enum AudioStep {
    /// Play the next piece, from `from` to `stop`; the video follows the player.
    PlayNext { from: u64, stop: u64 },
    /// Program play ends; the video shows a still.
    EndProgram,
    /// Not in program play: the video shows a still.
    ShowStill,
}

pub open spec fn audio_program_step_of(program_play: bool, next: Option<(u64, u64)>) -> AudioStep {
    if !program_play {
        AudioStep::ShowStill
    } else {
        match next {
            Some((from, stop)) => AudioStep::PlayNext { from, stop },
            None => AudioStep::EndProgram,
        }
    }
}

/// The step of program play when the audio player stopped; `next` is the next piece
/// after its playhead.
pub fn audio_program_step(program_play: bool, next: Option<(u64, u64)>) -> (r: AudioStep)
    ensures
        r == audio_program_step_of(program_play, next),
{
    if !program_play {
        AudioStep::ShowStill
    } else {
        match next {
            Some((from, stop)) => AudioStep::PlayNext { from, stop },
            None => AudioStep::EndProgram,
        }
    }
}

} // verus!

