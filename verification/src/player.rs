//! Playback: decoded PCM and the player's clock. The player is a state machine: each
//! operation updates the clock state and says what is to be done to the audio sink
//! (stop it, start it on a stretch of samples, or run a wall clock instead).
//! Times are whole milliseconds.

use vstd::prelude::*;
use crate::ffmpeg::{args_view, push_arg, FfmpegArgs};
use crate::ffmpeg::min_nat;
use crate::text::{push_str, trim, trim_str};

verus! {

/// Sample rate the audio is decoded to.
pub const TARGET_RATE: u32 = 44_100;
/// Channels the audio is decoded to.
pub const TARGET_CHANNELS: u16 = 2;

/// Decoded audio: interleaved signed 16-bit samples.
#[derive(Debug)]
pub struct DecodedAudio {
    pub sample_rate: u32,
    pub channels: u16,
    pub samples: Vec<i16>,
    /// Length in ms.
    pub duration: u64,
}

/// Whole frames (one sample per channel) in `n` samples of `ch` channels.
pub open spec fn frames_of(n: nat, ch: nat) -> nat {
    if ch == 0 { 0 } else { n / ch }
}

/// The frame nearest to `ms` at `rate` frames per second, within `0..frames`.
pub open spec fn frame_index(ms: nat, rate: nat, frames: nat) -> nat {
    if frames == 0 {
        0
    } else {
        let f = (ms * rate + 500) / 1000;
        if f < frames { f } else { (frames - 1) as nat }
    }
}

impl DecodedAudio {
    pub open spec fn frames(&self) -> nat {
        frames_of(self.samples@.len(), self.channels as nat)
    }

    pub fn sample_count_frames(&self) -> (r: usize)
        ensures
            r == self.frames(),
    {
        let ch = self.channels as usize;
        if ch == 0 { 0 } else { self.samples.len() / ch }
    }

    /// The frame playing at `ms`.
    pub fn frame_at(&self, ms: u64) -> (r: usize)
        ensures
            r == frame_index(ms as nat, self.sample_rate as nat, self.frames()),
            self.frames() > 0 ==> r < self.frames(),
    {
        let frames = self.sample_count_frames();
        if frames == 0 {
            return 0;
        }
        let a = ms as u128;
        let b = self.sample_rate as u128;
        assert(a * b <= 0xFFFF_FFFF_FFFF_FFFFu128 * 0xFFFF_FFFFu128) by (nonlinear_arith)
            requires
                a <= 0xFFFF_FFFF_FFFF_FFFFu128,
                b <= 0xFFFF_FFFFu128,
        ;
        let f = (a * b + 500) / 1000;
        if f < frames as u128 { f as usize } else { frames - 1 }
    }
}

/// The sample that two little-endian bytes hold.
pub open spec fn le_i16(lo: u8, hi: u8) -> int {
    let v = lo as int + 256 * hi as int;
    if v >= 32768 { v - 65536 } else { v }
}

/// The samples of raw `s16le` bytes; an odd last byte is dropped.
pub open spec fn samples_of(bytes: Seq<u8>) -> Seq<i16> {
    Seq::new(bytes.len() / 2, |i: int| le_i16(bytes[2 * i], bytes[2 * i + 1]) as i16)
}

fn sample_at(lo: u8, hi: u8) -> (r: i16)
    ensures
        r as int == le_i16(lo, hi),
{
    let u: u32 = lo as u32 + (hi as u32) * 256;
    if u >= 32768 {
        let v: i32 = u as i32 - 65536;
        v as i16
    } else {
        u as i16
    }
}

pub fn samples_from_le(bytes: &[u8]) -> (r: Vec<i16>)
    ensures
        r@ == samples_of(bytes@),
{
    let n = bytes.len() / 2;
    let mut out: Vec<i16> = Vec::new();
    let mut i: usize = 0;
    while i < n
        invariant
            n == bytes@.len() / 2,
            bytes@.len() <= usize::MAX,
            i <= n,
            out@ == samples_of(bytes@).subrange(0, i as int),
        decreases n - i,
    {
        let s = sample_at(bytes[2 * i], bytes[2 * i + 1]);
        out.push(s);
        i = i + 1;
        assert(out@ =~= samples_of(bytes@).subrange(0, i as int));
    }
    assert(out@ =~= samples_of(bytes@));
    out
}

/// Length (ms, rounded down) of `frames` frames at the decode rate.
pub open spec fn pcm_duration(frames: nat) -> nat {
    frames * 1000 / 44_100
}

/// The audio that ffmpeg's raw `s16le` output (stereo, 44.1 kHz) holds. Fewer than
/// four bytes: "empty audio stream".
pub fn decoded_from_pcm(bytes: &[u8]) -> (r: Result<DecodedAudio, String>)
    ensures
        bytes@.len() < 4 <==> r is Err,
        r matches Err(e) ==> e@ == "empty audio stream"@,
        r matches Ok(d) ==> d.sample_rate == 44_100 && d.channels == 2 && d.samples@ == samples_of(bytes@)
            && d.duration == pcm_duration(samples_of(bytes@).len() / 2),
{
    if bytes.len() < 4 {
        return Err(String::from_str("empty audio stream"));
    }
    let samples = samples_from_le(bytes);
    let frames = samples.len() / 2;
    assert(frames <= usize::MAX);
    let d = (frames as u128) * 1000 / 44_100;
    assert(d <= u64::MAX) by (nonlinear_arith)
        requires
            d == (frames as u128) * 1000 / 44_100,
            frames <= 0xFFFF_FFFF_FFFF_FFFFu128,
    ;
    Ok(DecodedAudio { sample_rate: TARGET_RATE, channels: TARGET_CHANNELS, samples, duration: d as u64 })
}

/// The ffmpeg arguments that decode the audio of the input to raw stereo `s16le` at
/// 44.1 kHz on standard output.
pub open spec fn pcm_before() -> Seq<Seq<char>> {
    seq!["-hide_banner"@, "-loglevel"@, "error"@, "-i"@]
}

pub open spec fn pcm_after() -> Seq<Seq<char>> {
    seq!["-f"@, "s16le"@, "-acodec"@, "pcm_s16le"@, "-ac"@, "2"@, "-ar"@, "44100"@, "-vn"@, "-"@]
}

pub fn pcm_args() -> (r: FfmpegArgs)
    ensures
        args_view(r.before_input@) == pcm_before(),
        args_view(r.after_input@) == pcm_after(),
{
    let mut before: Vec<String> = Vec::new();
    push_arg(&mut before, "-hide_banner");
    push_arg(&mut before, "-loglevel");
    push_arg(&mut before, "error");
    push_arg(&mut before, "-i");
    let mut after: Vec<String> = Vec::new();
    push_arg(&mut after, "-f");
    push_arg(&mut after, "s16le");
    push_arg(&mut after, "-acodec");
    push_arg(&mut after, "pcm_s16le");
    push_arg(&mut after, "-ac");
    push_arg(&mut after, "2");
    push_arg(&mut after, "-ar");
    push_arg(&mut after, "44100");
    push_arg(&mut after, "-vn");
    push_arg(&mut after, "-");
    assert(args_view(before@) =~= pcm_before());
    assert(args_view(after@) =~= pcm_after());
    FfmpegArgs { before_input: before, after_input: after }
}

/// The message of a failed decode, from ffmpeg's error output.
pub open spec fn decode_failure_text(stderr: Seq<char>) -> Seq<char> {
    if trim(stderr).len() == 0 {
        "ffmpeg could not decode file for playback"@
    } else {
        "ffmpeg: "@ + trim(stderr)
    }
}

pub fn decode_failure_message(stderr: &str) -> (r: String)
    ensures
        r@ == decode_failure_text(stderr@),
{
    let t = trim_str(stderr);
    if t.as_str().unicode_len() == 0 {
        return String::from_str("ffmpeg could not decode file for playback");
    }
    let mut r = String::new();
    push_str(&mut r, "ffmpeg: ");
    push_str(&mut r, t.as_str());
    r
}

/// How playback is to start once the clock state has been set.
#[derive(Debug)]
pub enum Start {
    Nothing,
    /// No audio output: run a wall clock from the current position.
    Wall,
    /// Play the samples from `start_sample` on, for at most `max_ms` when given.
    Sink { start_sample: usize, max_ms: Option<u64> },
}

/// What an operation asks of the audio side.
#[derive(Debug)]
pub struct Effects {
    /// Stop and drop the running sink.
    pub stop_sink: bool,
    pub start: Start,
}

/// The player: position, the stop point of the current play, and which clock drives
/// the position (a running sink, a wall clock, or the video frames).
#[derive(Debug)]
pub struct PlayerState {
    /// An audio output could be opened.
    pub has_output: bool,
    pub decoded: Option<DecodedAudio>,
    /// Length of the media (from the probe) when there is no PCM.
    pub media_duration: u64,
    pub playhead: u64,
    /// Position when the running clock started.
    pub play_base: u64,
    pub stop_at: Option<u64>,
    pub playing: bool,
    /// A wall clock runs (no audio output).
    pub wall: bool,
    /// A sink plays.
    pub sink: bool,
    /// The position follows the video frames (video only, or an outside player).
    pub video_clock: bool,
    pub init_error: Option<String>,
}

/// `x` limited to `0..=d` when the length `d` is known (positive).
pub open spec fn clamp_to(x: nat, d: nat) -> nat {
    if d > 0 && x > d { d } else { x }
}

impl PlayerState {
    /// Length: the PCM's when decoded and positive, else the probed one.
    pub open spec fn dur(&self) -> nat {
        match self.decoded {
            Some(d) => if d.duration > 0 { d.duration as nat } else { self.media_duration as nat },
            None => self.media_duration as nat,
        }
    }

    pub open spec fn audio(&self) -> bool {
        self.decoded matches Some(d) && d.samples@.len() > 0
    }

    /// Idle; `output_error` is why no audio output could be opened, if none could.
    pub fn new(output_error: Option<&str>) -> (r: Self)
        ensures
            r.has_output == (output_error is None),
            r.decoded is None && r.media_duration == 0 && r.playhead == 0 && r.play_base == 0,
            r.stop_at is None && !r.playing && !r.wall && !r.sink && !r.video_clock,
            match output_error {
                Some(e) => r.init_error matches Some(m) && m@ == "audio output: "@ + e@,
                None => r.init_error is None,
            },
    {
        let init_error = match output_error {
            Some(e) => {
                let mut m = String::new();
                push_str(&mut m, "audio output: ");
                push_str(&mut m, e);
                Some(m)
            },
            None => None,
        };
        PlayerState {
            has_output: output_error.is_none(),
            decoded: None,
            media_duration: 0,
            playhead: 0,
            play_base: 0,
            stop_at: None,
            playing: false,
            wall: false,
            sink: false,
            video_clock: false,
            init_error,
        }
    }

    pub fn init_error(&self) -> (r: Option<&str>)
        ensures
            match self.init_error {
                Some(m) => r matches Some(x) && x@ == m@,
                None => r is None,
            },
    {
        match &self.init_error {
            Some(m) => Some(m.as_str()),
            None => None,
        }
    }

    pub fn decoded(&self) -> (r: Option<&DecodedAudio>)
        ensures
            match self.decoded {
                Some(d) => r matches Some(x) && *x == d,
                None => r is None,
            },
    {
        match &self.decoded {
            Some(d) => Some(d),
            None => None,
        }
    }

    pub fn set_media_duration(&mut self, d: u64)
        ensures
            *final(self) == (PlayerState { media_duration: d, ..*old(self) }),
    {
        self.media_duration = d;
    }

    pub fn duration(&self) -> (r: u64)
        ensures
            r == self.dur(),
    {
        match &self.decoded {
            Some(d) => if d.duration > 0 { d.duration } else { self.media_duration },
            None => self.media_duration,
        }
    }

    pub fn playhead(&self) -> (r: u64)
        ensures
            r == self.playhead,
    {
        self.playhead
    }

    pub fn is_playing(&self) -> (r: bool)
        ensures
            r == self.playing,
    {
        self.playing
    }

    pub fn has_audio(&self) -> (r: bool)
        ensures
            r == self.audio(),
    {
        match &self.decoded {
            Some(d) => d.samples.len() > 0,
            None => false,
        }
    }

    fn clamp_pos(&self, x: u64) -> (r: u64)
        ensures
            r == clamp_to(x as nat, self.dur()),
    {
        let d = self.duration();
        if d > 0 && x > d { d } else { x }
    }

    fn stop_sink(&mut self) -> (r: bool)
        ensures
            r == old(self).sink,
            *final(self) == (PlayerState { sink: false, ..*old(self) }),
    {
        let r = self.sink;
        self.sink = false;
        r
    }

    /// Takes new decoded audio (or none): everything stops and the position goes to 0.
    pub fn set_decoded(&mut self, decoded: Option<DecodedAudio>) -> (r: Effects)
        ensures
            r.stop_sink == old(self).sink && r.start is Nothing,
            final(self).decoded == decoded,
            final(self).media_duration == match decoded {
                Some(d) => d.duration,
                None => old(self).media_duration,
            },
            final(self).playhead == 0 && final(self).play_base == 0 && final(self).stop_at is None,
            !final(self).playing && !final(self).wall && !final(self).sink && !final(self).video_clock,
            final(self).has_output == old(self).has_output && final(self).init_error == old(self).init_error,
    {
        let stopped = self.stop_sink();
        match &decoded {
            Some(d) => {
                self.media_duration = d.duration;
            },
            None => {},
        }
        self.decoded = decoded;
        self.playhead = 0;
        self.play_base = 0;
        self.stop_at = None;
        self.playing = false;
        self.wall = false;
        self.video_clock = false;
        Effects { stop_sink: stopped, start: Start::Nothing }
    }

    /// Sets the position from an outside clock (video frames, another player) without
    /// stopping anything.
    pub fn set_playhead_live(&mut self, ms: u64)
        ensures
            *final(self) == (PlayerState { playhead: clamp_to(ms as nat, old(self).dur()) as u64, ..*old(self) }),
    {
        self.playhead = self.clamp_pos(ms);
    }

    /// An outside player took over playback (`playing`), or stopped.
    pub fn mark_external(&mut self, playing: bool) -> (r: Effects)
        ensures
            r.start is Nothing,
            playing ==> r.stop_sink == old(self).sink && *final(self) == (PlayerState {
                sink: false,
                wall: false,
                video_clock: true,
                playing: true,
                ..*old(self)
            }),
            !playing ==> !r.stop_sink && *final(self) == (PlayerState {
                playing: false,
                video_clock: false,
                wall: false,
                stop_at: None,
                ..*old(self)
            }),
    {
        if playing {
            let stopped = self.stop_sink();
            self.wall = false;
            self.video_clock = true;
            self.playing = true;
            Effects { stop_sink: stopped, start: Start::Nothing }
        } else {
            self.playing = false;
            self.video_clock = false;
            self.wall = false;
            self.stop_at = None;
            Effects { stop_sink: false, start: Start::Nothing }
        }
    }

    /// The sample playback starts at: the frame at the position, times the channels.
    pub open spec fn start_sample(&self) -> nat {
        let d = self.decoded->0;
        frame_index(self.playhead as nat, d.sample_rate as nat, d.frames()) * (d.channels as nat)
    }

    /// How playback starts from this state: a wall clock without audio output, the
    /// sink from the position (for at most the time to the stop point), nothing when
    /// the position is past the samples, or the video frames when there is no sound.
    pub open spec fn start_of(&self) -> Start {
        if self.audio() {
            if !self.has_output {
                Start::Wall
            } else if self.start_sample() >= self.decoded->0.samples@.len() {
                Start::Nothing
            } else {
                Start::Sink {
                    start_sample: self.start_sample() as usize,
                    max_ms: match self.stop_at {
                        Some(e) => Some(if e >= self.playhead { (e - self.playhead) as u64 } else { 0 }),
                        None => None,
                    },
                }
            }
        } else {
            Start::Nothing
        }
    }

    /// The state once playback started from this one.
    pub open spec fn started(&self) -> PlayerState {
        let done = PlayerState { play_base: self.playhead, ..*self };
        if self.audio() {
            if !self.has_output {
                PlayerState { wall: true, sink: false, video_clock: false, playing: true, ..done }
            } else if self.start_sample() >= self.decoded->0.samples@.len() {
                PlayerState { wall: false, sink: false, video_clock: false, playing: false, ..done }
            } else {
                PlayerState { wall: false, sink: true, video_clock: false, playing: true, ..done }
            }
        } else {
            PlayerState { wall: false, sink: false, video_clock: true, playing: true, ..done }
        }
    }

    /// Starts playing from the current position (with the current stop point).
    fn start_playback(&mut self) -> (r: Effects)
        ensures
            r.stop_sink == old(self).sink,
            r.start == old(self).start_of(),
            *final(self) == old(self).started(),
    {
        let stopped = self.stop_sink();
        self.wall = false;
        self.video_clock = false;
        self.play_base = self.playhead;
        let audio = self.has_audio();
        if audio {
            if !self.has_output {
                self.wall = true;
                self.playing = true;
                return Effects { stop_sink: stopped, start: Start::Wall };
            }
            let (frame, ch, len) = match &self.decoded {
                Some(d) => (d.frame_at(self.playhead), d.channels as usize, d.samples.len()),
                None => (0, 0, 0),
            };
            let ghost d = self.decoded->0;
            assert(frame as nat * ch as nat <= len) by (nonlinear_arith)
                requires
                    ch > 0 ==> frame < len / ch || frame == 0,
                    ch == 0 ==> frame == 0,
            ;
            let start = frame * ch;
            if start >= len {
                self.playing = false;
                return Effects { stop_sink: stopped, start: Start::Nothing };
            }
            let max_ms = match self.stop_at {
                Some(e) => Some(if e >= self.playhead { e - self.playhead } else { 0 }),
                None => None,
            };
            self.sink = true;
            self.playing = true;
            return Effects { stop_sink: stopped, start: Start::Sink { start_sample: start, max_ms } };
        }
        self.video_clock = true;
        self.playing = true;
        Effects { stop_sink: stopped, start: Start::Nothing }
    }

    /// The sink could not be created: the video frames drive the position instead.
    pub fn sink_failed(&mut self)
        ensures
            *final(self) == (PlayerState { sink: false, video_clock: true, playing: true, ..*old(self) }),
    {
        self.sink = false;
        self.video_clock = true;
        self.playing = true;
    }

    /// Moves the position (clamped to the length); playback that was running restarts
    /// there with the same stop point.
    pub fn set_playhead(&mut self, ms: u64) -> (r: Effects)
        ensures
            final(self).playhead == clamp_to(ms as nat, old(self).dur()),
            final(self).decoded == old(self).decoded && final(self).media_duration == old(self).media_duration,
            !old(self).playing ==> r.stop_sink == old(self).sink && r.start is Nothing && *final(self) == (
            PlayerState {
                sink: false,
                wall: false,
                video_clock: false,
                playing: false,
                playhead: clamp_to(ms as nat, old(self).dur()) as u64,
                ..*old(self)
            }),
            old(self).playing ==> ({
                let s = PlayerState {
                    sink: false,
                    wall: false,
                    video_clock: false,
                    playing: false,
                    playhead: clamp_to(ms as nat, old(self).dur()) as u64,
                    ..*old(self)
                };
                r.stop_sink == old(self).sink && r.start == s.start_of() && *final(self) == s.started()
            }),
    {
        let was = self.playing;
        let stop_at = self.stop_at;
        let stopped = self.stop_sink();
        self.wall = false;
        self.video_clock = false;
        self.playing = false;
        self.playhead = self.clamp_pos(ms);
        if was {
            self.stop_at = stop_at;
            let e = self.start_playback();
            return Effects { stop_sink: stopped, start: e.start };
        }
        Effects { stop_sink: stopped, start: Start::Nothing }
    }

    /// Plays from the current position, up to `stop_at` when given.
    pub fn play(&mut self, stop_at: Option<u64>) -> (r: Effects)
        ensures
            r.stop_sink == old(self).sink,
            r.start == (PlayerState { stop_at, ..*old(self) }).start_of(),
            *final(self) == (PlayerState { stop_at, ..*old(self) }).started(),
    {
        self.stop_at = stop_at;
        self.start_playback()
    }

    /// Plays `start..end` (the start clamped to the length).
    pub fn play_selection(&mut self, start: u64, end: u64) -> (r: Effects)
        ensures
            r.stop_sink == old(self).sink,
            ({
                let s = PlayerState {
                    playhead: clamp_to(start as nat, old(self).dur()) as u64,
                    stop_at: Some(end),
                    ..*old(self)
                };
                r.start == s.start_of() && *final(self) == s.started()
            }),
    {
        self.playhead = self.clamp_pos(start);
        self.stop_at = Some(end);
        self.start_playback()
    }

    /// The position the running clock gives after `clock_ms` on it.
    pub open spec fn clock_pos(&self, clock_ms: u64) -> nat {
        if !self.video_clock && (self.wall || self.sink) {
            clamp_to(min_nat(self.play_base as nat + clock_ms as nat, u64::MAX as nat), self.dur())
        } else {
            self.playhead as nat
        }
    }

    /// Takes the position from the running wall clock or sink, `clock_ms` after it
    /// started (the frames set it themselves when the video drives the position).
    fn sync_clock(&mut self, clock_ms: u64)
        ensures
            *final(self) == (PlayerState { playhead: old(self).clock_pos(clock_ms) as u64, ..*old(self) }),
    {
        if self.video_clock {
            return;
        }
        if self.wall || self.sink {
            let pos: u64 = if self.play_base as u128 + clock_ms as u128 > u64::MAX as u128 {
                u64::MAX
            } else {
                self.play_base + clock_ms
            };
            let d = self.duration();
            self.playhead = if d > 0 && pos > d { d } else { pos };
        }
    }

    /// Pauses (taking the position from the clock first).
    pub fn pause(&mut self, clock_ms: u64) -> (r: Effects)
        ensures
            r.stop_sink == old(self).sink && r.start is Nothing,
            *final(self) == (PlayerState {
                playhead: old(self).clock_pos(clock_ms) as u64,
                sink: false,
                wall: false,
                video_clock: false,
                playing: false,
                stop_at: None,
                ..*old(self)
            }),
    {
        if !self.video_clock {
            self.sync_clock(clock_ms);
        }
        let stopped = self.stop_sink();
        self.wall = false;
        self.video_clock = false;
        self.playing = false;
        self.stop_at = None;
        Effects { stop_sink: stopped, start: Start::Nothing }
    }

    pub fn stop(&mut self) -> (r: Effects)
        ensures
            r.stop_sink == old(self).sink && r.start is Nothing,
            *final(self) == (PlayerState {
                sink: false,
                wall: false,
                video_clock: false,
                playing: false,
                stop_at: None,
                ..*old(self)
            }),
    {
        let stopped = self.stop_sink();
        self.wall = false;
        self.video_clock = false;
        self.playing = false;
        self.stop_at = None;
        Effects { stop_sink: stopped, start: Start::Nothing }
    }

    /// One frame of the UI clock: the position follows the running clock (`clock_ms`
    /// on it); playback ends at the stop point (within 5 ms), at the end of the media
    /// (within 10 ms), or when the sound ran out (`sink_done`: no sink, or it is empty).
    pub fn tick(&mut self, clock_ms: u64, sink_done: bool) -> (r: Effects)
        ensures
            r.start is Nothing,
            !old(self).playing ==> !r.stop_sink && *final(self) == *old(self),
            old(self).playing ==> ({
                let ph = old(self).clock_pos(clock_ms);
                let s1 = PlayerState { playhead: ph as u64, ..*old(self) };
                let ended = PlayerState {
                    sink: false,
                    wall: false,
                    video_clock: false,
                    playing: false,
                    stop_at: None,
                    ..s1
                };
                if old(self).stop_at is Some && ph + 5 >= old(self).stop_at->0 {
                    r.stop_sink == old(self).sink && *final(self) == (PlayerState {
                        playhead: old(self).stop_at->0,
                        ..ended
                    })
                } else if old(self).dur() > 0 && ph + 10 >= old(self).dur() {
                    r.stop_sink == old(self).sink && *final(self) == (PlayerState {
                        playhead: old(self).dur() as u64,
                        ..ended
                    })
                } else if old(self).audio() && sink_done && !old(self).wall && !old(self).video_clock {
                    r.stop_sink == old(self).sink && *final(self) == (PlayerState {
                        playing: false,
                        sink: false,
                        stop_at: None,
                        ..s1
                    })
                } else {
                    !r.stop_sink && *final(self) == s1
                }
            }),
    {
        if !self.playing {
            return Effects { stop_sink: false, start: Start::Nothing };
        }
        if !self.video_clock {
            self.sync_clock(clock_ms);
        }
        match self.stop_at {
            Some(end) => {
                if self.playhead as u128 + 5 >= end as u128 {
                    self.playhead = end;
                    let stopped = self.stop_sink();
                    self.wall = false;
                    self.video_clock = false;
                    self.playing = false;
                    self.stop_at = None;
                    return Effects { stop_sink: stopped, start: Start::Nothing };
                }
            },
            None => {},
        }
        let d = self.duration();
        if d > 0 && self.playhead as u128 + 10 >= d as u128 {
            self.playhead = d;
            let stopped = self.stop_sink();
            self.wall = false;
            self.video_clock = false;
            self.playing = false;
            self.stop_at = None;
            return Effects { stop_sink: stopped, start: Start::Nothing };
        }
        if self.has_audio() && sink_done {
            if !self.wall && !self.video_clock {
                self.playing = false;
                let stopped = self.stop_sink();
                self.stop_at = None;
                return Effects { stop_sink: stopped, start: Start::Nothing };
            }
        }
        Effects { stop_sink: false, start: Start::Nothing }
    }
}

} // verus!
