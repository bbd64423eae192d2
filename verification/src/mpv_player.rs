//! The embedded mpv player's own state: render size, what is loaded, the stop point of
//! the current play and the last position and pause state seen. The libmpv handle and
//! its render context live beside it; the decisions are taken here. Times are whole
//! milliseconds.

use vstd::prelude::*;
use crate::ffmpeg::{ffmpeg_time, format_ffmpeg_time};
use crate::preview_quality::PreviewSize;
use crate::text::{dec, push_char, push_dec, push_str};

verus! {

/// Render size until one is set.
pub const EMBED_W: u32 = 960;
pub const EMBED_H: u32 = 540;

/// What one poll of the player saw.
#[derive(Debug)]
pub struct MpvStatus {
    pub time: u64,
    pub paused: bool,
    pub eof: bool,
}

/// A render dimension: at least 2 and even.
pub open spec fn even_dim(x: u32) -> u32 {
    if x < 2 { 2 } else { (x - x % 2) as u32 }
}

fn even_dim_exec(x: u32) -> (r: u32)
    ensures
        r == even_dim(x),
{
    if x < 2 { 2 } else { x - x % 2 }
}

#[derive(Debug)]
pub struct MpvPlayer {
    pub render_w: u32,
    pub render_h: u32,
    /// libmpv could be started.
    pub available: bool,
    /// The file loaded, as its path reads.
    pub loaded: Option<String>,
    pub stop_at: Option<u64>,
    pub last_time: u64,
    pub last_paused: bool,
    pub init_error: Option<String>,
}

pub open spec fn opt_view(o: Option<String>) -> Option<Seq<char>> {
    match o {
        Some(s) => Some(s@),
        None => None,
    }
}

impl MpvPlayer {
    /// A player at 960×540, paused at 0 with nothing loaded; `init_error` is why libmpv
    /// could not be started, if it could not (the player is then unavailable).
    pub fn new(init_error: Option<String>) -> (r: Self)
        ensures
            r.render_w == EMBED_W && r.render_h == EMBED_H,
            r.available == (init_error is None),
            r.loaded is None && r.stop_at is None && r.last_time == 0 && r.last_paused,
            opt_view(r.init_error) == opt_view(init_error),
    {
        MpvPlayer {
            render_w: EMBED_W,
            render_h: EMBED_H,
            available: init_error.is_none(),
            loaded: None,
            stop_at: None,
            last_time: 0,
            last_paused: true,
            init_error,
        }
    }

    pub fn init_error(&self) -> (r: Option<&str>)
        ensures
            opt_str(r) == opt_view(self.init_error),
    {
        match &self.init_error {
            Some(m) => Some(m.as_str()),
            None => None,
        }
    }

    pub fn is_running(&self) -> (r: bool)
        ensures
            r == self.available,
    {
        self.available
    }

    /// The error of a call made while libmpv is unavailable.
    pub fn unavailable_error(&self) -> (r: String)
        ensures
            r@ == match self.init_error {
                Some(m) => m@,
                None => "mpv unavailable"@,
            },
    {
        match &self.init_error {
            Some(m) => m.clone(),
            None => String::from_str("mpv unavailable"),
        }
    }

    /// Sets the render size, each side even and at least 2; `true` when it changed
    /// (the frame buffer and texture are then rebuilt and the frame drawn again).
    pub fn set_render_size(&mut self, size: PreviewSize) -> (r: bool)
        ensures
            final(self).render_w == even_dim(size.w) && final(self).render_h == even_dim(size.h),
            r == (even_dim(size.w) != old(self).render_w || even_dim(size.h) != old(self).render_h),
            *final(self) == (MpvPlayer { render_w: even_dim(size.w), render_h: even_dim(size.h), ..*old(self) }),
    {
        let w = even_dim_exec(size.w);
        let h = even_dim_exec(size.h);
        if w == self.render_w && h == self.render_h {
            return false;
        }
        self.render_w = w;
        self.render_h = h;
        true
    }

    /// `W×H` of the render size.
    pub fn render_size_label(&self) -> (r: String)
        ensures
            r@ == dec(self.render_w as nat) + seq!['×'] + dec(self.render_h as nat),
    {
        let mut r = String::new();
        push_dec(&mut r, self.render_w as u64);
        push_char(&mut r, '×');
        push_dec(&mut r, self.render_h as u64);
        r
    }

    /// Whether `path` must be loaded before playing it.
    pub fn needs_load(&self, path: &str) -> (r: bool)
        ensures
            r == (opt_view(self.loaded) != Some(path@)),
    {
        match &self.loaded {
            Some(p) => !crate::text::str_eq(p.as_str(), path),
            None => true,
        }
    }

    /// `path` was loaded (paused at its start).
    pub fn mark_loaded(&mut self, path: &str)
        ensures
            opt_view(final(self).loaded) == Some(path@),
            final(self).last_paused && final(self).last_time == 0 && final(self).stop_at is None,
            final(self).render_w == old(self).render_w && final(self).render_h == old(self).render_h,
            final(self).available == old(self).available,
            opt_view(final(self).init_error) == opt_view(old(self).init_error),
    {
        self.loaded = Some(String::from_str(path));
        self.last_paused = true;
        self.last_time = 0;
        self.stop_at = None;
    }

    /// The argument of an absolute seek to `t`: seconds with three decimals.
    pub fn seek_arg(t: u64) -> (r: String)
        ensures
            r@ == ffmpeg_time(t as nat),
    {
        format_ffmpeg_time(t)
    }

    /// A seek to `t` went through.
    pub fn mark_seeked(&mut self, t: u64)
        ensures
            *final(self) == (MpvPlayer { last_time: t, ..*old(self) }),
    {
        self.last_time = t;
    }

    /// The pause state was set.
    pub fn mark_paused(&mut self, pause: bool)
        ensures
            *final(self) == (MpvPlayer { last_paused: pause, ..*old(self) }),
    {
        self.last_paused = pause;
    }

    /// The play about to start ends at `stop_at` (when given).
    pub fn set_stop_at(&mut self, stop_at: Option<u64>)
        ensures
            *final(self) == (MpvPlayer { stop_at, ..*old(self) }),
    {
        self.stop_at = stop_at;
    }

    /// Playback stopped: no stop point is pending.
    pub fn mark_stopped(&mut self)
        ensures
            *final(self) == (MpvPlayer { stop_at: None, last_paused: true, ..*old(self) }),
    {
        self.stop_at = None;
        self.last_paused = true;
    }

    /// The media was closed.
    pub fn mark_cleared(&mut self)
        ensures
            *final(self) == (MpvPlayer { loaded: None, stop_at: None, last_time: 0, last_paused: true, ..*old(self) }),
    {
        self.loaded = None;
        self.stop_at = None;
        self.last_time = 0;
        self.last_paused = true;
    }

    /// Whether a play reaching `time` (ms) has come to its stop point: within 40 ms of
    /// it while playing.
    pub open spec fn stop_reached(&self, time: u64, paused: bool) -> bool {
        !paused && self.stop_at is Some && time + 40 >= self.stop_at->0
    }

    /// Takes what a poll read (position `time`, pause state, end of file). At the stop
    /// point the player is to be paused and put exactly on it (`true` is returned); the
    /// status then reports the stop point, paused.
    pub fn poll(&mut self, time: u64, paused: bool, eof: bool) -> (r: (MpvStatus, bool))
        ensures
            r.1 == old(self).stop_reached(time, paused),
            r.1 ==> r.0.time == old(self).stop_at->0 && r.0.paused && !r.0.eof && *final(self) == (MpvPlayer {
                stop_at: None,
                last_time: old(self).stop_at->0,
                last_paused: true,
                ..*old(self)
            }),
            !r.1 ==> r.0.time == time && r.0.paused == paused && r.0.eof == eof && *final(self) == (MpvPlayer {
                last_time: time,
                last_paused: paused,
                ..*old(self)
            }),
    {
        if !paused {
            match self.stop_at {
                Some(end) => {
                    if time as u128 + 40 >= end as u128 {
                        self.stop_at = None;
                        self.last_time = end;
                        self.last_paused = true;
                        return (MpvStatus { time: end, paused: true, eof: false }, true);
                    }
                },
                None => {},
            }
        }
        self.last_time = time;
        self.last_paused = paused;
        (MpvStatus { time, paused, eof }, false)
    }
}

pub open spec fn opt_str(o: Option<&str>) -> Option<Seq<char>> {
    match o {
        Some(s) => Some(s@),
        None => None,
    }
}

} // verus!
