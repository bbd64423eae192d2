//! What `ffprobe -show_format -show_streams` reports, and the media info taken from it.
//! Durations are whole milliseconds; frame rates are thousandths of a frame per second.

use vstd::prelude::*;
use crate::edit::{first_where, lemma_first_where_in, lemma_first_where_none, lemma_first_where_some};
use crate::ffmpeg::FfmpegError;
use crate::number::{decimal_of, find_char, lemma_find_char_is, parse_decimal, parse_u32, parse_u64, uint_of, DecimalError};
use crate::text::{chars_of, push_char, push_dec, push_str, str_eq, sub_vec};
use crate::timecode::{format_seconds, format_seconds_of, round_ms};

verus! {

/// The `disposition` object of a stream.
#[derive(Debug)]
pub struct Disposition {
    pub attached_pic: Option<i32>,
}

/// One entry of `streams`.
#[derive(Debug)]
pub struct ProbeStream {
    pub codec_type: Option<String>,
    pub codec_name: Option<String>,
    pub sample_rate: Option<String>,
    pub channels: Option<u32>,
    pub duration: Option<String>,
    pub width: Option<u32>,
    pub height: Option<u32>,
    pub avg_frame_rate: Option<String>,
    pub r_frame_rate: Option<String>,
    pub disposition: Option<Disposition>,
}

/// The `format` object.
#[derive(Debug)]
pub struct ProbeFormat {
    pub format_name: Option<String>,
    pub duration: Option<String>,
    pub size: Option<String>,
    pub bit_rate: Option<String>,
}

/// The whole report.
#[derive(Debug)]
pub struct ProbeJson {
    pub streams: Vec<ProbeStream>,
    pub format: Option<ProbeFormat>,
}

/// Media file info (audio and/or video).
#[derive(Debug)]
pub struct MediaInfo {
    /// The file the report is about.
    pub path: String,
    /// Milliseconds, as the report gives it (negative where it says so).
    pub duration: i64,
    pub format_name: String,
    pub bit_rate: Option<u64>,
    pub size_bytes: Option<u64>,
    pub has_video: bool,
    pub has_audio: bool,
    pub audio_codec: Option<String>,
    pub sample_rate: Option<u32>,
    pub channels: Option<u32>,
    pub video_codec: Option<String>,
    pub width: Option<u32>,
    pub height: Option<u32>,
    /// Thousandths of a frame per second, as the report gives it.
    pub fps: Option<i64>,
}

pub open spec fn sview(o: Option<String>) -> Option<Seq<char>> {
    match o {
        Some(s) => Some(s@),
        None => None,
    }
}

/// A cover picture, not a video track.
pub open spec fn attached(s: ProbeStream) -> bool {
    match s.disposition {
        Some(d) => match d.attached_pic {
            Some(v) => v != 0,
            None => false,
        },
        None => false,
    }
}

pub open spec fn audio_stream(s: ProbeStream) -> bool {
    sview(s.codec_type) == Some("audio"@)
}

pub open spec fn video_stream(s: ProbeStream) -> bool {
    sview(s.codec_type) == Some("video"@) && !attached(s)
}

/// The first audio stream.
pub open spec fn audio_index(st: Seq<ProbeStream>) -> Option<int> {
    first_where(st.len() as int, |i: int| audio_stream(st[i]))
}

/// The first video stream that is not a cover picture.
pub open spec fn video_index(st: Seq<ProbeStream>) -> Option<int> {
    first_where(st.len() as int, |i: int| video_stream(st[i]))
}

/// A duration text in milliseconds, rounded half away from zero and signed as written;
/// `None` when it is no decimal or out of the `i64` range.
pub open spec fn duration_ms(o: Option<Seq<char>>) -> Option<int> {
    match o {
        Some(t) => match decimal_of(t) {
            Ok((neg, n)) => if round_ms(n) > i64::MAX {
                None
            } else if neg {
                Some(-(round_ms(n) as int))
            } else {
                Some(round_ms(n) as int)
            },
            Err(_) => None,
        },
        None => None,
    }
}

/// A frame-rate text (`30000/1001`, `25/1`, `25`) in thousandths of a frame per second,
/// rounded half away from zero and signed as written.
pub open spec fn rate_milli(raw: Seq<char>) -> Option<int> {
    match find_char(raw, '/') {
        Some(k) => match (decimal_of(raw.take(k as int)), decimal_of(raw.skip(k as int + 1))) {
            (Ok((nneg, nv)), Ok((dneg, dv))) => if dv == 0 {
                None
            } else {
                let q = (nv * 2000 + dv) / (2 * dv);
                if q > i64::MAX {
                    None
                } else if nneg != dneg {
                    Some(-(q as int))
                } else {
                    Some(q as int)
                }
            },
            _ => None,
        },
        None => duration_ms(Some(raw)),
    }
}

/// The rate text a stream's frame rate is read from: the average rate, else the base
/// rate, skipping `0/0`.
pub open spec fn rate_text(s: ProbeStream) -> Option<Seq<char>> {
    let a = sview(s.avg_frame_rate);
    let r = sview(s.r_frame_rate);
    if a is Some && a.unwrap() != "0/0"@ {
        a
    } else if r is Some && r.unwrap() != "0/0"@ {
        r
    } else {
        None
    }
}

pub open spec fn fps_of(s: ProbeStream) -> Option<int> {
    match rate_text(s) {
        Some(raw) => rate_milli(raw),
        None => None,
    }
}

/// Numbers in the report that are read as unsigned integers.
pub open spec fn uint_field(o: Option<Seq<char>>, max: nat) -> Option<nat> {
    match o {
        Some(t) => uint_of(t, max),
        None => None,
    }
}

pub open spec fn opt_nat64(o: Option<nat>) -> Option<u64> {
    match o {
        Some(n) => Some(n as u64),
        None => None,
    }
}

pub open spec fn opt_nat32(o: Option<nat>) -> Option<u32> {
    match o {
        Some(n) => Some(n as u32),
        None => None,
    }
}

pub open spec fn opt_int64(o: Option<int>) -> Option<i64> {
    match o {
        Some(n) => Some(n as i64),
        None => None,
    }
}

/// The first value present of three.
pub open spec fn first_some(a: Option<int>, b: Option<int>, c: Option<int>) -> Option<int> {
    if a is Some { a } else if b is Some { b } else { c }
}

/// The media info a report stands for (when it has an audio or a video stream).
pub open spec fn info_matches(json: &ProbeJson, path: Seq<char>, m: &MediaInfo) -> bool {
    let st = json.streams@;
    let a = audio_index(st);
    let v = video_index(st);
    let f = json.format;
    let fdur = match f {
        Some(ff) => duration_ms(sview(ff.duration)),
        None => None,
    };
    let vdur = match v {
        Some(i) => duration_ms(sview(st[i].duration)),
        None => None,
    };
    let adur = match a {
        Some(i) => duration_ms(sview(st[i].duration)),
        None => None,
    };
    &&& m.path@ == path
    &&& m.duration == match first_some(fdur, vdur, adur) {
        Some(n) => n,
        None => 0,
    }
    &&& m.format_name@ == match f {
        Some(ff) => match sview(ff.format_name) {
            Some(n) => n,
            None => "unknown"@,
        },
        None => "unknown"@,
    }
    &&& m.bit_rate == match f {
        Some(ff) => opt_nat64(uint_field(sview(ff.bit_rate), u64::MAX as nat)),
        None => None,
    }
    &&& m.size_bytes == match f {
        Some(ff) => opt_nat64(uint_field(sview(ff.size), u64::MAX as nat)),
        None => None,
    }
    &&& m.has_video == v is Some
    &&& m.has_audio == a is Some
    &&& sview(m.audio_codec) == match a {
        Some(i) => sview(st[i].codec_name),
        None => None,
    }
    &&& m.sample_rate == match a {
        Some(i) => opt_nat32(uint_field(sview(st[i].sample_rate), u32::MAX as nat)),
        None => None,
    }
    &&& m.channels == match a {
        Some(i) => st[i].channels,
        None => None,
    }
    &&& sview(m.video_codec) == match v {
        Some(i) => sview(st[i].codec_name),
        None => None,
    }
    &&& m.width == match v {
        Some(i) => st[i].width,
        None => None,
    }
    &&& m.height == match v {
        Some(i) => st[i].height,
        None => None,
    }
    &&& m.fps == match v {
        Some(i) => opt_int64(fps_of(st[i])),
        None => None,
    }
}

fn clone_opt(o: &Option<String>) -> (r: Option<String>)
    ensures
        sview(r) == sview(*o),
{
    match o {
        Some(s) => Some(s.clone()),
        None => None,
    }
}

/// The stream is a cover picture (`disposition.attached_pic` set).
pub fn is_attached_pic(s: &ProbeStream) -> (r: bool)
    ensures
        r == attached(*s),
{
    match &s.disposition {
        Some(d) => match d.attached_pic {
            Some(v) => v != 0,
            None => false,
        },
        None => false,
    }
}

fn opt_is(o: &Option<String>, lit: &str) -> (r: bool)
    ensures
        r == (sview(*o) == Some(lit@)),
{
    match o {
        Some(s) => str_eq(s.as_str(), lit),
        None => false,
    }
}

fn find_audio(st: &Vec<ProbeStream>) -> (r: Option<usize>)
    ensures
        r matches Some(i) ==> i < st@.len(),
        match r {
            Some(i) => audio_index(st@) == Some(i as int),
            None => audio_index(st@) == None::<int>,
        },
{
    let ghost p: spec_fn(int) -> bool = |i: int| audio_stream(st@[i]);
    let mut k: usize = 0;
    while k < st.len() && !opt_is(&st[k].codec_type, "audio")
        invariant
            k <= st@.len(),
            p == (|i: int| audio_stream(st@[i])),
            forall|j: int| 0 <= j < k ==> !#[trigger] p(j),
        decreases st.len() - k,
    {
        k = k + 1;
    }
    if k < st.len() {
        proof {
            assert(p(k as int));
            lemma_first_where_some(st@.len() as int, p, k as int);
        }
        Some(k)
    } else {
        proof {
            lemma_first_where_none(st@.len() as int, p);
        }
        None
    }
}

fn find_video(st: &Vec<ProbeStream>) -> (r: Option<usize>)
    ensures
        r matches Some(i) ==> i < st@.len(),
        match r {
            Some(i) => video_index(st@) == Some(i as int),
            None => video_index(st@) == None::<int>,
        },
{
    let ghost p: spec_fn(int) -> bool = |i: int| video_stream(st@[i]);
    let mut k: usize = 0;
    while k < st.len() && !(opt_is(&st[k].codec_type, "video") && !is_attached_pic(&st[k]))
        invariant
            k <= st@.len(),
            p == (|i: int| video_stream(st@[i])),
            forall|j: int| 0 <= j < k ==> !#[trigger] p(j),
        decreases st.len() - k,
    {
        k = k + 1;
    }
    if k < st.len() {
        proof {
            assert(p(k as int));
            lemma_first_where_some(st@.len() as int, p, k as int);
        }
        Some(k)
    } else {
        proof {
            lemma_first_where_none(st@.len() as int, p);
        }
        None
    }
}

/// A duration text in milliseconds.
pub fn parse_duration(o: &Option<String>) -> (r: Option<i64>)
    ensures
        r == opt_int64(duration_ms(sview(*o))),
{
    match o {
        Some(s) => {
            let v = chars_of(s.as_str());
            match parse_decimal(v.as_slice()) {
                Ok(d) => {
                    proof {
                        crate::timecode::lemma_nanos_bound_pub(s@);
                    }
                    let ms = (d.nanos + 500_000) / 1_000_000;
                    if ms > i64::MAX as u128 {
                        None
                    } else if d.neg {
                        Some(-(ms as i64))
                    } else {
                        Some(ms as i64)
                    }
                },
                Err(_) => None,
            }
        },
        None => None,
    }
}

fn parse_u64_field(o: &Option<String>) -> (r: Option<u64>)
    ensures
        r == opt_nat64(uint_field(sview(*o), u64::MAX as nat)),
{
    match o {
        Some(s) => {
            let v = chars_of(s.as_str());
            parse_u64(v.as_slice())
        },
        None => None,
    }
}

fn parse_u32_field(o: &Option<String>) -> (r: Option<u32>)
    ensures
        r == opt_nat32(uint_field(sview(*o), u32::MAX as nat)),
{
    match o {
        Some(s) => {
            let v = chars_of(s.as_str());
            parse_u32(v.as_slice())
        },
        None => None,
    }
}

/// A frame-rate text in thousandths of a frame per second.
fn parse_rate(raw: &str) -> (r: Option<i64>)
    ensures
        r == opt_int64(rate_milli(raw@)),
{
    let v = chars_of(raw);
    let k = crate::text::find_from(v.as_slice(), 0, '/');
    proof {
        lemma_find_char_is(v@, '/', k as int);
    }
    if k == v.len() {
        let s = String::from_str(raw);
        return parse_duration(&Some(s));
    }
    let n = sub_vec(v.as_slice(), 0, k);
    let d = sub_vec(v.as_slice(), k + 1, v.len());
    assert(n@ =~= v@.take(k as int));
    assert(d@ =~= v@.skip(k as int + 1));
    match (parse_decimal(n.as_slice()), parse_decimal(d.as_slice())) {
        (Ok(nd), Ok(dd)) => {
            if dd.nanos == 0 {
                return None;
            }
            proof {
                crate::timecode::lemma_nanos_bound_pub(n@);
                crate::timecode::lemma_nanos_bound_pub(d@);
            }
            let q = (nd.nanos * 2000 + dd.nanos) / (2 * dd.nanos);
            if q > i64::MAX as u128 {
                None
            } else if nd.neg != dd.neg {
                Some(-(q as i64))
            } else {
                Some(q as i64)
            }
        },
        _ => None,
    }
}

/// The frame rate of a stream, from its average rate, else its base rate.
pub fn parse_fps(s: &ProbeStream) -> (r: Option<i64>)
    ensures
        r == opt_int64(fps_of(*s)),
{
    let raw: &str = match &s.avg_frame_rate {
        Some(a) if !str_eq(a.as_str(), "0/0") => a.as_str(),
        _ => match &s.r_frame_rate {
            Some(r) if !str_eq(r.as_str(), "0/0") => r.as_str(),
            _ => return None,
        },
    };
    parse_rate(raw)
}

/// The media info in the probe report of the file at `path`; refused when the file has
/// neither an audio nor a video stream.
pub fn media_info_from_probe(json: &ProbeJson, path: &str) -> (r: Result<MediaInfo, FfmpegError>)
    ensures
        match r {
            Ok(m) => (audio_index(json.streams@) is Some || video_index(json.streams@) is Some)
                && info_matches(json, path@, &m),
            Err(e) => audio_index(json.streams@) is None && video_index(json.streams@) is None
                && e is ProbeFailed && e->ProbeFailed_0@ == "No video or audio stream in file"@,
        },
{
    let st = &json.streams;
    let a = find_audio(st);
    let v = find_video(st);
    if a.is_none() && v.is_none() {
        return Err(FfmpegError::ProbeFailed(String::from_str("No video or audio stream in file")));
    }
    let fdur: Option<i64> = match &json.format {
        Some(f) => parse_duration(&f.duration),
        None => None,
    };
    let vdur: Option<i64> = match v {
        Some(i) => parse_duration(&st[i].duration),
        None => None,
    };
    let adur: Option<i64> = match a {
        Some(i) => parse_duration(&st[i].duration),
        None => None,
    };
    let duration: i64 = match fdur {
        Some(x) => x,
        None => match vdur {
            Some(x) => x,
            None => match adur {
                Some(x) => x,
                None => 0,
            },
        },
    };
    let format_name = match &json.format {
        Some(f) => match &f.format_name {
            Some(n) => n.clone(),
            None => String::from_str("unknown"),
        },
        None => String::from_str("unknown"),
    };
    let bit_rate = match &json.format {
        Some(f) => parse_u64_field(&f.bit_rate),
        None => None,
    };
    let size_bytes = match &json.format {
        Some(f) => parse_u64_field(&f.size),
        None => None,
    };
    let m = MediaInfo {
        path: String::from_str(path),
        duration,
        format_name,
        bit_rate,
        size_bytes,
        has_video: v.is_some(),
        has_audio: a.is_some(),
        audio_codec: match a {
            Some(i) => clone_opt(&st[i].codec_name),
            None => None,
        },
        sample_rate: match a {
            Some(i) => parse_u32_field(&st[i].sample_rate),
            None => None,
        },
        channels: match a {
            Some(i) => st[i].channels,
            None => None,
        },
        video_codec: match v {
            Some(i) => clone_opt(&st[i].codec_name),
            None => None,
        },
        width: match v {
            Some(i) => st[i].width,
            None => None,
        },
        height: match v {
            Some(i) => st[i].height,
            None => None,
        },
        fps: match v {
            Some(i) => parse_fps(&st[i]),
            None => None,
        },
    };
    Ok(m)
}

impl MediaInfo {
    /// The status line of a probed file: `Loaded: <duration> · <kind> · <codecs> · <format>`.
    pub fn loaded_status(&self) -> (r: String)
        ensures
            r@ == "Loaded: "@ + format_seconds_of(self.shown_duration()) + " · "@ + self.kind_text() + " · "@
                + self.codecs_text() + " · "@ + self.format_name@,
    {
        let mut r = String::new();
        push_str(&mut r, "Loaded: ");
        let d = self.duration_label();
        push_str(&mut r, d.as_str());
        push_str(&mut r, " · ");
        push_str(&mut r, self.kind_label());
        push_str(&mut r, " · ");
        let c = self.codecs_label();
        push_str(&mut r, c.as_str());
        push_str(&mut r, " · ");
        push_str(&mut r, self.format_name.as_str());
        r
    }

    /// The duration a label shows: a negative one as zero.
    pub open spec fn shown_duration(&self) -> nat {
        if self.duration < 0 { 0 } else { self.duration as nat }
    }

    pub fn duration_label(&self) -> (r: String)
        ensures
            r@ == format_seconds_of(self.shown_duration()),
    {
        let d: u64 = if self.duration < 0 { 0 } else { self.duration as u64 };
        format_seconds(d)
    }

    /// `W×H`, or `—` when the size is unknown.
    pub fn resolution_label(&self) -> (r: String)
        ensures
            r@ == match (self.width, self.height) {
                (Some(w), Some(h)) => crate::text::dec(w as nat) + seq!['×'] + crate::text::dec(h as nat),
                _ => seq!['—'],
            },
    {
        let mut r = String::new();
        match (self.width, self.height) {
            (Some(w), Some(h)) => {
                push_dec(&mut r, w as u64);
                push_char(&mut r, '×');
                push_dec(&mut r, h as u64);
            },
            _ => push_char(&mut r, '—'),
        }
        assert(r@ =~= match (self.width, self.height) {
            (Some(w), Some(h)) => crate::text::dec(w as nat) + seq!['×'] + crate::text::dec(h as nat),
            _ => seq!['—'],
        });
        r
    }

    pub open spec fn kind_text(&self) -> Seq<char> {
        match (self.has_video, self.has_audio) {
            (true, true) => "video + audio"@,
            (true, false) => "video only"@,
            (false, true) => "audio only"@,
            (false, false) => "unknown"@,
        }
    }

    pub open spec fn codecs_text(&self) -> Seq<char> {
        match (sview(self.video_codec), sview(self.audio_codec)) {
            (Some(v), Some(a)) => "V:"@ + v + " · "@ + "A:"@ + a,
            (Some(v), None) => "V:"@ + v,
            (None, Some(a)) => "A:"@ + a,
            (None, None) => seq!['—'],
        }
    }

    pub fn kind_label(&self) -> (r: &'static str)
        ensures
            r@ == self.kind_text(),
    {
        match (self.has_video, self.has_audio) {
            (true, true) => "video + audio",
            (true, false) => "video only",
            (false, true) => "audio only",
            (false, false) => "unknown",
        }
    }

    /// `V:<video> · A:<audio>` for the codecs that are known, or `—`.
    pub fn codecs_label(&self) -> (r: String)
        ensures
            r@ == self.codecs_text(),
    {
        let mut r = String::new();
        match (&self.video_codec, &self.audio_codec) {
            (Some(v), Some(a)) => {
                push_str(&mut r, "V:");
                push_str(&mut r, v.as_str());
                push_str(&mut r, " · ");
                push_str(&mut r, "A:");
                push_str(&mut r, a.as_str());
            },
            (Some(v), None) => {
                push_str(&mut r, "V:");
                push_str(&mut r, v.as_str());
            },
            (None, Some(a)) => {
                push_str(&mut r, "A:");
                push_str(&mut r, a.as_str());
            },
            (None, None) => push_char(&mut r, '—'),
        }
        assert(r@ =~= match (sview(self.video_codec), sview(self.audio_codec)) {
            (Some(v), Some(a)) => "V:"@ + v + " · "@ + "A:"@ + a,
            (Some(v), None) => "V:"@ + v,
            (None, Some(a)) => "A:"@ + a,
            (None, None) => seq!['—'],
        });
        r
    }
}

/// The media info describes the first audio stream and the first video stream that is not
/// a cover picture: fields of a stream with none of its kind before it.
pub proof fn law_info_from_first_streams(json: &ProbeJson, path: Seq<char>, m: &MediaInfo, ia: int, iv: int)
    requires
        info_matches(json, path, m),
    ensures
        0 <= ia < json.streams@.len() && audio_stream(json.streams@[ia]) && (forall|j: int|
            0 <= j < ia ==> !audio_stream(#[trigger] json.streams@[j])) ==> {
            let st = json.streams@[ia];
            &&& sview(m.audio_codec) == sview(st.codec_name)
            &&& m.channels == st.channels
            &&& m.sample_rate == opt_nat32(uint_field(sview(st.sample_rate), u32::MAX as nat))
            &&& m.has_audio
        },
        0 <= iv < json.streams@.len() && video_stream(json.streams@[iv]) && (forall|j: int|
            0 <= j < iv ==> !video_stream(#[trigger] json.streams@[j])) ==> {
            let st = json.streams@[iv];
            &&& sview(m.video_codec) == sview(st.codec_name)
            &&& m.width == st.width
            &&& m.height == st.height
            &&& m.fps == opt_int64(fps_of(st))
            &&& m.has_video
        },
        m.has_audio <==> exists|i: int| 0 <= i < json.streams@.len() && audio_stream(#[trigger] json.streams@[i]),
        m.has_video <==> exists|i: int| 0 <= i < json.streams@.len() && video_stream(#[trigger] json.streams@[i]),
{
    let st = json.streams@;
    let pa = |i: int| audio_stream(st[i]);
    let pv = |i: int| video_stream(st[i]);
    lemma_first_where_in(st.len() as int, pa);
    lemma_first_where_in(st.len() as int, pv);
    if 0 <= ia < st.len() && audio_stream(st[ia]) && (forall|j: int| 0 <= j < ia ==> !audio_stream(#[trigger] st[j])) {
        assert forall|j: int| 0 <= j < ia implies !#[trigger] pa(j) by {
            assert(!audio_stream(st[j]));
        }
        lemma_first_where_some(st.len() as int, pa, ia);
    }
    if 0 <= iv < st.len() && video_stream(st[iv]) && (forall|j: int| 0 <= j < iv ==> !video_stream(#[trigger] st[j])) {
        assert forall|j: int| 0 <= j < iv implies !#[trigger] pv(j) by {
            assert(!video_stream(st[j]));
        }
        lemma_first_where_some(st.len() as int, pv, iv);
    }
    if exists|i: int| 0 <= i < st.len() && audio_stream(#[trigger] st[i]) {
        let w = choose|i: int| 0 <= i < st.len() && audio_stream(#[trigger] st[i]);
        assert(pa(w));
    } else {
        lemma_first_where_none(st.len() as int, pa);
    }
    if exists|i: int| 0 <= i < st.len() && video_stream(#[trigger] st[i]) {
        let w = choose|i: int| 0 <= i < st.len() && video_stream(#[trigger] st[i]);
        assert(pv(w));
    } else {
        lemma_first_where_none(st.len() as int, pv);
    }
}

} // verus!
