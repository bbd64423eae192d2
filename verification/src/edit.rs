//! The edit timeline: pieces of the source that are kept (after blading and deleting),
//! the selected piece, undo, the selection range, and where program playback goes.
//! Times are whole milliseconds.

use vstd::prelude::*;
use crate::ffmpeg::KeepSegment;

verus! {

/// The first position `i < n` where `p` holds.
pub open spec fn first_where(n: int, p: spec_fn(int) -> bool) -> Option<int> {
    if exists|i: int| 0 <= i < n && #[trigger] p(i) {
        Some(choose|i: int| 0 <= i < n && #[trigger] p(i) && forall|j: int| 0 <= j < i ==> !#[trigger] p(j))
    } else {
        None
    }
}

pub proof fn lemma_first_where_some(n: int, p: spec_fn(int) -> bool, i: int)
    requires
        0 <= i < n,
        p(i),
        forall|j: int| 0 <= j < i ==> !#[trigger] p(j),
    ensures
        first_where(n, p) == Some(i),
{
    let k = choose|k: int| 0 <= k < n && #[trigger] p(k) && forall|j: int| 0 <= j < k ==> !#[trigger] p(j);
    assert(0 <= k < n && p(k) && forall|j: int| 0 <= j < k ==> !#[trigger] p(j));
    if k < i {
        assert(!p(k));
    }
    if i < k {
        assert(!p(i));
    }
}

/// What `first_where` returns is a position below `n` where `p` holds, with no earlier one.
pub proof fn lemma_first_where_in(n: int, p: spec_fn(int) -> bool)
    ensures
        first_where(n, p) matches Some(i) ==> 0 <= i < n && p(i) && forall|j: int|
            0 <= j < i ==> !#[trigger] p(j),
{
    if exists|i: int| 0 <= i < n && #[trigger] p(i) {
        let w = choose|i: int| 0 <= i < n && #[trigger] p(i);
        lemma_least(n, p, w);
    }
}

proof fn lemma_least(n: int, p: spec_fn(int) -> bool, w: int)
    requires
        0 <= w < n,
        p(w),
    ensures
        exists|i: int| 0 <= i < n && #[trigger] p(i) && forall|j: int| 0 <= j < i ==> !#[trigger] p(j),
    decreases w,
{
    if exists|j: int| 0 <= j < w && #[trigger] p(j) {
        let v = choose|j: int| 0 <= j < w && #[trigger] p(j);
        lemma_least(n, p, v);
    } else {
        assert(0 <= w < n && p(w) && forall|j: int| 0 <= j < w ==> !#[trigger] p(j));
    }
}

pub proof fn lemma_first_where_none(n: int, p: spec_fn(int) -> bool)
    requires
        forall|j: int| 0 <= j < n ==> !#[trigger] p(j),
    ensures
        first_where(n, p) == None::<int>,
{
}

/// Each piece is non-empty, and the pieces are in source order without overlap.
pub open spec fn clips_ok(c: Seq<KeepSegment>) -> bool {
    &&& forall|i: int| 0 <= i < c.len() ==> #[trigger] c[i].start < c[i].end
    &&& forall|i: int, j: int| 0 <= i < j < c.len() ==> #[trigger] c[i].end <= #[trigger] c[j].start
}

/// The sum of the lengths of the pieces.
pub open spec fn total_len(c: Seq<KeepSegment>) -> nat
    decreases c.len(),
{
    if c.len() == 0 {
        0
    } else {
        total_len(c.drop_last()) + c.last().len_of()
    }
}

/// Time `x` lies in one of the pieces.
pub open spec fn covers(c: Seq<KeepSegment>, x: int) -> bool {
    exists|i: int| 0 <= i < c.len() && #[trigger] c[i].start <= x < c[i].end
}

/// The abstract state of the edit timeline.
pub ghost struct EditView {
    pub clips: Seq<KeepSegment>,
    pub selected: Option<usize>,
    pub undo: Seq<Seq<KeepSegment>>,
    pub start: u64,
    pub end: u64,
}

impl EditView {
    /// The invariant every reachable state keeps.
    pub open spec fn wf(self) -> bool {
        &&& clips_ok(self.clips)
        &&& (self.selected matches Some(i) ==> i < self.clips.len())
        &&& self.undo.len() <= 32
        &&& forall|k: int| 0 <= k < self.undo.len() ==> clips_ok(#[trigger] self.undo[k])
    }
}

/// The undo stack after saving `clips`: at most 32 snapshots, the oldest dropped first.
pub open spec fn push_undo_of(undo: Seq<Seq<KeepSegment>>, clips: Seq<KeepSegment>) -> Seq<Seq<KeepSegment>> {
    let u = undo.push(clips);
    if u.len() > 32 { u.drop_first() } else { u }
}

/// The timeline for media of length `d`: one piece over the whole file (when it is
/// longer than 50 ms), selected; or nothing.
pub open spec fn init_of(a: EditView, d: nat) -> EditView {
    if d <= 50 {
        EditView { clips: seq![], selected: None, ..a }
    } else {
        EditView {
            clips: seq![KeepSegment { start: 0, end: d as u64 }],
            selected: Some(0),
            undo: seq![],
            ..a
        }
    }
}

/// The pieces an edit works on: the current ones, or the whole file when there are none.
pub open spec fn prepared(a: EditView, d: nat) -> EditView {
    if a.clips.len() == 0 { init_of(a, d) } else { a }
}

/// `t` lies in piece `c` more than 50 ms from either end.
pub open spec fn bladeable(c: KeepSegment, t: int) -> bool {
    t > c.start + 50 && t + 50 < c.end
}

/// The piece a blade at `t` cuts.
pub open spec fn blade_index(c: Seq<KeepSegment>, t: int) -> Option<int> {
    first_where(c.len() as int, |i: int| bladeable(c[i], t))
}

/// What a blade did.
#[derive(Debug, Clone, Copy, PartialEq, Eq, Structural)]
pub enum BladeResult {
    /// Piece `index` was cut in two at the playhead; there are now `pieces` pieces.
    Split { index: usize, pieces: usize },
    /// The playhead is not inside a piece (away from its ends).
    NotOnPiece,
}

/// The state after a blade at `t`.
pub open spec fn blade_next(a: EditView, t: int, d: nat) -> EditView {
    let b = prepared(a, d);
    match blade_index(b.clips, t) {
        None => b,
        Some(i) => EditView {
            clips: b.clips.update(i, KeepSegment { start: b.clips[i].start, end: t as u64 }).insert(
                i + 1,
                KeepSegment { start: t as u64, end: b.clips[i].end },
            ),
            selected: None,
            undo: push_undo_of(b.undo, b.clips),
            ..b
        },
    }
}

/// What a delete did.
#[derive(Debug, Clone, Copy, PartialEq, Eq, Structural)]
pub enum DeleteResult {
    /// The selected piece was dropped; the playhead goes to `playhead`.
    Deleted { playhead: u64 },
    /// No piece is selected.
    NoSelection,
    /// The only piece cannot be deleted.
    OnlyPiece,
}

/// Where the playhead parks after deleting piece `i`: near the end of the piece on its
/// left, else at the start of the piece after it.
pub open spec fn park_after_delete(c: Seq<KeepSegment>, i: int) -> int {
    if i > 0 {
        let left = c[i - 1];
        if left.end >= left.start + 150 { left.end - 150 } else { left.start as int }
    } else if i + 1 < c.len() {
        c[i + 1].start as int
    } else {
        0
    }
}

/// The piece to select after a delete: the first that holds `ph` (1 ms slack), else the first.
pub open spec fn select_after_delete(c: Seq<KeepSegment>, ph: int) -> int {
    match first_where(c.len() as int, |k: int| ph + 1 >= c[k].start && ph <= c[k].end + 1) {
        Some(k) => k,
        None => 0,
    }
}

/// `x` clamped into `[lo, hi]`.
pub open spec fn clamp_int(x: int, lo: int, hi: int) -> int {
    if x < lo { lo } else if x > hi { hi } else { x }
}

/// The state after deleting the selected piece, and what happened.
pub open spec fn delete_of(a: EditView, d: nat) -> (EditView, DeleteResult) {
    let b = prepared(a, d);
    match b.selected {
        None => (b, DeleteResult::NoSelection),
        Some(i) => if i >= b.clips.len() {
            (EditView { selected: None, ..b }, DeleteResult::NoSelection)
        } else if b.clips.len() == 1 {
            (b, DeleteResult::OnlyPiece)
        } else {
            let ph_after = park_after_delete(b.clips, i as int);
            let rest = b.clips.remove(i as int);
            let sel = select_after_delete(rest, ph_after);
            let s = rest[sel];
            let hi = if s.end >= s.start + 20 { s.end - 20 } else { s.start as int };
            (
                EditView {
                    clips: rest,
                    selected: Some(sel as usize),
                    undo: push_undo_of(b.undo, b.clips),
                    start: s.start,
                    end: s.end,
                },
                DeleteResult::Deleted { playhead: clamp_int(ph_after, s.start as int, hi) as u64 },
            )
        },
    }
}

/// The state after undo: the last snapshot comes back (selection kept in range).
pub open spec fn undo_of(a: EditView) -> EditView {
    if a.undo.len() == 0 {
        a
    } else {
        let c = a.undo.last();
        EditView {
            clips: c,
            selected: if c.len() == 0 {
                None
            } else {
                let s = match a.selected {
                    Some(x) => x as int,
                    None => 0,
                };
                Some((if s < c.len() - 1 { s } else { c.len() - 1 }) as usize)
            },
            undo: a.undo.drop_last(),
            ..a
        }
    }
}

/// The selection range kept inside `[0, d]` (when `d` is known) and at least 50 ms long.
pub open spec fn clamp_range_of(s: int, e: int, d: int) -> (int, int) {
    let s1 = if d > 0 { clamp_int(s, 0, d) } else { s };
    let e1 = if d > 0 { clamp_int(e, 0, d) } else { e };
    if e1 <= s1 {
        if d > 0 {
            if s1 + 50 <= d {
                (s1, s1 + 50)
            } else {
                (if d - 50 > 0 { d - 50 } else { 0 }, d)
            }
        } else {
            (s1, if s1 + 50 <= u64::MAX { s1 + 50 } else { u64::MAX as int })
        }
    } else {
        (s1, e1)
    }
}

/// The pieces that are exported and played: the timeline's pieces, or the whole file.
pub open spec fn keep_segments_of(a: EditView, d: nat) -> Seq<KeepSegment> {
    if a.clips.len() > 0 {
        a.clips
    } else if d > 50 {
        seq![KeepSegment { start: 0, end: d as u64 }]
    } else {
        seq![]
    }
}

/// The end of the run of pieces from piece `j` on whose gaps are at most 80 ms
/// (`end` is where the run reached so far).
pub open spec fn run_end(c: Seq<KeepSegment>, j: int, end: int) -> (int, int)
    decreases c.len() - j,
{
    if j + 1 < c.len() && 0 <= j && c[j + 1].start <= end + 80 {
        run_end(c, j + 1, c[j + 1].end as int)
    } else {
        (j, end)
    }
}

/// The piece program playback from `from` starts in: the one holding `from` (1 ms slack,
/// the left one on a cut line), else the next one after a deleted gap, else the first.
pub open spec fn play_piece(c: Seq<KeepSegment>, from: int) -> int {
    match first_where(c.len() as int, |i: int| from + 1 >= c[i].start && from <= c[i].end + 1) {
        Some(i) => i,
        None => match first_where(c.len() as int, |i: int| from < c[i].start) {
            Some(i) => i,
            None => 0,
        },
    }
}

/// The contiguous range program playback from `from` covers: up to the next deleted gap.
pub open spec fn play_range_in(c: Seq<KeepSegment>, from: int) -> Option<(int, int)> {
    if c.len() == 0 {
        None
    } else {
        let i = play_piece(c, from);
        let p = c[i];
        let start = if from >= p.start && from < p.end {
            from
        } else if from + 50 >= p.end && from <= p.end + 50 {
            if p.end >= p.start + 250 { p.end - 250 } else { p.start as int }
        } else {
            p.start as int
        };
        Some((start, run_end(c, i, p.end as int).1))
    }
}

/// Where playback continues when it reaches `t`: the next run after a deleted gap.
pub open spec fn next_after_in(c: Seq<KeepSegment>, t: int) -> Option<(int, int)> {
    match first_where(c.len() as int, |i: int| t + 120 >= c[i].end && t <= c[i].end + 250) {
        Some(i) => {
            let (j, end) = run_end(c, i, c[i].end as int);
            if t + 120 < end {
                None
            } else if j + 1 < c.len() {
                let n = c[j + 1].start as int;
                Some((n, play_range_in(c, n).unwrap().1))
            } else {
                None
            }
        },
        None => match first_where(c.len() as int, |i: int| c[i].start > t + 10) {
            Some(i) => {
                let n = c[i].start as int;
                Some((n, play_range_in(c, n).unwrap().1))
            },
            None => None,
        },
    }
}

/// `a` and `b` are less than half a second apart.
pub open spec fn within_half_second(a: int, b: int) -> bool {
    a - b < 500 && b - a < 500
}

/// Removing a piece keeps the pieces in order.
proof fn lemma_remove_ok(c: Seq<KeepSegment>, i: int)
    requires
        clips_ok(c),
        0 <= i < c.len(),
    ensures
        clips_ok(c.remove(i)),
{
    let rest = c.remove(i);
    assert forall|k: int| 0 <= k < rest.len() implies #[trigger] rest[k].start < rest[k].end by {
        if k < i {
            assert(rest[k] == c[k]);
        } else {
            assert(rest[k] == c[k + 1]);
        }
    }
    assert forall|x: int, y: int| 0 <= x < y < rest.len() implies #[trigger] rest[x].end
        <= #[trigger] rest[y].start by {
        let ox = if x < i { x } else { x + 1 };
        let oy = if y < i { y } else { y + 1 };
        assert(rest[x] == c[ox]);
        assert(rest[y] == c[oy]);
    }
}

/// Where the playhead parks after deleting piece `i` of `c`.
fn park_position(c: &[KeepSegment], i: usize) -> (r: u64)
    requires
        i < c@.len(),
        c@.len() >= 2,
    ensures
        r as int == park_after_delete(c@, i as int),
{
    if i > 0 {
        let left = c[i - 1];
        if left.end as u128 >= left.start as u128 + 150 { left.end - 150 } else { left.start }
    } else if i + 1 < c.len() {
        c[i + 1].start
    } else {
        0
    }
}

/// The piece to select after a delete, for the parked playhead `ph`.
fn select_position(c: &[KeepSegment], ph: u64) -> (r: usize)
    requires
        c@.len() >= 1,
    ensures
        r as int == select_after_delete(c@, ph as int),
        r < c@.len(),
{
    let ghost p: spec_fn(int) -> bool = |k: int| ph as int + 1 >= c@[k].start && ph as int <= c@[k].end + 1;
    assert(select_after_delete(c@, ph as int) == match first_where(c@.len() as int, p) {
        Some(k) => k,
        None => 0,
    });
    let mut k: usize = 0;
    while k < c.len() && !(ph as u128 + 1 >= c[k].start as u128 && ph as u128 <= c[k].end as u128 + 1)
        invariant
            k <= c@.len(),
            p == (|k: int| ph as int + 1 >= c@[k].start && ph as int <= c@[k].end + 1),
            forall|j: int| 0 <= j < k ==> !#[trigger] p(j),
        decreases c.len() - k,
    {
        k = k + 1;
    }
    if k < c.len() {
        proof {
            assert(p(k as int));
            lemma_first_where_some(c@.len() as int, p, k as int);
        }
        k
    } else {
        proof {
            lemma_first_where_none(c@.len() as int, p);
        }
        0
    }
}

/// The end of the run of pieces from piece `i` (gaps of at most 80 ms joined).
fn run_end_from(c: &[KeepSegment], i: usize) -> (r: (usize, u64))
    requires
        i < c@.len(),
    ensures
        (r.0 as int, r.1 as int) == run_end(c@, i as int, c@[i as int].end as int),
        r.0 < c@.len(),
{
    let mut j = i;
    let mut end = c[i].end;
    while j + 1 < c.len() && (c[j + 1].start as u128) <= (end as u128) + 80
        invariant
            i <= j < c@.len(),
            run_end(c@, j as int, end as int) == run_end(c@, i as int, c@[i as int].end as int),
        decreases c.len() - j,
    {
        j = j + 1;
        end = c[j].end;
    }
    (j, end)
}

/// The first piece holding `from` (1 ms slack), if any.
fn holding_piece(c: &[KeepSegment], from: u64) -> (r: Option<usize>)
    ensures
        r matches Some(i) ==> i < c@.len(),
        match r {
            Some(i) => first_where(c@.len() as int, |i: int| from as int + 1 >= c@[i].start && from as int <= c@[i].end + 1) == Some(i as int),
            None => first_where(c@.len() as int, |i: int| from as int + 1 >= c@[i].start && from as int <= c@[i].end + 1) == None::<int>,
        },
{
    let ghost p: spec_fn(int) -> bool = |i: int| from as int + 1 >= c@[i].start && from as int <= c@[i].end + 1;
    let mut k: usize = 0;
    while k < c.len() && !(from as u128 + 1 >= c[k].start as u128 && from as u128 <= c[k].end as u128 + 1)
        invariant
            k <= c@.len(),
            p == (|i: int| from as int + 1 >= c@[i].start && from as int <= c@[i].end + 1),
            forall|j: int| 0 <= j < k ==> !#[trigger] p(j),
        decreases c.len() - k,
    {
        k = k + 1;
    }
    if k < c.len() {
        proof {
            assert(p(k as int));
            lemma_first_where_some(c@.len() as int, p, k as int);
        }
        Some(k)
    } else {
        proof {
            lemma_first_where_none(c@.len() as int, p);
        }
        None
    }
}

/// The first piece that starts after `from`, if any.
fn piece_after(c: &[KeepSegment], from: u64) -> (r: Option<usize>)
    ensures
        r matches Some(i) ==> i < c@.len(),
        match r {
            Some(i) => first_where(c@.len() as int, |i: int| from < c@[i].start) == Some(i as int),
            None => first_where(c@.len() as int, |i: int| from < c@[i].start) == None::<int>,
        },
{
    let ghost p: spec_fn(int) -> bool = |i: int| from < c@[i].start;
    let mut k: usize = 0;
    while k < c.len() && !(from < c[k].start)
        invariant
            k <= c@.len(),
            p == (|i: int| from < c@[i].start),
            forall|j: int| 0 <= j < k ==> !#[trigger] p(j),
        decreases c.len() - k,
    {
        k = k + 1;
    }
    if k < c.len() {
        proof {
            assert(p(k as int));
            lemma_first_where_some(c@.len() as int, p, k as int);
        }
        Some(k)
    } else {
        proof {
            lemma_first_where_none(c@.len() as int, p);
        }
        None
    }
}

/// The range program playback from `from` covers within the pieces `c`.
pub fn play_range(c: &[KeepSegment], from: u64) -> (r: Option<(u64, u64)>)
    ensures
        match play_range_in(c@, from as int) {
            Some((a, b)) => r == Some((a as u64, b as u64)),
            None => r is None,
        },
{
    if c.len() == 0 {
        return None;
    }
    let i: usize = match holding_piece(c, from) {
        Some(i) => i,
        None => match piece_after(c, from) {
            Some(i) => i,
            None => 0,
        },
    };
    assert(i as int == play_piece(c@, from as int));
    let p = c[i];
    let start: u64 = if from >= p.start && from < p.end {
        from
    } else if from as u128 + 50 >= p.end as u128 && from as u128 <= p.end as u128 + 50 {
        if p.end as u128 >= p.start as u128 + 250 { p.end - 250 } else { p.start }
    } else {
        p.start
    };
    let (_, end) = run_end_from(c, i);
    Some((start, end))
}

/// The first piece whose end `t` is at or just past (120 ms before to 250 ms after).
fn ending_piece(c: &[KeepSegment], t: u64) -> (r: Option<usize>)
    ensures
        r matches Some(i) ==> i < c@.len(),
        match r {
            Some(i) => first_where(c@.len() as int, |i: int| t + 120 >= c@[i].end && t <= c@[i].end + 250) == Some(i as int),
            None => first_where(c@.len() as int, |i: int| t + 120 >= c@[i].end && t <= c@[i].end + 250) == None::<int>,
        },
{
    let ghost p: spec_fn(int) -> bool = |i: int| t + 120 >= c@[i].end && t <= c@[i].end + 250;
    let mut k: usize = 0;
    while k < c.len() && !(t as u128 + 120 >= c[k].end as u128 && t as u128 <= c[k].end as u128 + 250)
        invariant
            k <= c@.len(),
            p == (|i: int| t + 120 >= c@[i].end && t <= c@[i].end + 250),
            forall|j: int| 0 <= j < k ==> !#[trigger] p(j),
        decreases c.len() - k,
    {
        k = k + 1;
    }
    if k < c.len() {
        proof {
            assert(p(k as int));
            lemma_first_where_some(c@.len() as int, p, k as int);
        }
        Some(k)
    } else {
        proof {
            lemma_first_where_none(c@.len() as int, p);
        }
        None
    }
}

/// The first piece that starts more than 10 ms after `t`.
fn start_after(c: &[KeepSegment], t: u64) -> (r: Option<usize>)
    ensures
        r matches Some(i) ==> i < c@.len(),
        match r {
            Some(i) => first_where(c@.len() as int, |i: int| c@[i].start > t + 10) == Some(i as int),
            None => first_where(c@.len() as int, |i: int| c@[i].start > t + 10) == None::<int>,
        },
{
    let ghost p: spec_fn(int) -> bool = |i: int| c@[i].start > t + 10;
    let mut k: usize = 0;
    while k < c.len() && !(c[k].start as u128 > t as u128 + 10)
        invariant
            k <= c@.len(),
            p == (|i: int| c@[i].start > t + 10),
            forall|j: int| 0 <= j < k ==> !#[trigger] p(j),
        decreases c.len() - k,
    {
        k = k + 1;
    }
    if k < c.len() {
        proof {
            assert(p(k as int));
            lemma_first_where_some(c@.len() as int, p, k as int);
        }
        Some(k)
    } else {
        proof {
            lemma_first_where_none(c@.len() as int, p);
        }
        None
    }
}

/// Where playback continues after reaching `t` within the pieces `c`.
pub fn next_after(c: &[KeepSegment], t: u64) -> (r: Option<(u64, u64)>)
    ensures
        match next_after_in(c@, t as int) {
            Some((a, b)) => r == Some((a as u64, b as u64)),
            None => r is None,
        },
{
    match ending_piece(c, t) {
        Some(i) => {
            let (j, end) = run_end_from(c, i);
            if (t as u128) + 120 < end as u128 {
                return None;
            }
            if j + 1 < c.len() {
                let n = c[j + 1].start;
                match play_range(c, n) {
                    Some((_, stop)) => Some((n, stop)),
                    None => None,
                }
            } else {
                None
            }
        },
        None => match start_after(c, t) {
            Some(i) => {
                let n = c[i].start;
                match play_range(c, n) {
                    Some((_, stop)) => Some((n, stop)),
                    None => None,
                }
            },
            None => None,
        },
    }
}

proof fn lemma_total_concat(a: Seq<KeepSegment>, b: Seq<KeepSegment>)
    ensures
        total_len(a + b) == total_len(a) + total_len(b),
    decreases b.len(),
{
    if b.len() > 0 {
        assert((a + b).drop_last() =~= a + b.drop_last());
        lemma_total_concat(a, b.drop_last());
    } else {
        assert(a + b =~= a);
    }
}

proof fn lemma_total_split(c: Seq<KeepSegment>, i: int)
    requires
        0 <= i < c.len(),
    ensures
        total_len(c) == total_len(c.take(i)) + c[i].len_of() + total_len(c.skip(i + 1)),
{
    let x = c.take(i);
    let y = c.skip(i + 1);
    let m = seq![c[i]];
    assert(c =~= x + m + y);
    lemma_total_concat(x + m, y);
    lemma_total_concat(x, m);
    assert(m.drop_last() =~= Seq::<KeepSegment>::empty());
    assert(total_len(Seq::<KeepSegment>::empty()) == 0);
    assert(total_len(m) == c[i].len_of());
}

/// A blade keeps what is kept: piece `i` at `t` becomes two pieces that meet at `t`, one
/// piece more, the same total length, and the same moments of the source covered.
pub proof fn law_blade_keeps_content(a: EditView, t: int, d: nat)
    requires
        a.wf(),
        blade_index(prepared(a, d).clips, t) is Some,
    ensures
        ({
            let before = prepared(a, d).clips;
            let after = blade_next(a, t, d).clips;
            let i = blade_index(before, t).unwrap();
            &&& after.len() == before.len() + 1
            &&& after[i] == (KeepSegment { start: before[i].start, end: t as u64 })
            &&& after[i + 1] == (KeepSegment { start: t as u64, end: before[i].end })
            &&& total_len(after) == total_len(before)
            &&& forall|x: int| covers(after, x) <==> covers(before, x)
        }),
{
    let b = prepared(a, d);
    let before = b.clips;
    let i = blade_index(before, t).unwrap();
    lemma_first_where_in(before.len() as int, |k: int| bladeable(before[k], t));
    assert(0 <= i < before.len() && bladeable(before[i], t));
    let l = KeepSegment { start: before[i].start, end: t as u64 };
    let r = KeepSegment { start: t as u64, end: before[i].end };
    let after = before.update(i, l).insert(i + 1, r);
    assert(blade_next(a, t, d).clips == after);
    lemma_total_split(before, i);
    assert(after =~= before.take(i) + seq![l, r] + before.skip(i + 1));
    lemma_total_concat(before.take(i) + seq![l, r], before.skip(i + 1));
    lemma_total_concat(before.take(i), seq![l, r]);
    assert(seq![l, r].drop_last() =~= seq![l]);
    assert(seq![l].drop_last() =~= Seq::<KeepSegment>::empty());
    assert(total_len(Seq::<KeepSegment>::empty()) == 0);
    assert(total_len(seq![l]) == l.len_of());
    assert(total_len(seq![l, r]) == l.len_of() + r.len_of());
    assert(l.len_of() + r.len_of() == before[i].len_of());
    assert(total_len(after) == total_len(before));
    assert(after.len() == before.len() + 1);
    assert forall|x: int| covers(after, x) <==> covers(before, x) by {
        if covers(before, x) {
            let k = choose|k: int| 0 <= k < before.len() && #[trigger] before[k].start <= x < before[k].end;
            if k < i {
                assert(after[k] == before[k]);
                assert(after[k].start <= x < after[k].end);
            } else if k > i {
                assert(after[k + 1] == before[k]);
                assert(after[k + 1].start <= x < after[k + 1].end);
            } else if x < t {
                assert(after[i] == l);
                assert(after[i].start <= x < after[i].end);
            } else {
                assert(after[i + 1] == r);
                assert(after[i + 1].start <= x < after[i + 1].end);
            }
        }
        if covers(after, x) {
            let k = choose|k: int| 0 <= k < after.len() && #[trigger] after[k].start <= x < after[k].end;
            if k < i {
                assert(after[k] == before[k]);
                assert(before[k].start <= x < before[k].end);
            } else if k > i + 1 {
                assert(after[k] == before[k - 1]);
                assert(before[k - 1].start <= x < before[k - 1].end);
            } else {
                assert(before[i].start <= x < before[i].end);
            }
        }
    }
}

/// A delete drops exactly the selected piece: the others stay, in order, and the total
/// shrinks by its length.
pub proof fn law_delete_drops_selected(a: EditView, d: nat)
    requires
        a.wf(),
        delete_of(a, d).1 is Deleted,
    ensures
        ({
            let before = prepared(a, d).clips;
            let i = prepared(a, d).selected.unwrap() as int;
            let after = delete_of(a, d).0.clips;
            &&& after == before.remove(i)
            &&& total_len(after) + before[i].len_of() == total_len(before)
        }),
{
    let b = prepared(a, d);
    let i = b.selected.unwrap() as int;
    lemma_total_split(b.clips, i);
    assert(b.clips.remove(i) =~= b.clips.take(i) + b.clips.skip(i + 1));
    lemma_total_concat(b.clips.take(i), b.clips.skip(i + 1));
}

/// Undo after a blade brings back the pieces as they were before it.
pub proof fn law_undo_after_blade(a: EditView, t: int, d: nat)
    requires
        a.wf(),
        blade_index(prepared(a, d).clips, t) is Some,
    ensures
        undo_of(blade_next(a, t, d)).clips == prepared(a, d).clips,
{
}

/// Undo after a delete brings back the pieces as they were before it.
pub proof fn law_undo_after_delete(a: EditView, d: nat)
    requires
        a.wf(),
        delete_of(a, d).1 is Deleted,
    ensures
        undo_of(delete_of(a, d).0).clips == prepared(a, d).clips,
{
}

proof fn lemma_run_end_grows(c: Seq<KeepSegment>, j: int, end: int)
    requires
        clips_ok(c),
        0 <= j < c.len(),
        end <= c[j].end,
    ensures
        run_end(c, j, end).1 >= end,
        0 <= run_end(c, j, end).0 < c.len(),
        run_end(c, j, end).0 >= j,
        (run_end(c, j, end).0 == j && run_end(c, j, end).1 == end) || run_end(c, j, end).1
            == c[run_end(c, j, end).0].end,
    decreases c.len() - j,
{
    if j + 1 < c.len() && c[j + 1].start <= end + 80 {
        assert(c[j].end <= c[j + 1].start);
        assert(c[j + 1].start < c[j + 1].end);
        lemma_run_end_grows(c, j + 1, c[j + 1].end as int);
    }
}

/// Program playback starts no later than it stops, and stops at the end of a piece.
pub proof fn law_play_range_ordered(c: Seq<KeepSegment>, from: int)
    requires
        clips_ok(c),
        play_range_in(c, from) is Some,
    ensures
        play_range_in(c, from).unwrap().0 <= play_range_in(c, from).unwrap().1,
        exists|k: int| 0 <= k < c.len() && #[trigger] c[k].end == play_range_in(c, from).unwrap().1,
{
    let i = play_piece(c, from);
    lemma_first_where_in(c.len() as int, |k: int| from + 1 >= c[k].start && from <= c[k].end + 1);
    lemma_first_where_in(c.len() as int, |k: int| from < c[k].start);
    assert(0 <= i < c.len());
    lemma_run_end_grows(c, i, c[i].end as int);
    let k = run_end(c, i, c[i].end as int).0;
    assert(c[k].end == play_range_in(c, from).unwrap().1 || c[i].end == play_range_in(c, from).unwrap().1);
}

proof fn lemma_run_end_stops(c: Seq<KeepSegment>, j: int, end: int)
    requires
        0 <= j < c.len(),
        end == c[j].end,
    ensures
        j <= run_end(c, j, end).0 < c.len(),
        run_end(c, j, end).1 == c[run_end(c, j, end).0].end,
        run_end(c, j, end).0 + 1 == c.len() || c[run_end(c, j, end).0 + 1].start > c[run_end(c, j, end).0].end
            + 80,
    decreases c.len() - j,
{
    if j + 1 < c.len() && c[j + 1].start <= end + 80 {
        lemma_run_end_stops(c, j + 1, c[j + 1].end as int);
    }
}

/// Playback that jumps a deleted gap plays the whole run it lands in: the stop is where
/// program playback from the new position stops, the end of a piece after which the next
/// piece (if any) starts more than 80 ms later.
pub proof fn law_next_after_plays_whole_run(c: Seq<KeepSegment>, t: int)
    requires
        next_after_in(c, t) is Some,
    ensures
        ({
            let (n, stop) = next_after_in(c, t).unwrap();
            &&& play_range_in(c, n) matches Some((_, e)) && e == stop
            &&& exists|k: int|
                0 <= k < c.len() && #[trigger] c[k].end == stop && (k + 1 == c.len() || c[k + 1].start
                    > c[k].end + 80)
        }),
{
    let (n, stop) = next_after_in(c, t).unwrap();
    assert(c.len() > 0);
    let i = play_piece(c, n);
    lemma_first_where_in(c.len() as int, |k: int| n + 1 >= c[k].start && n <= c[k].end + 1);
    lemma_first_where_in(c.len() as int, |k: int| n < c[k].start);
    assert(0 <= i < c.len());
    lemma_run_end_stops(c, i, c[i].end as int);
    let k = run_end(c, i, c[i].end as int).0;
    assert(play_range_in(c, n).unwrap().1 == stop);
    assert(c[k].end == stop);
}

/// Blades applied one after another at the times `ts`.
pub open spec fn blade_all(a: EditView, ts: Seq<int>, d: nat) -> EditView
    decreases ts.len(),
{
    if ts.len() == 0 {
        a
    } else {
        blade_next(blade_all(a, ts.drop_last(), d), ts.last(), d)
    }
}

/// Undo applied `k` times.
pub open spec fn undo_times(a: EditView, k: nat) -> EditView
    decreases k,
{
    if k == 0 {
        a
    } else {
        undo_times(undo_of(a), (k - 1) as nat)
    }
}

proof fn lemma_blade_all(a: EditView, ts: Seq<int>, d: nat)
    requires
        a.clips.len() > 0,
        a.undo.len() == 0,
        ts.len() <= 32,
        forall|m: int| 0 <= m < ts.len() ==> (#[trigger] blade_index(blade_all(a, ts.take(m), d).clips, ts[m])) is Some,
    ensures
        blade_all(a, ts, d).clips.len() > 0,
        blade_all(a, ts, d).undo.len() == ts.len(),
        ts.len() > 0 ==> blade_all(a, ts, d).undo[0] == a.clips,
    decreases ts.len(),
{
    if ts.len() > 0 {
        let p = ts.drop_last();
        assert forall|m: int| 0 <= m < p.len() implies (#[trigger] blade_index(blade_all(a, p.take(m), d).clips, p[m])) is Some by {
            assert(p.take(m) =~= ts.take(m));
            assert(p[m] == ts[m]);
            assert(blade_index(blade_all(a, ts.take(m), d).clips, ts[m]) is Some);
        }
        lemma_blade_all(a, p, d);
        let x = blade_all(a, p, d);
        assert(ts.take(ts.len() - 1) =~= p);
        assert(blade_index(blade_all(a, ts.take(ts.len() - 1), d).clips, ts[ts.len() - 1]) is Some);
        assert(prepared(x, d) == x);
        let i = blade_index(x.clips, ts.last()).unwrap();
        lemma_first_where_in(x.clips.len() as int, |k: int| bladeable(x.clips[k], ts.last()));
        if p.len() == 0 {
            assert(x == a);
        }
    }
}

proof fn lemma_undo_times(x: EditView, k: nat)
    requires
        k <= x.undo.len(),
    ensures
        undo_times(x, k).undo == x.undo.take(x.undo.len() - k),
        k > 0 ==> undo_times(x, k).clips == x.undo[x.undo.len() - k],
    decreases k,
{
    if k > 0 {
        let y = undo_of(x);
        assert(y.undo == x.undo.drop_last());
        lemma_undo_times(y, (k - 1) as nat);
        assert(x.undo.drop_last().take(x.undo.len() - 1 - (k - 1)) =~= x.undo.take(x.undo.len() - k));
        if k > 1 {
            assert(x.undo.drop_last()[x.undo.len() - k] == x.undo[x.undo.len() - k]);
        }
    } else {
        assert(x.undo.take(x.undo.len() as int) =~= x.undo);
    }
}

/// Up to 32 edits can all be undone: after `k <= 32` blades on a fresh timeline, each of
/// `k` undos finds a snapshot, and the last brings back the pieces the timeline began with.
pub proof fn law_undo_walks_back(a: EditView, ts: Seq<int>, d: nat)
    requires
        a.clips.len() > 0,
        a.undo.len() == 0,
        1 <= ts.len() <= 32,
        forall|m: int| 0 <= m < ts.len() ==> (#[trigger] blade_index(blade_all(a, ts.take(m), d).clips, ts[m])) is Some,
    ensures
        forall|k: nat| k < ts.len() ==> (#[trigger] undo_times(blade_all(a, ts, d), k)).undo.len() > 0,
        undo_times(blade_all(a, ts, d), ts.len() as nat).clips == a.clips,
{
    lemma_blade_all(a, ts, d);
    let x = blade_all(a, ts, d);
    assert forall|k: nat| k < ts.len() implies (#[trigger] undo_times(x, k)).undo.len() > 0 by {
        lemma_undo_times(x, k);
    }
    lemma_undo_times(x, ts.len() as nat);
}

/// A delete below the history limit of 32 keeps every earlier snapshot and adds the pieces
/// as they were before it.
pub proof fn law_delete_keeps_history(a: EditView, d: nat)
    requires
        a.wf(),
        delete_of(a, d).1 is Deleted,
        prepared(a, d).undo.len() < 32,
    ensures
        delete_of(a, d).0.undo == prepared(a, d).undo.push(prepared(a, d).clips),
{
}

/// Deleting a piece after the first parks on its left: the selection never moves right of
/// the piece before it, that piece stays, and the playhead lies in the selected piece. When
/// the piece before is at least 152 ms long, it is the one selected, with the playhead
/// 150 ms before its end.
pub proof fn law_delete_parks_left(a: EditView, d: nat)
    requires
        a.wf(),
        delete_of(a, d).1 is Deleted,
        prepared(a, d).selected.unwrap() > 0,
    ensures
        ({
            let b = prepared(a, d);
            let i = b.selected.unwrap() as int;
            let left = b.clips[i - 1];
            let r = delete_of(a, d).0;
            let ph = delete_of(a, d).1->playhead as int;
            let s = r.selected.unwrap() as int;
            &&& r.clips[i - 1] == left
            &&& r.selected is Some && 0 <= s <= i - 1
            &&& r.clips[s].start <= ph <= r.clips[s].end
            &&& left.len_of() >= 152 ==> s == i - 1 && ph + 150 == left.end
        }),
{
    let b = prepared(a, d);
    let i = b.selected.unwrap() as int;
    let c = b.clips;
    assert(b.wf());
    let left = c[i - 1];
    let park = park_after_delete(c, i);
    let rest = c.remove(i);
    lemma_remove_ok(c, i);
    assert(rest[i - 1] == left);
    assert(left.start < left.end);
    let p = |k: int| park + 1 >= rest[k].start && park <= rest[k].end + 1;
    assert(p(i - 1));
    lemma_first_where_in(rest.len() as int, p);
    assert(first_where(rest.len() as int, p) is Some);
    let sel = select_after_delete(rest, park);
    assert(sel == first_where(rest.len() as int, p).unwrap());
    assert(sel <= i - 1) by {
        if sel > i - 1 {
            assert(!p(i - 1));
        }
    }
    if left.len_of() >= 152 {
        assert forall|k: int| 0 <= k < i - 1 implies !#[trigger] p(k) by {
            assert(rest[k].end <= rest[i - 1].start);
        }
        lemma_first_where_some(rest.len() as int, p, i - 1);
    }
}

/// The clips of the edit timeline and the selection range.
pub struct EditTimeline {
    clips: Vec<KeepSegment>,
    selected: Option<usize>,
    undo: Vec<Vec<KeepSegment>>,
    start: u64,
    end: u64,
}

impl View for EditTimeline {
    type V = EditView;

    closed spec fn view(&self) -> EditView {
        EditView {
            clips: self.clips@,
            selected: self.selected,
            undo: self.undo@.map_values(|u: Vec<KeepSegment>| u@),
            start: self.start,
            end: self.end,
        }
    }
}

impl EditTimeline {
    #[verifier::type_invariant]
    closed spec fn inv(self) -> bool {
        self@.wf()
    }

    /// An empty timeline with the range at 0.
    pub fn new() -> (r: Self)
        ensures
            r@ == (EditView { clips: seq![], selected: None, undo: seq![], start: 0, end: 0 }),
            r@.wf(),
    {
        let r = EditTimeline { clips: Vec::new(), selected: None, undo: Vec::new(), start: 0, end: 0 };
        assert(r@.undo =~= seq![]);
        r
    }

    /// The pieces, in order.
    pub fn clips(&self) -> (r: &[KeepSegment])
        ensures
            r@ == self@.clips,
    {
        self.clips.as_slice()
    }

    pub fn selected(&self) -> (r: Option<usize>)
        ensures
            r == self@.selected,
    {
        self.selected
    }

    pub fn range_start(&self) -> (r: u64)
        ensures
            r == self@.start,
    {
        self.start
    }

    pub fn range_end(&self) -> (r: u64)
        ensures
            r == self@.end,
    {
        self.end
    }

    pub fn undo_depth(&self) -> (r: usize)
        ensures
            r == self@.undo.len(),
    {
        self.undo.len()
    }

    /// Sets the selection range as given.
    pub fn set_range(&mut self, start: u64, end: u64)
        ensures
            final(self)@ == (EditView { start, end, ..old(self)@ }),
            final(self)@.wf(),
    {
        proof {
            use_type_invariant(&*self);
        }
        self.start = start;
        self.end = end;
    }


    /// Saves the current pieces on the undo stack (at most 32 kept).
    fn push_undo(&mut self)
        ensures
            final(self)@ == (EditView { undo: push_undo_of(old(self)@.undo, old(self)@.clips), ..old(self)@ }),
    {
        proof {
            use_type_invariant(&*self);
        }
        let snap = self.clips.clone();
        assert(snap@ =~= self.clips@);
        let mut u: Vec<Vec<KeepSegment>> = Vec::new();
        std::mem::swap(&mut u, &mut self.undo);
        let ghost u0 = u@;
        u.push(snap);
        if u.len() > 32 {
            u.remove(0);
        }
        proof {
            let target = push_undo_of(u0.map_values(|x: Vec<KeepSegment>| x@), self.clips@);
            assert(u@.map_values(|x: Vec<KeepSegment>| x@) =~= target);
        }
        self.undo = u;
    }

    /// Starts the timeline for media of length `d` ms: one piece over the whole file,
    /// selected, with a fresh undo stack; no piece when `d` is 50 ms or less.
    pub fn init(&mut self, d: u64)
        ensures
            final(self)@ == init_of(old(self)@, d as nat),
            final(self)@.wf(),
    {
        proof {
            use_type_invariant(&*self);
        }
        if d <= 50 {
            self.selected = None;
            self.clips = Vec::new();
            assert(self@.clips =~= seq![]);
        } else {
            self.selected = None;
            let mut c: Vec<KeepSegment> = Vec::new();
            c.push(KeepSegment { start: 0, end: d });
            self.clips = c;
            self.selected = Some(0);
            self.undo = Vec::new();
            assert(self@.undo =~= seq![]);
            assert(self@.clips =~= seq![KeepSegment { start: 0, end: d }]);
        }
    }

    fn prepare(&mut self, d: u64)
        ensures
            final(self)@ == prepared(old(self)@, d as nat),
    {
        if self.clips.len() == 0 {
            self.init(d);
        }
    }

    /// Undoes the last blade or delete; `false` when there is nothing to undo.
    pub fn undo_edit(&mut self) -> (r: bool)
        ensures
            final(self)@ == undo_of(old(self)@),
            r == (old(self)@.undo.len() > 0),
            final(self)@.wf(),
    {
        proof {
            use_type_invariant(&*self);
        }
        let ghost a = self@;
        let mut u: Vec<Vec<KeepSegment>> = Vec::new();
        std::mem::swap(&mut u, &mut self.undo);
        match u.pop() {
            None => {
                self.undo = u;
                false
            },
            Some(prev) => {
                proof {
                    assert(a.undo.last() == prev@);
                    assert(u@.map_values(|x: Vec<KeepSegment>| x@) =~= a.undo.drop_last());
                    assert(clips_ok(a.undo[a.undo.len() - 1]));
                }
                let old_sel = self.selected;
                self.selected = None;
                self.clips = prev;
                if self.clips.len() > 0 {
                    let s: usize = match old_sel {
                        Some(x) => x,
                        None => 0,
                    };
                    let last = self.clips.len() - 1;
                    self.selected = Some(if s < last { s } else { last });
                }
                self.undo = u;
                true
            },
        }
    }

    /// The selection range kept inside the media of length `d` and at least 50 ms long.
    pub fn clamp_range(&mut self, d: u64)
        ensures
            final(self)@ == (EditView {
                start: clamp_range_of(old(self)@.start as int, old(self)@.end as int, d as int).0 as u64,
                end: clamp_range_of(old(self)@.start as int, old(self)@.end as int, d as int).1 as u64,
                ..old(self)@
            }),
            final(self)@.wf(),
    {
        proof {
            use_type_invariant(&*self);
        }
        let mut s = self.start;
        let mut e = self.end;
        if d > 0 {
            if s > d {
                s = d;
            }
            if e > d {
                e = d;
            }
        }
        if e <= s {
            if d > 0 {
                if s as u128 + 50 <= d as u128 {
                    e = s + 50;
                } else {
                    s = if d > 50 { d - 50 } else { 0 };
                    e = d;
                }
            } else {
                e = s.saturating_add(50);
            }
        }
        self.start = s;
        self.end = e;
    }

    /// Selects piece `i` and takes its bounds as the range (kept inside the media);
    /// nothing happens when there is no piece `i`.
    pub fn select_clip(&mut self, i: usize, d: u64)
        ensures
            i >= old(self)@.clips.len() ==> final(self)@ == old(self)@,
            i < old(self)@.clips.len() ==> final(self)@ == (EditView {
                selected: Some(i),
                start: clamp_range_of(
                    old(self)@.clips[i as int].start as int,
                    old(self)@.clips[i as int].end as int,
                    d as int,
                ).0 as u64,
                end: clamp_range_of(
                    old(self)@.clips[i as int].start as int,
                    old(self)@.clips[i as int].end as int,
                    d as int,
                ).1 as u64,
                ..old(self)@
            }),
            final(self)@.wf(),
    {
        proof {
            use_type_invariant(&*self);
        }
        if i >= self.clips.len() {
            return;
        }
        self.selected = Some(i);
        let c = self.clips[i];
        self.start = c.start;
        self.end = c.end;
        proof {
            assert(c.start < c.end);
        }
        self.clamp_range(d);
    }

    /// B — cuts the piece under the playhead `t` in two (the timeline starts over the
    /// whole file when it has no pieces yet).
    pub fn blade_at(&mut self, t: u64, d: u64) -> (r: BladeResult)
        ensures
            final(self)@ == blade_next(old(self)@, t as int, d as nat),
            r == match blade_index(prepared(old(self)@, d as nat).clips, t as int) {
                Some(i) => BladeResult::Split { index: i as usize, pieces: final(self)@.clips.len() as usize },
                None => BladeResult::NotOnPiece,
            },
            final(self)@.wf(),
    {
        self.prepare(d);
        proof {
            use_type_invariant(&*self);
        }
        let ghost b = self@;
        let ghost p: spec_fn(int) -> bool = |j: int| bladeable(b.clips[j], t as int);
        assert(blade_index(b.clips, t as int) == first_where(b.clips.len() as int, p));
        let mut i: usize = 0;
        while i < self.clips.len()
            invariant
                self@ == b,
                b.wf(),
                p == (|j: int| bladeable(b.clips[j], t as int)),
                blade_index(b.clips, t as int) == first_where(b.clips.len() as int, p),
                b == prepared(old(self)@, d as nat),
                i <= b.clips.len(),
                forall|j: int| 0 <= j < i ==> !#[trigger] p(j),
            decreases self.clips.len() - i,
        {
            let c = self.clips[i];
            assert(b.clips[i as int] == c);
            if (t as u128) > (c.start as u128) + 50 && (t as u128) + 50 < (c.end as u128) {
                proof {
                    assert(b.clips[i as int] == c);
                    assert(bladeable(b.clips[i as int], t as int));
                    assert(p(i as int));
                    lemma_first_where_some(b.clips.len() as int, p, i as int);
                }
                self.push_undo();
                self.selected = None;
                let mut v: Vec<KeepSegment> = Vec::new();
                std::mem::swap(&mut v, &mut self.clips);
                v.set(i, KeepSegment { start: c.start, end: t });
                v.insert(i + 1, KeepSegment { start: t, end: c.end });
                proof {
                    let nc = v@;
                    assert forall|k: int| 0 <= k < nc.len() implies #[trigger] nc[k].start < nc[k].end by {
                        if k < i {
                            assert(nc[k] == b.clips[k]);
                        } else if k > i + 1 {
                            assert(nc[k] == b.clips[k - 1]);
                        }
                    }
                    assert forall|x: int, y: int| 0 <= x < y < nc.len() implies #[trigger] nc[x].end
                        <= #[trigger] nc[y].start by {
                        let ox = if x <= i { x } else { x - 1 };
                        let oy = if y <= i { y } else { y - 1 };
                        if x < i {
                            assert(nc[x] == b.clips[x]);
                        }
                        if y > i + 1 {
                            assert(nc[y] == b.clips[y - 1]);
                        }
                        if x < i && y <= i + 1 {
                            assert(b.clips[x].end <= b.clips[i as int].start);
                        }
                        if x <= i + 1 && x >= i && y > i + 1 {
                            assert(b.clips[i as int].end <= b.clips[y - 1].start);
                        }
                        if x < i && y > i + 1 {
                            assert(b.clips[x].end <= b.clips[y - 1].start);
                        }
                    }
                    assert(v@ =~= b.clips.update(i as int, KeepSegment { start: c.start, end: t }).insert(
                        i + 1,
                        KeepSegment { start: t, end: c.end },
                    ));
                }
                self.clips = v;
                return BladeResult::Split { index: i, pieces: self.clips.len() };
            }
            i = i + 1;
        }
        proof {
            lemma_first_where_none(b.clips.len() as int, p);
        }
        BladeResult::NotOnPiece
    }


    /// Delete — drops the selected piece; the pieces after it move up, the piece where
    /// the playhead parks is selected and its bounds become the range.
    pub fn delete_selected(&mut self, d: u64) -> (r: DeleteResult)
        ensures
            (final(self)@, r) == delete_of(old(self)@, d as nat),
            final(self)@.wf(),
    {
        self.prepare(d);
        proof {
            use_type_invariant(&*self);
        }
        let ghost b = self@;
        let i = match self.selected {
            None => return DeleteResult::NoSelection,
            Some(i) => i,
        };
        if i >= self.clips.len() {
            self.selected = None;
            return DeleteResult::NoSelection;
        }
        if self.clips.len() == 1 {
            return DeleteResult::OnlyPiece;
        }
        let ph_after = park_position(self.clips.as_slice(), i);
        self.push_undo();
        self.selected = None;
        let mut v: Vec<KeepSegment> = Vec::new();
        std::mem::swap(&mut v, &mut self.clips);
        v.remove(i);
        proof {
            lemma_remove_ok(b.clips, i as int);
        }
        let sel = select_position(v.as_slice(), ph_after);
        let s = v[sel];
        let hi: u64 = if s.end as u128 >= s.start as u128 + 20 { s.end - 20 } else { s.start };
        let ph: u64 = if ph_after < s.start { s.start } else if ph_after > hi { hi } else { ph_after };
        self.clips = v;
        self.selected = Some(sel);
        self.start = s.start;
        self.end = s.end;
        DeleteResult::Deleted { playhead: ph }
    }

    /// The pieces exported and played (the whole file when never bladed).
    pub fn keep_segments(&self, d: u64) -> (r: Vec<KeepSegment>)
        ensures
            r@ == keep_segments_of(self@, d as nat),
    {
        if self.clips.len() > 0 {
            let r = self.clips.clone();
            assert(r@ =~= self.clips@);
            r
        } else if d > 50 {
            let mut r: Vec<KeepSegment> = Vec::new();
            r.push(KeepSegment { start: 0, end: d });
            assert(r@ =~= seq![KeepSegment { start: 0, end: d }]);
            r
        } else {
            Vec::new()
        }
    }


    /// The contiguous range program playback from `from` plays (up to a deleted gap).
    pub fn program_play_range(&self, from: u64, d: u64) -> (r: Option<(u64, u64)>)
        ensures
            match play_range_in(keep_segments_of(self@, d as nat), from as int) {
                Some((a, b)) => r == Some((a as u64, b as u64)),
                None => r is None,
            },
    {
        let c = self.keep_segments(d);
        play_range(c.as_slice(), from)
    }

    /// If playback reached `t` at the end of a run, the next run after the gap.
    pub fn next_program_after(&self, t: u64, d: u64) -> (r: Option<(u64, u64)>)
        ensures
            match next_after_in(keep_segments_of(self@, d as nat), t as int) {
                Some((a, b)) => r == Some((a as u64, b as u64)),
                None => r is None,
            },
    {
        let c = self.keep_segments(d);
        next_after(c.as_slice(), t)
    }

    /// The length of the range, when it is not empty.
    pub fn selection_duration(&self) -> (r: Option<u64>)
        ensures
            r == if self@.end > self@.start { Some((self@.end - self@.start) as u64) } else { None },
    {
        if self.end > self.start { Some(self.end - self.start) } else { None }
    }

    /// Takes the decoded audio's length `audio` as the range end when the range is
    /// unset or within half a second of it, then keeps the range valid for media of
    /// length `d`.
    pub fn adopt_audio_duration(&mut self, audio: u64, d: u64)
        ensures
            final(self)@ == if old(self)@.end == 0 || within_half_second(old(self)@.end as int, audio as int) {
                EditView {
                    start: clamp_range_of(old(self)@.start as int, audio as int, d as int).0 as u64,
                    end: clamp_range_of(old(self)@.start as int, audio as int, d as int).1 as u64,
                    ..old(self)@
                }
            } else {
                old(self)@
            },
            final(self)@.wf(),
    {
        proof {
            use_type_invariant(&*self);
        }
        let near = (self.end as i128 - audio as i128) < 500 && (audio as i128 - self.end as i128) < 500;
        if self.end == 0 || near {
            self.end = audio;
            self.clamp_range(d);
        }
    }

    /// Forgets everything (a new file): no pieces, no selection, no undo, range at 0.
    pub fn reset(&mut self)
        ensures
            final(self)@ == (EditView { clips: seq![], selected: None, undo: seq![], start: 0, end: 0 }),
            final(self)@.wf(),
    {
        *self = Self::new();
    }
}

} // verus!
