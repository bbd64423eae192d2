use kalicut::edit::{next_after, play_range, BladeResult, DeleteResult, EditTimeline};
use kalicut::ffmpeg::KeepSegment;

fn seg(start: u64, end: u64) -> KeepSegment {
    KeepSegment { start, end }
}

#[test]
fn init_covers_the_whole_file() {
    let mut t = EditTimeline::new();
    t.init(10_000);
    assert_eq!(t.clips(), &[seg(0, 10_000)]);
    assert_eq!(t.selected(), Some(0));
    let mut short = EditTimeline::new();
    short.init(50);
    assert!(short.clips().is_empty());
    assert_eq!(short.selected(), None);
}

#[test]
fn blade_splits_the_piece_under_the_playhead() {
    let mut t = EditTimeline::new();
    t.init(10_000);
    let r = t.blade_at(4_000, 10_000);
    assert!(matches!(r, BladeResult::Split { index: 0, pieces: 2 }));
    assert_eq!(t.clips(), &[seg(0, 4_000), seg(4_000, 10_000)]);
    assert_eq!(t.undo_depth(), 1);
    assert_eq!(t.selected(), None);
    // too close to a cut: nothing happens
    let r2 = t.blade_at(4_030, 10_000);
    assert!(matches!(r2, BladeResult::NotOnPiece));
    assert_eq!(t.clips().len(), 2);
    assert_eq!(t.undo_depth(), 1);
}

#[test]
fn blade_on_an_empty_timeline_starts_it_first() {
    let mut t = EditTimeline::new();
    let r = t.blade_at(2_000, 8_000);
    assert!(matches!(r, BladeResult::Split { index: 0, pieces: 2 }));
    assert_eq!(t.clips(), &[seg(0, 2_000), seg(2_000, 8_000)]);
}

#[test]
fn delete_then_undo_restores_the_pieces() {
    let mut t = EditTimeline::new();
    t.init(10_000);
    t.blade_at(4_000, 10_000);
    t.select_clip(1, 10_000);
    assert_eq!(t.selected(), Some(1));
    assert_eq!((t.range_start(), t.range_end()), (4_000, 10_000));
    let r = t.delete_selected(10_000);
    assert!(matches!(r, DeleteResult::Deleted { playhead: 3_850 }));
    assert_eq!(t.clips(), &[seg(0, 4_000)]);
    assert_eq!(t.selected(), Some(0));
    assert_eq!((t.range_start(), t.range_end()), (0, 4_000));
    assert_eq!(t.undo_depth(), 2);
    assert!(t.undo_edit());
    assert_eq!(t.clips(), &[seg(0, 4_000), seg(4_000, 10_000)]);
    assert_eq!(t.selected(), Some(0));
    assert!(t.undo_edit());
    assert_eq!(t.clips(), &[seg(0, 10_000)]);
    assert!(!t.undo_edit());
}

#[test]
fn delete_refusals() {
    let mut t = EditTimeline::new();
    t.init(10_000);
    assert!(matches!(t.delete_selected(10_000), DeleteResult::OnlyPiece));
    t.blade_at(5_000, 10_000);
    assert!(matches!(t.delete_selected(10_000), DeleteResult::NoSelection));
}

fn gapped() -> EditTimeline {
    let mut t = EditTimeline::new();
    t.init(10_000);
    t.blade_at(4_000, 10_000);
    t.blade_at(6_000, 10_000);
    t.select_clip(1, 10_000);
    t.delete_selected(10_000);
    t
}

#[test]
fn program_play_stops_at_a_deleted_gap() {
    let t = gapped();
    assert_eq!(t.clips(), &[seg(0, 4_000), seg(6_000, 10_000)]);
    assert_eq!(t.program_play_range(0, 10_000), Some((0, 4_000)));
    assert_eq!(t.program_play_range(1_000, 10_000), Some((1_000, 4_000)));
    // in the gap: the next piece
    assert_eq!(t.program_play_range(5_000, 10_000), Some((6_000, 10_000)));
    // on the right edge of a piece: shortly before it, so the piece still plays
    assert_eq!(t.program_play_range(4_000, 10_000), Some((3_750, 4_000)));
    // past every piece: the first one
    assert_eq!(t.program_play_range(12_000, 10_000), Some((0, 4_000)));
}

#[test]
fn program_play_jumps_over_the_gap() {
    let t = gapped();
    assert_eq!(t.next_program_after(4_000, 10_000), Some((6_000, 10_000)));
    assert_eq!(t.next_program_after(5_000, 10_000), Some((6_000, 10_000)));
    assert_eq!(t.next_program_after(10_000, 10_000), None);
    assert_eq!(t.next_program_after(2_000, 10_000), Some((6_000, 10_000)));
}

#[test]
fn adjacent_pieces_play_as_one_run() {
    let c = [seg(0, 1_000), seg(1_050, 2_000), seg(5_000, 6_000)];
    assert_eq!(play_range(&c, 0), Some((0, 2_000)));
    assert_eq!(next_after(&c, 2_000), Some((5_000, 6_000)));
    assert_eq!(next_after(&c, 950), None);
    assert_eq!(play_range(&[], 0), None);
}

#[test]
fn keep_segments_default_to_the_whole_file() {
    let t = EditTimeline::new();
    assert_eq!(t.keep_segments(9_000), vec![seg(0, 9_000)]);
    assert_eq!(t.keep_segments(40), Vec::<KeepSegment>::new());
    let g = gapped();
    assert_eq!(g.keep_segments(10_000), vec![seg(0, 4_000), seg(6_000, 10_000)]);
}

#[test]
fn clamp_range_keeps_a_valid_range() {
    let mut t = EditTimeline::new();
    t.set_range(9_990, 100);
    t.clamp_range(10_000);
    assert_eq!((t.range_start(), t.range_end()), (9_950, 10_000));
    t.set_range(20_000, 30_000);
    t.clamp_range(10_000);
    assert_eq!((t.range_start(), t.range_end()), (9_950, 10_000));
    t.set_range(300, 300);
    t.clamp_range(10_000);
    assert_eq!((t.range_start(), t.range_end()), (300, 350));
    t.set_range(700, 200);
    t.clamp_range(0);
    assert_eq!((t.range_start(), t.range_end()), (700, 750));
}

#[test]
fn selection_duration_and_audio_length() {
    let mut t = EditTimeline::new();
    t.set_range(1_000, 2_500);
    assert_eq!(t.selection_duration(), Some(1_500));
    t.set_range(2_500, 2_500);
    assert_eq!(t.selection_duration(), None);
    t.set_range(0, 10_000);
    t.adopt_audio_duration(10_300, 10_300);
    assert_eq!(t.range_end(), 10_300);
    t.adopt_audio_duration(20_000, 20_000);
    assert_eq!(t.range_end(), 10_300);
    t.reset();
    assert_eq!((t.range_start(), t.range_end(), t.undo_depth()), (0, 0, 0));
    assert!(t.clips().is_empty());
}
