use clip_mash::funscript::{
    clip_offsets, combine_actions, every_nth_beat_strokes, stroke_positions, FSPoint, FunScriptSegment, ScriptBuilder,
};
use clip_mash::pmv::Beats;

fn script(points: &[(i32, u32)]) -> Vec<FSPoint> {
    points.iter().map(|&(pos, at)| FSPoint { pos, at }).collect()
}

#[test]
fn combine_cuts_and_shifts_actions() {
    let a = script(&[(0, 0), (100, 500), (0, 1000), (100, 1500), (0, 2000)]);
    let b = script(&[(50, 200), (60, 900), (70, 1200)]);
    let combined = combine_actions(&vec![
        FunScriptSegment { actions: &a, clip_start: 0, clip_end: 1000, offset: 0 },
        FunScriptSegment { actions: &b, clip_start: 0, clip_end: 1000, offset: 1000 },
        FunScriptSegment { actions: &a, clip_start: 1000, clip_end: 2000, offset: 2000 },
    ]);
    assert_eq!(
        combined,
        script(&[(0, 0), (100, 500), (0, 1000), (50, 1200), (60, 1900), (0, 2000), (100, 2500), (0, 3000)])
    );
    let _builder = ScriptBuilder::new(());
}

#[test]
fn offsets_are_prefix_sums() {
    assert_eq!(clip_offsets(&vec![1000, 250, 4000]), vec![0, 1000, 1250]);
    assert!(clip_offsets(&vec![]).is_empty());
}

#[test]
fn every_nth_beat_strokes_by_song() {
    assert_eq!(every_nth_beat_strokes(&vec![3], 2), vec![(0, 0), (0, 2)]);
    assert_eq!(every_nth_beat_strokes(&vec![4], 3), vec![(0, 0), (0, 3)]);
    assert_eq!(every_nth_beat_strokes(&vec![2, 3], 1), vec![(0, 0), (0, 1), (1, 0), (1, 1), (1, 2)]);
    assert_eq!(every_nth_beat_strokes(&vec![0, 2], 1), vec![(1, 0), (1, 1)]);
    // the walk ends at a later song without beats
    assert_eq!(every_nth_beat_strokes(&vec![2, 0, 3], 1), vec![(0, 0), (0, 1)]);
    assert_eq!(every_nth_beat_strokes(&vec![0], 1), vec![]);
    assert_eq!(every_nth_beat_strokes(&vec![5, 4], 2), vec![(0, 0), (0, 2), (0, 4), (1, 1), (1, 3)]);
}

#[test]
fn beat_strokes_alternate() {
    assert_eq!(stroke_positions(5), vec![0, 100, 0, 100, 0]);
    assert_eq!(stroke_positions(0), Vec::<i32>::new());
}

/// The actions of a beat script in which every `n`-th beat strokes, put
/// together from the library's choice of beats and positions as the
/// application does.
fn every_nth_beat_actions(songs: &[Beats<f32>], n: usize) -> Vec<FSPoint> {
    let counts: Vec<usize> = songs.iter().map(|s| s.offsets.len()).collect();
    let mut starts = vec![];
    let mut start = 0.0f32;
    for song in songs {
        starts.push(start);
        start += song.length;
    }
    let strokes = every_nth_beat_strokes(&counts, n);
    let positions = stroke_positions(strokes.len());
    strokes
        .iter()
        .zip(positions)
        .map(|(&(song, beat), pos)| FSPoint { pos, at: ((songs[song].offsets[beat] + starts[song]) * 1000.0).round() as u32 })
        .collect()
}

#[test]
fn test_create_beat_funscript_basic() {
    let beats = vec![
        Beats { length: 1.0, offsets: vec![0.0, 0.5, 1.0] },
        Beats { length: 2.0, offsets: vec![0.5, 1.0, 1.5, 2.0] },
    ];
    let actions = every_nth_beat_actions(&beats, 1);
    assert_eq!(actions.len(), 7);
    let expected = [(0, 0), (100, 500), (0, 1000), (100, 1500), (0, 2000), (100, 2500), (0, 3000)];
    for (action, (pos, at)) in actions.iter().zip(expected) {
        assert_eq!(action.pos, pos);
        assert_eq!(action.at, at);
    }
}
