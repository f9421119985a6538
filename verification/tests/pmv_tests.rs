use clip_mash::pmv::{Beats, MeasureCount, PmvSongs};
use clip_mash::rng::{create_seeded_rng, seed_value, DEFAULT_SEED};
use std::hash::{Hash, Hasher};

fn song(beats: usize) -> Beats<f32> {
    Beats { length: beats as f32, offsets: (0..beats).map(|n| n as f32).collect() }
}

#[test]
fn pmv_clip_lengths_beats() {
    let mut rng = create_seeded_rng(None).into_rng();
    let beats = vec![song(250), song(250)];
    let mut songs = PmvSongs::new(beats, 4, MeasureCount::Fixed { count: 1 });
    let mut durations = vec![];
    while let Some((start, end)) = songs.next_beats(&mut rng) {
        durations.push((end - start) as f64);
    }

    assert_eq!(126, durations.len());
}

#[test]
fn pmv_clip_lengths_beats_randomized() {
    let mut rng = create_seeded_rng(None).into_rng();
    let beats = vec![song(250), song(250)];
    let mut songs = PmvSongs::new(beats, 4, MeasureCount::Random { min: 1, max: 3 });
    let mut durations = vec![];
    while let Some((start, end)) = songs.next_beats(&mut rng) {
        durations.push((end - start) as f64);
    }

    assert_eq!(79, durations.len());
}

#[test]
fn steps_chain_and_end_on_last_beat() {
    let mut songs = PmvSongs::new(vec![song(10), song(3)], 2, MeasureCount::Fixed { count: 2 });
    assert_eq!(songs.advance(2), Some((0.0, 4.0)));
    assert_eq!(songs.advance(2), Some((4.0, 8.0)));
    assert_eq!(songs.advance(2), Some((8.0, 9.0)));
    // the next song starts at its first beat
    assert_eq!(songs.advance(1), Some((0.0, 2.0)));
    assert_eq!(songs.advance(5), None);
    assert_eq!(songs.advance(1), None);
}

#[test]
fn seeds_from_text() {
    assert_eq!(seed_value(None), DEFAULT_SEED);
    let mut hasher = std::collections::hash_map::DefaultHasher::new();
    "seed".hash(&mut hasher);
    assert_eq!(seed_value(Some("seed")), hasher.finish());
    assert_eq!(seed_value(Some("seed")), seed_value(Some("seed")));
    assert_ne!(seed_value(Some("seed")), seed_value(Some("other")));
}
