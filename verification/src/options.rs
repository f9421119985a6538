//! The options that say how clips are picked and ordered. `T` is the type in
//! which times are measured.

use vstd::prelude::*;
use crate::pmv::{Beats, MeasureCount};

verus! {

/// The order of the clips in the compilation.
#[derive(Debug, Clone, Copy, PartialEq, Eq, Structural)]
pub enum ClipOrder {
    Random,
    SceneOrder,
    NoOp,
}

/// Clip lengths drawn from a base duration divided by one of the divisors.
#[derive(Debug)]
pub struct RandomizedClipOptions<T> {
    pub base_duration: T,
    pub divisors: Vec<T>,
}

/// Clip lengths that follow the beats of songs.
#[derive(Debug)]
pub struct SongClipOptions<T> {
    pub beats_per_measure: usize,
    pub cut_after_measures: MeasureCount,
    pub songs: Vec<Beats<T>>,
}

/// How the lengths of clips are chosen.
#[derive(Debug)]
pub enum PmvClipOptions<T> {
    Randomized(RandomizedClipOptions<T>),
    Songs(SongClipOptions<T>),
}

/// Clips taken from the markers in turn.
#[derive(Debug)]
pub struct RoundRobinClipOptions<T> {
    pub length: T,
    pub clip_lengths: PmvClipOptions<T>,
}

/// Clips taken from markers chosen at random, by the weight of their title.
#[derive(Debug)]
pub struct WeightedRandomClipOptions<T> {
    pub weights: Vec<(String, T)>,
    pub length: T,
    pub clip_lengths: PmvClipOptions<T>,
}

/// Each marker cut into clips of lengths from one list.
#[derive(Debug)]
pub struct EqualLengthClipOptions<T> {
    pub clip_duration: T,
    pub divisors: Vec<T>,
}

/// How clips are picked from the markers.
#[derive(Debug)]
pub enum ClipPickerOptions<T> {
    RoundRobin(RoundRobinClipOptions<T>),
    WeightedRandom(WeightedRandomClipOptions<T>),
    EqualLength(EqualLengthClipOptions<T>),
    NoSplit,
}

/// How clips are picked and ordered.
#[derive(Debug)]
pub struct ClipOptions<T> {
    pub clip_picker: ClipPickerOptions<T>,
    pub order: ClipOrder,
}

} // verus!
