//! Cutting clips to the beat of songs: the beats of each song are walked in
//! steps of a number of measures, and each step is one clip.

use vstd::prelude::*;
use rand::rngs::StdRng;
use crate::rng::random_in_range;

verus! {

/// The beats of one song: its length and the offset of each beat, in the time
/// type `T`.
#[derive(Debug)]
pub struct Beats<T> {
    pub length: T,
    pub offsets: Vec<T>,
}

/// After how many measures a clip is cut.
#[derive(Debug, Clone, Copy, PartialEq, Eq, Structural)]
pub enum MeasureCount {
    Fixed { count: usize },
    Random { min: usize, max: usize },
}

/// Walks the beats of a list of songs.
#[derive(Debug)]
pub struct PmvSongs<T> {
    pub songs: Vec<Beats<T>>,
    pub beats_per_measure: usize,
    pub cut_after_measure_count: MeasureCount,
    song_index: usize,
    beat_index: usize,
}

/// `m` is a number of measures that the measure count allows.
pub open spec fn allowed_measures(count: MeasureCount, m: usize) -> bool {
    match count {
        MeasureCount::Fixed { count } => m == count,
        MeasureCount::Random { min, max } => min <= m < max,
    }
}

/// The largest number of measures that the measure count allows.
pub open spec fn max_measures(count: MeasureCount) -> int {
    match count {
        MeasureCount::Fixed { count } => count as int,
        MeasureCount::Random { min, max } => max - 1,
    }
}

impl<T> PmvSongs<T> {
    /// Starts at the first beat of the first song.
    pub fn new(songs: Vec<Beats<T>>, beats_per_measure: usize, cut_after_measure_count: MeasureCount) -> (r: Self)
        ensures
            r.song_list() == songs@,
            r.bpm() == beats_per_measure,
            r.measure_count() == cut_after_measure_count,
            r.song_index() == 0,
            r.beat_index() == 0,
    {
        PmvSongs { songs, beats_per_measure, cut_after_measure_count, song_index: 0, beat_index: 0 }
    }

    /// The songs.
    pub closed spec fn song_list(&self) -> Seq<Beats<T>> {
        self.songs@
    }

    /// The number of beats in a measure.
    pub closed spec fn bpm(&self) -> usize {
        self.beats_per_measure
    }

    /// After how many measures a clip is cut.
    pub closed spec fn measure_count(&self) -> MeasureCount {
        self.cut_after_measure_count
    }

    /// The song the walk is in.
    pub closed spec fn song_index(&self) -> nat {
        self.song_index as nat
    }

    /// The beat the walk is at, within its song.
    pub closed spec fn beat_index(&self) -> nat {
        self.beat_index as nat
    }

    /// The walk has passed the last song.
    pub open spec fn is_done(&self) -> bool {
        self.song_index() >= self.song_list().len()
    }

    /// The beats of song `i`.
    pub open spec fn beats_of(&self, i: int) -> Seq<T> {
        self.song_list()[i].offsets@
    }

    /// The walk can go on: every song has a beat, the walk stands on a beat of
    /// its song, and a step cannot overflow.
    pub open spec fn can_walk(&self) -> bool {
        &&& forall|i: int| 0 <= i < self.song_list().len() ==> #[trigger] self.beats_of(i).len() > 0
        &&& self.song_index() < self.song_list().len() ==> self.beat_index() < self.beats_of(self.song_index() as int).len()
        &&& self.measure_count() matches MeasureCount::Random { min, max } ==> min < max
        &&& self.beat_index() + self.bpm() * max_measures(self.measure_count()) <= usize::MAX
    }

    /// Where one step of `m` measures leads within the current song: that many
    /// beats on, but not past the last beat.
    pub open spec fn next_beat(&self, m: usize) -> int {
        let last = self.beats_of(self.song_index() as int).len() - 1;
        let target = self.beat_index() + self.bpm() * m;
        if target < last { target } else { last }
    }

    /// The beats that start and end a step of `m` measures.
    pub open spec fn step_range(&self, m: usize) -> (T, T) {
        let beats = self.beats_of(self.song_index() as int);
        (beats[self.beat_index() as int], beats[self.next_beat(m)])
    }

    /// The state after a step of `m` measures: at the next song when the step
    /// reached the last beat, else at the beat it reached.
    pub open spec fn stepped(&self, next: &Self, m: usize) -> bool {
        let last = self.beats_of(self.song_index() as int).len() - 1;
        &&& next.song_list() == self.song_list()
        &&& next.bpm() == self.bpm()
        &&& next.measure_count() == self.measure_count()
        &&& if self.next_beat(m) == last {
            next.song_index() == self.song_index() + 1 && next.beat_index() == 0
        } else {
            next.song_index() == self.song_index() && next.beat_index() == self.next_beat(m)
        }
    }
}

impl<T: Copy> PmvSongs<T> {
    /// Takes a step of `num_measures` measures and gives the beats that start and
    /// end it, or `None` when all songs have been walked.
    pub fn advance(&mut self, num_measures: usize) -> (r: Option<(T, T)>)
        requires
            old(self).can_walk(),
            old(self).beat_index() + old(self).bpm() * num_measures <= usize::MAX,
        ensures
            old(self).is_done() ==> r is None && *final(self) == *old(self),
            !old(self).is_done() ==> r == Some(old(self).step_range(num_measures)) && old(self).stepped(
                final(self),
                num_measures,
            ),
    {
        if self.song_index >= self.songs.len() {
            return None;
        }
        let beats = &self.songs[self.song_index].offsets;
        proof {
            assert(self.beats_of(self.song_index as int).len() > 0);
        }
        let advance_by = self.beats_per_measure * num_measures;
        let target = self.beat_index + advance_by;
        let last = beats.len() - 1;
        let next_beat_index = if target < last { target } else { last };
        let start = beats[self.beat_index];
        let end = beats[next_beat_index];
        if next_beat_index == last {
            self.song_index = self.song_index + 1;
            self.beat_index = 0;
        } else {
            self.beat_index = next_beat_index;
        }
        Some((start, end))
    }

    /// The number of measures for the next step: the fixed count, or one drawn
    /// from the count's range.
    pub fn measures(&self, rng: &mut StdRng) -> (m: usize)
        requires
            self.measure_count() matches MeasureCount::Random { min, max } ==> min < max,
        ensures
            allowed_measures(self.measure_count(), m),
    {
        match self.cut_after_measure_count {
            MeasureCount::Fixed { count } => count,
            MeasureCount::Random { min, max } => random_in_range(rng, min, max),
        }
    }

    /// Takes a step of as many measures as the measure count gives.
    pub fn next_beats(&mut self, rng: &mut StdRng) -> (r: Option<(T, T)>)
        requires
            old(self).can_walk(),
        ensures
            old(self).is_done() ==> r is None && *final(self) == *old(self),
            !old(self).is_done() ==> exists|m: usize|
                allowed_measures(old(self).measure_count(), m) && r == Some(
                    #[trigger] old(self).step_range(m),
                ) && old(self).stepped(final(self), m),
    {
        if self.song_index >= self.songs.len() {
            return None;
        }
        let m = self.measures(rng);
        proof {
            let bpm = self.beats_per_measure as int;
            assert(m <= max_measures(self.cut_after_measure_count));
            assert(bpm * m <= bpm * max_measures(self.cut_after_measure_count)) by (nonlinear_arith)
                requires
                    0 <= bpm,
                    m <= max_measures(self.cut_after_measure_count);
        }
        self.advance(m)
    }
}

/// Steps follow each other without gaps: within a song a step starts on the
/// beat where the step before it ended; a step that leaves a song ended on that
/// song's last beat, and the step after it starts on the next song's first beat.
pub proof fn lemma_steps_chain<T>(a: PmvSongs<T>, b: PmvSongs<T>, m1: usize, m2: usize)
    requires
        a.can_walk(),
        !a.is_done(),
        a.stepped(&b, m1),
        !b.is_done(),
    ensures
        b.song_index() == a.song_index() ==> b.step_range(m2).0 == a.step_range(m1).1,
        b.song_index() != a.song_index() ==> {
            &&& a.step_range(m1).1 == a.beats_of(a.song_index() as int).last()
            &&& b.step_range(m2).0 == b.beats_of(b.song_index() as int)[0]
        },
{
    assert(a.beats_of(a.song_index() as int).len() > 0);
}

/// A step of at least one beat moves the walk forward: to a later beat of the
/// same song, or to the next song.
pub proof fn lemma_step_progresses<T>(a: PmvSongs<T>, b: PmvSongs<T>, m: usize)
    requires
        a.can_walk(),
        !a.is_done(),
        a.stepped(&b, m),
        a.bpm() * m >= 1,
    ensures
        b.song_index() > a.song_index() || (b.song_index() == a.song_index() && b.beat_index() > a.beat_index()),
{
    assert(a.beats_of(a.song_index() as int).len() > 0);
}

} // verus!
