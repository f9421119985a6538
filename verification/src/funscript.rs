//! Funscripts: timed positions for an interactive device, and how the scripts
//! of the videos are cut and joined along the clips of a compilation.

use vstd::prelude::*;

verus! {

/// One action of a script: a position at a time.
#[derive(Debug, Clone, Copy, PartialEq, Eq, Structural)]
pub struct FSPoint {
    pub pos: i32,
    /// Position in the video in milliseconds
    pub at: u32,
}

/// Metadata that OpenFunscripter stores in a script.
#[derive(Debug, Default)]
pub struct OFSMetadata {
    pub creator: String,
    pub description: String,
    pub duration: i32,
    pub notes: String,
    pub performers: Vec<String>,
    pub script_url: String,
    pub tags: Vec<String>,
    pub title: String,
    pub ofs_type: String,
    pub video_url: String,
}

/// Builds the script of a compilation from the scripts of its videos, which
/// it fetches through `api`.
pub struct ScriptBuilder<A> {
    api: A,
}

impl<A> ScriptBuilder<A> {
    /// A builder that fetches scripts through `stash_api`.
    pub fn new(stash_api: A) -> (r: Self)
        ensures
            r.api() == stash_api,
    {
        Self { api: stash_api }
    }

    /// What the builder fetches scripts through.
    pub closed spec fn api(&self) -> A {
        self.api
    }
}

/// The part of one video's script that falls into one clip, and where the clip
/// stands in the compilation.
pub struct FunScriptSegment<'a> {
    pub actions: &'a Vec<FSPoint>,
    pub clip_start: u32,
    pub clip_end: u32,
    pub offset: u32,
}

/// The actions from `start` to `end` (both included), moved so that `start`
/// falls on `offset`.
pub open spec fn shifted(actions: Seq<FSPoint>, start: u32, end: u32, offset: u32) -> Seq<FSPoint>
    decreases actions.len(),
{
    if actions.len() == 0 {
        Seq::empty()
    } else {
        let prev = shifted(actions.drop_last(), start, end, offset);
        let a = actions.last();
        if start <= a.at && a.at <= end {
            prev.push(FSPoint { pos: a.pos, at: (a.at - start + offset) as u32 })
        } else {
            prev
        }
    }
}

/// The shifted actions of each segment, one segment after the other.
pub open spec fn combined(segments: Seq<FunScriptSegment>) -> Seq<FSPoint>
    decreases segments.len(),
{
    if segments.len() == 0 {
        Seq::empty()
    } else {
        let s = segments.last();
        combined(segments.drop_last()) + shifted(s.actions@, s.clip_start, s.clip_end, s.offset)
    }
}

/// No action of the segment that falls into its clip moves past the last
/// millisecond that a `u32` holds.
pub open spec fn segment_fits(s: FunScriptSegment) -> bool {
    forall|i: int|
        0 <= i < s.actions@.len() && s.clip_start <= (#[trigger] s.actions@[i]).at <= s.clip_end ==> s.actions@[i].at
            - s.clip_start + s.offset <= u32::MAX
}

fn shift_segment(out: &mut Vec<FSPoint>, s: &FunScriptSegment)
    requires
        segment_fits(*s),
    ensures
        final(out)@ == old(out)@ + shifted(s.actions@, s.clip_start, s.clip_end, s.offset),
{
    let actions = s.actions;
    let n = actions.len();
    let ghost base = out@;
    let mut i: usize = 0;
    while i < n
        invariant
            n == actions@.len(),
            actions@ == s.actions@,
            segment_fits(*s),
            0 <= i <= n,
            out@ == base + shifted(actions@.take(i as int), s.clip_start, s.clip_end, s.offset),
        decreases n - i,
    {
        let a = actions[i];
        proof {
            assert(actions@.take(i as int + 1).drop_last() =~= actions@.take(i as int));
            assert(actions@.take(i as int + 1).last() == a);
        }
        if s.clip_start <= a.at && a.at <= s.clip_end {
            out.push(FSPoint { pos: a.pos, at: (a.at - s.clip_start) + s.offset });
        }
        i = i + 1;
    }
    proof {
        assert(actions@.take(n as int) =~= actions@);
    }
}

/// Joins the parts of the scripts that fall into the clips.
pub fn combine_actions(segments: &Vec<FunScriptSegment>) -> (r: Vec<FSPoint>)
    requires
        forall|k: int| 0 <= k < segments@.len() ==> segment_fits(#[trigger] segments@[k]),
    ensures
        r@ == combined(segments@),
{
    let mut out: Vec<FSPoint> = Vec::new();
    let n = segments.len();
    let mut k: usize = 0;
    while k < n
        invariant
            n == segments@.len(),
            forall|k: int| 0 <= k < segments@.len() ==> segment_fits(#[trigger] segments@[k]),
            0 <= k <= n,
            out@ == combined(segments@.take(k as int)),
        decreases n - k,
    {
        proof {
            assert(segments@.take(k as int + 1).drop_last() =~= segments@.take(k as int));
        }
        shift_segment(&mut out, &segments[k]);
        k = k + 1;
    }
    proof {
        assert(segments@.take(n as int) =~= segments@);
    }
    out
}

/// The sum of the first `k` durations.
pub open spec fn prefix_sum(durations: Seq<u32>, k: int) -> int
    decreases k,
{
    if k <= 0 {
        0
    } else {
        prefix_sum(durations, k - 1) + durations[k - 1]
    }
}

/// Where each clip starts in the compilation: the sum of the durations of the
/// clips before it, in milliseconds.
pub fn clip_offsets(durations: &Vec<u32>) -> (r: Vec<u32>)
    requires
        prefix_sum(durations@, durations@.len() as int) <= u32::MAX,
    ensures
        r@.len() == durations@.len(),
        forall|k: int| 0 <= k < r@.len() ==> #[trigger] r@[k] == prefix_sum(durations@, k),
{
    let n = durations.len();
    let mut offsets: Vec<u32> = Vec::new();
    let mut offset: u32 = 0;
    let mut k: usize = 0;
    while k < n
        invariant
            n == durations@.len(),
            prefix_sum(durations@, n as int) <= u32::MAX,
            0 <= k <= n,
            offset == prefix_sum(durations@, k as int),
            offsets@.len() == k,
            forall|j: int| 0 <= j < k ==> #[trigger] offsets@[j] == prefix_sum(durations@, j),
        decreases n - k,
    {
        offsets.push(offset);
        proof {
            lemma_prefix_sum_monotone(durations@, k as int + 1, n as int);
        }
        offset = offset + durations[k];
        k = k + 1;
    }
    offsets
}

/// Prefix sums of durations never decrease.
pub proof fn lemma_prefix_sum_monotone(durations: Seq<u32>, j: int, k: int)
    requires
        0 <= j <= k <= durations.len(),
    ensures
        prefix_sum(durations, j) <= prefix_sum(durations, k),
    decreases k - j,
{
    if j < k {
        lemma_prefix_sum_monotone(durations, j, k - 1);
    }
}

/// The actions cut out of a script for one clip all fall into the clip's place
/// in the compilation: from its offset to its offset plus its length, and no
/// action is invented.
pub proof fn lemma_shifted_within(actions: Seq<FSPoint>, start: u32, end: u32, offset: u32)
    requires
        forall|i: int|
            0 <= i < actions.len() && start <= (#[trigger] actions[i]).at <= end ==> actions[i].at - start + offset
                <= u32::MAX,
    ensures
        shifted(actions, start, end, offset).len() <= actions.len(),
        forall|k: int|
            0 <= k < shifted(actions, start, end, offset).len() ==> offset <= (#[trigger] shifted(
                actions,
                start,
                end,
                offset,
            )[k]).at <= offset + end - start,
    decreases actions.len(),
{
    if actions.len() > 0 {
        let p = actions.drop_last();
        assert forall|i: int| 0 <= i < p.len() && start <= (#[trigger] p[i]).at <= end implies p[i].at - start + offset
            <= u32::MAX by {
            assert(p[i] == actions[i]);
        }
        lemma_shifted_within(p, start, end, offset);
        let prev = shifted(p, start, end, offset);
        let r = shifted(actions, start, end, offset);
        assert forall|k: int| 0 <= k < r.len() implies offset <= (#[trigger] r[k]).at <= offset + end - start by {
            if k < prev.len() {
                assert(r[k] == prev[k]);
            } else {
                assert(actions[actions.len() - 1] == actions.last());
            }
        }
    }
}

/// An action falls into the clip from `start` to `end` (both included).
pub open spec fn in_clip(start: u32, end: u32) -> spec_fn(FSPoint) -> bool {
    |a: FSPoint| start <= a.at && a.at <= end
}

/// Cutting a script for a clip keeps every action that falls into the clip,
/// and no other, in their order, each with its own position and its time moved
/// so that the clip's start falls on the offset.
pub proof fn lemma_shifted_keeps_every_action_in_clip(actions: Seq<FSPoint>, start: u32, end: u32, offset: u32)
    requires
        forall|i: int|
            0 <= i < actions.len() && start <= (#[trigger] actions[i]).at <= end ==> actions[i].at - start + offset
                <= u32::MAX,
    ensures
        shifted(actions, start, end, offset).len() == actions.filter(in_clip(start, end)).len(),
        forall|k: int|
            0 <= k < shifted(actions, start, end, offset).len() ==> {
                let kept = actions.filter(in_clip(start, end))[k];
                &&& (#[trigger] shifted(actions, start, end, offset)[k]).pos == kept.pos
                &&& shifted(actions, start, end, offset)[k].at == kept.at - start + offset
            },
    decreases actions.len(),
{
    reveal(Seq::filter);
    if actions.len() > 0 {
        let p = actions.drop_last();
        assert forall|i: int| 0 <= i < p.len() && start <= (#[trigger] p[i]).at <= end implies p[i].at - start + offset
            <= u32::MAX by {
            assert(p[i] == actions[i]);
        }
        lemma_shifted_keeps_every_action_in_clip(p, start, end, offset);
        let a = actions.last();
        assert(actions[actions.len() - 1] == a);
        let prev = shifted(p, start, end, offset);
        let pf = p.filter(in_clip(start, end));
        let r = shifted(actions, start, end, offset);
        let f = actions.filter(in_clip(start, end));
        assert(f == (if in_clip(start, end)(a) { pf.push(a) } else { pf }));
        assert forall|k: int| 0 <= k < r.len() implies {
            let kept = f[k];
            &&& (#[trigger] r[k]).pos == kept.pos
            &&& r[k].at == kept.at - start + offset
        } by {
            if k < prev.len() {
                assert(r[k] == prev[k]);
                assert(f[k] == pf[k]);
            } else {
                assert(f[k] == a);
            }
        }
    }
}

/// The strokes that one song of `count` beats gives when every `n`-th beat
/// strokes, among its first `m` beats: beat `j` (counted from 0) strokes when
/// the number of beats after it is a multiple of `n`. Each stroke is the pair
/// of the song's index and the beat's.
pub open spec fn song_strokes(song: usize, count: usize, n: usize, m: nat) -> Seq<(usize, usize)>
    decreases m,
{
    if m == 0 {
        Seq::empty()
    } else {
        let prev = song_strokes(song, count, n, (m - 1) as nat);
        let j = m - 1;
        if (count - 1 - j) % (n as int) == 0 {
            prev.push((song, j as usize))
        } else {
            prev
        }
    }
}

/// The strokes of the first `k` songs, one song after the other.
pub open spec fn strokes_upto(counts: Seq<usize>, n: usize, k: nat) -> Seq<(usize, usize)>
    decreases k,
{
    if k == 0 {
        Seq::empty()
    } else {
        strokes_upto(counts, n, (k - 1) as nat) + song_strokes(
            (k - 1) as usize,
            counts[k - 1],
            n,
            counts[k - 1] as nat,
        )
    }
}

/// The first song from `s` on that has no beats, or the number of songs.
pub open spec fn first_silent_from(counts: Seq<usize>, s: int) -> int
    decreases counts.len() - s,
{
    if s < 0 || s >= counts.len() {
        counts.len() as int
    } else if counts[s] == 0 {
        s
    } else {
        first_silent_from(counts, s + 1)
    }
}

/// The songs whose beats are walked: the walk ends at the last song, or on
/// reaching a later song that has no beats (the first song may have none).
pub open spec fn walked_songs(counts: Seq<usize>) -> int {
    first_silent_from(counts, 1)
}

/// The strokes when every `n`-th beat strokes, over songs with the given
/// numbers of beats.
pub open spec fn every_nth_strokes(counts: Seq<usize>, n: usize) -> Seq<(usize, usize)> {
    strokes_upto(counts, n, walked_songs(counts) as nat)
}

/// Appends the strokes of one song.
fn push_song_strokes(out: &mut Vec<(usize, usize)>, song: usize, count: usize, n: usize)
    requires
        n > 0,
    ensures
        final(out)@ == old(out)@ + song_strokes(song, count, n, count as nat),
{
    let ghost start = out@;
    let mut j: usize = 0;
    while j < count
        invariant
            n > 0,
            0 <= j <= count,
            out@ == start + song_strokes(song, count, n, j as nat),
        decreases count - j,
    {
        if (count - 1 - j) % n == 0 {
            out.push((song, j));
            proof {
                assert(out@ =~= start + song_strokes(song, count, n, (j + 1) as nat));
            }
        } else {
            proof {
                assert(out@ =~= start + song_strokes(song, count, n, (j + 1) as nat));
            }
        }
        j = j + 1;
    }
}

/// The strokes of a beat script in which every `n`-th beat strokes: for each
/// walked song, in order, the beats whose number of following beats in the
/// song is a multiple of `n`.
pub fn every_nth_beat_strokes(counts: &Vec<usize>, n: usize) -> (r: Vec<(usize, usize)>)
    requires
        counts@.len() > 0,
        n > 0,
    ensures
        r@ == every_nth_strokes(counts@, n),
        forall|i: int| 0 <= i < r@.len() ==> (#[trigger] r@[i]).0 < counts@.len() && r@[i].1 < counts@[r@[i].0 as int],
{
    let len = counts.len();
    let mut out: Vec<(usize, usize)> = Vec::new();
    push_song_strokes(&mut out, 0, counts[0], n);
    proof {
        assert(strokes_upto(counts@, n, 0) =~= Seq::<(usize, usize)>::empty());
        assert(strokes_upto(counts@, n, 1) =~= strokes_upto(counts@, n, 0) + song_strokes(0, counts@[0], n, counts@[0] as nat));
        assert(out@ =~= strokes_upto(counts@, n, 1));
    }
    let mut s: usize = 1;
    while s < len && counts[s] != 0
        invariant
            n > 0,
            len == counts@.len(),
            1 <= s <= len,
            out@ == strokes_upto(counts@, n, s as nat),
            first_silent_from(counts@, 1) == first_silent_from(counts@, s as int),
        decreases len - s,
    {
        push_song_strokes(&mut out, s, counts[s], n);
        s = s + 1;
    }
    proof {
        assert(out@ == every_nth_strokes(counts@, n));
        lemma_every_nth_strokes_in_order(counts@, n);
        let e = every_nth_strokes(counts@, n);
        assert forall|i: int| 0 <= i < out@.len() implies (#[trigger] out@[i]).0 < counts@.len() && out@[i].1
            < counts@[out@[i].0 as int] by {
            assert(out@[i] == e[i]);
        }
    }
    out
}

/// Stroke `a` comes before stroke `b`: in an earlier song, or earlier in the
/// same song.
pub open spec fn stroke_before(a: (usize, usize), b: (usize, usize)) -> bool {
    a.0 < b.0 || (a.0 == b.0 && a.1 < b.1)
}

proof fn lemma_song_strokes_valid(song: usize, count: usize, n: usize, m: nat)
    requires
        m <= count,
    ensures
        forall|k: int|
            0 <= k < song_strokes(song, count, n, m).len() ==> (#[trigger] song_strokes(song, count, n, m)[k]).0
                == song && song_strokes(song, count, n, m)[k].1 < m,
        forall|k: int, l: int|
            0 <= k < l < song_strokes(song, count, n, m).len() ==> #[trigger] song_strokes(song, count, n, m)[k].1
                < #[trigger] song_strokes(song, count, n, m)[l].1,
    decreases m,
{
    if m > 0 {
        let p = (m - 1) as nat;
        lemma_song_strokes_valid(song, count, n, p);
        let prev = song_strokes(song, count, n, p);
        let r = song_strokes(song, count, n, m);
        if (count - 1 - p) % (n as int) == 0 {
            assert(r == prev.push((song, p as usize)));
            assert forall|k: int| 0 <= k < r.len() implies (#[trigger] r[k]).0 == song && r[k].1 < m by {
                if k < prev.len() {
                    assert(r[k] == prev[k]);
                }
            }
            assert forall|k: int, l: int| 0 <= k < l < r.len() implies #[trigger] r[k].1 < #[trigger] r[l].1 by {
                assert(r[k] == prev[k]);
                if l < prev.len() {
                    assert(r[l] == prev[l]);
                }
            }
        } else {
            assert(r == prev);
        }
    }
}

proof fn lemma_first_silent_at_most_len(counts: Seq<usize>, s: int)
    requires
        0 <= s,
    ensures
        0 <= first_silent_from(counts, s) <= counts.len(),
    decreases counts.len() - s,
{
    if s < counts.len() && counts[s] != 0 {
        lemma_first_silent_at_most_len(counts, s + 1);
    }
}

proof fn lemma_strokes_upto_valid(counts: Seq<usize>, n: usize, k: nat)
    requires
        k <= counts.len() <= usize::MAX,
    ensures
        forall|i: int|
            0 <= i < strokes_upto(counts, n, k).len() ==> (#[trigger] strokes_upto(counts, n, k)[i]).0 < k
                && strokes_upto(counts, n, k)[i].1 < counts[strokes_upto(counts, n, k)[i].0 as int],
        forall|i: int, j: int|
            0 <= i < j < strokes_upto(counts, n, k).len() ==> stroke_before(
                #[trigger] strokes_upto(counts, n, k)[i],
                #[trigger] strokes_upto(counts, n, k)[j],
            ),
    decreases k,
{
    if k > 0 {
        let p = (k - 1) as nat;
        lemma_strokes_upto_valid(counts, n, p);
        let song = (k - 1) as usize;
        let prev = strokes_upto(counts, n, p);
        let last = song_strokes(song, counts[k - 1], n, counts[k - 1] as nat);
        lemma_song_strokes_valid(song, counts[k - 1], n, counts[k - 1] as nat);
        let r = strokes_upto(counts, n, k);
        assert(r == prev + last);
        assert forall|i: int| 0 <= i < r.len() implies (#[trigger] r[i]).0 < k && r[i].1 < counts[r[i].0 as int] by {
            if i < prev.len() {
                assert(r[i] == prev[i]);
            } else {
                assert(r[i] == last[i - prev.len()]);
            }
        }
        assert forall|i: int, j: int| 0 <= i < j < r.len() implies stroke_before(#[trigger] r[i], #[trigger] r[j]) by {
            if j < prev.len() {
                assert(r[i] == prev[i]);
                assert(r[j] == prev[j]);
            } else if i < prev.len() {
                assert(r[i] == prev[i]);
                assert(r[j] == last[j - prev.len()]);
            } else {
                assert(r[i] == last[i - prev.len()]);
                assert(r[j] == last[j - prev.len()]);
            }
        }
    }
}

/// The strokes of a beat script in which every `n`-th beat strokes name beats
/// that the songs have, in the order in which the songs play them.
pub proof fn lemma_every_nth_strokes_in_order(counts: Seq<usize>, n: usize)
    requires
        counts.len() <= usize::MAX,
    ensures
        forall|i: int|
            0 <= i < every_nth_strokes(counts, n).len() ==> (#[trigger] every_nth_strokes(counts, n)[i]).0
                < counts.len() && every_nth_strokes(counts, n)[i].1 < counts[every_nth_strokes(counts, n)[i].0 as int],
        forall|i: int, j: int|
            0 <= i < j < every_nth_strokes(counts, n).len() ==> stroke_before(
                #[trigger] every_nth_strokes(counts, n)[i],
                #[trigger] every_nth_strokes(counts, n)[j],
            ),
{
    lemma_first_silent_at_most_len(counts, 1);
    lemma_strokes_upto_valid(counts, n, walked_songs(counts) as nat);
}

/// The position of the `i`-th stroke of a beat script: down, then up, in
/// turn.
pub open spec fn stroke_position(i: int) -> i32 {
    if i % 2 == 0 {
        0
    } else {
        100
    }
}

/// The positions of the first `count` strokes of a beat script.
pub fn stroke_positions(count: usize) -> (r: Vec<i32>)
    ensures
        r@.len() == count,
        forall|i: int| 0 <= i < count ==> #[trigger] r@[i] == stroke_position(i),
{
    let mut positions: Vec<i32> = Vec::new();
    let mut state: i32 = 0;
    let mut i: usize = 0;
    while i < count
        invariant
            0 <= i <= count,
            positions@.len() == i,
            state == stroke_position(i as int),
            forall|k: int| 0 <= k < i ==> #[trigger] positions@[k] == stroke_position(k),
        decreases count - i,
    {
        positions.push(state);
        state = if state == 0 { 100 } else { 0 };
        i = i + 1;
    }
    positions
}

} // verus!
