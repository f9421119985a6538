//! Clips cut out of markers, and merging of adjacent clips.

use vstd::prelude::*;
use crate::ids::{MarkerId, VideoId, VideoSource};

verus! {

/// A part of a marker that goes into the compilation. `T` is the type in which
/// times are measured; the logic here only moves times around.
#[derive(Debug)]
pub struct Clip<T> {
    pub source: VideoSource,
    pub video_id: VideoId,
    pub marker_id: MarkerId,
    pub range: (T, T),
    pub index_within_marker: usize,
    pub index_within_video: usize,
}

impl<T: Copy> Clip<T> {
    /// An identical copy of the clip.
    pub fn duplicate(&self) -> (r: Clip<T>)
        ensures
            r == *self,
    {
        Clip {
            source: self.source,
            video_id: self.video_id.copy(),
            marker_id: self.marker_id,
            range: self.range,
            index_within_marker: self.index_within_marker,
            index_within_video: self.index_within_video,
        }
    }
}

/// Two clips belong to one group when they come from the same video and marker.
pub open spec fn same_group<T>(a: Clip<T>, b: Clip<T>) -> bool {
    a.video_id@ == b.video_id@ && a.marker_id == b.marker_id
}

/// The clip that starts a new group: the clip itself, counted as the first of its marker.
pub open spec fn group_start<T>(c: Clip<T>) -> Clip<T> {
    Clip {
        source: c.source,
        video_id: c.video_id,
        marker_id: c.marker_id,
        range: c.range,
        index_within_marker: 0,
        index_within_video: c.index_within_video,
    }
}

/// A group's clip stretched to end where `c` ends.
pub open spec fn extend_to<T>(g: Clip<T>, c: Clip<T>) -> Clip<T> {
    Clip {
        source: g.source,
        video_id: g.video_id,
        marker_id: g.marker_id,
        range: (g.range.0, c.range.1),
        index_within_marker: g.index_within_marker,
        index_within_video: g.index_within_video,
    }
}

/// Merging of runs of adjacent clips from the same video and marker: each run
/// becomes one clip that keeps the first clip's fields, starts where the first
/// clip starts and ends where the last clip ends.
pub open spec fn merged<T>(s: Seq<Clip<T>>) -> Seq<Clip<T>>
    decreases s.len(),
{
    if s.len() == 0 {
        Seq::empty()
    } else {
        let prev = merged(s.drop_last());
        let c = s.last();
        if prev.len() > 0 && same_group(prev.last(), c) {
            prev.update(prev.len() - 1, extend_to(prev.last(), c))
        } else {
            prev.push(group_start(c))
        }
    }
}

/// Merges runs of adjacent clips that come from the same video and marker.
pub fn merge_clips<T: Copy>(input: Vec<Clip<T>>) -> (clips: Vec<Clip<T>>)
    ensures
        clips@ == merged(input@),
{
    let mut clips: Vec<Clip<T>> = Vec::new();
    let n = input.len();
    let mut i: usize = 0;
    while i < n
        invariant
            n == input@.len(),
            0 <= i <= n,
            clips@ == merged(input@.take(i as int)),
        decreases n - i,
    {
        let c = &input[i];
        let k = clips.len();
        proof {
            assert(input@.take(i as int + 1).drop_last() =~= input@.take(i as int));
        }
        if k > 0 && clips[k - 1].video_id.same(&c.video_id) && clips[k - 1].marker_id == c.marker_id {
            let g = &clips[k - 1];
            let extended = Clip {
                source: g.source,
                video_id: g.video_id.copy(),
                marker_id: g.marker_id,
                range: (g.range.0, c.range.1),
                index_within_marker: g.index_within_marker,
                index_within_video: g.index_within_video,
            };
            clips.set(k - 1, extended);
        } else {
            let started = Clip {
                source: c.source,
                video_id: c.video_id.copy(),
                marker_id: c.marker_id,
                range: c.range,
                index_within_marker: 0,
                index_within_video: c.index_within_video,
            };
            clips.push(started);
        }
        i = i + 1;
    }
    proof {
        assert(input@.take(n as int) =~= input@);
    }
    clips
}

/// A sequence of clips in merged form: no two neighbours belong to one group,
/// and every clip is the first of its marker.
pub open spec fn is_merged<T>(m: Seq<Clip<T>>) -> bool {
    &&& forall|i: int| 0 <= i < m.len() - 1 ==> !same_group(#[trigger] m[i], m[i + 1])
    &&& forall|i: int| 0 <= i < m.len() ==> (#[trigger] m[i]).index_within_marker == 0
}

/// Merging never yields more clips than it was given, and yields none exactly
/// when it was given none.
pub proof fn lemma_merged_len<T>(s: Seq<Clip<T>>)
    ensures
        merged(s).len() <= s.len(),
        (merged(s).len() == 0) == (s.len() == 0),
    decreases s.len(),
{
    if s.len() > 0 {
        lemma_merged_len(s.drop_last());
    }
}

/// The result of a merge is in merged form.
pub proof fn lemma_merged_is_merged<T>(s: Seq<Clip<T>>)
    ensures
        is_merged(merged(s)),
    decreases s.len(),
{
    if s.len() > 0 {
        lemma_merged_is_merged(s.drop_last());
        let prev = merged(s.drop_last());
        let m = merged(s);
        assert forall|i: int| 0 <= i < m.len() - 1 implies !same_group(#[trigger] m[i], m[i + 1]) by {
            if i < prev.len() - 1 {
                assert(m[i] == prev[i]);
            }
        }
        assert forall|i: int| 0 <= i < m.len() implies (#[trigger] m[i]).index_within_marker == 0 by {
            if i < prev.len() {
                assert(prev[i].index_within_marker == 0);
            }
        }
    }
}

/// Clips that are already in merged form are left as they are.
pub proof fn lemma_merged_fixed_point<T>(m: Seq<Clip<T>>)
    requires
        is_merged(m),
    ensures
        merged(m) == m,
    decreases m.len(),
{
    if m.len() > 0 {
        let p = m.drop_last();
        assert(is_merged(p)) by {
            assert forall|i: int| 0 <= i < p.len() - 1 implies !same_group(#[trigger] p[i], p[i + 1]) by {
                assert(p[i] == m[i] && p[i + 1] == m[i + 1]);
            }
            assert forall|i: int| 0 <= i < p.len() implies (#[trigger] p[i]).index_within_marker == 0 by {
                assert(p[i] == m[i]);
            }
        }
        lemma_merged_fixed_point(p);
        let c = m.last();
        assert(c.index_within_marker == 0);
        if p.len() > 0 {
            assert(!same_group(m[m.len() - 2], m[m.len() - 1]));
        }
        assert(group_start(c) == c);
        assert(p.push(c) =~= m);
    }
}

/// Merging twice gives what merging once gives.
pub proof fn lemma_merge_idempotent<T>(s: Seq<Clip<T>>)
    ensures
        merged(merged(s)) == merged(s),
{
    lemma_merged_is_merged(s);
    lemma_merged_fixed_point(merged(s));
}

/// The merged clips start where the first clip starts and end where the last
/// clip ends.
pub proof fn lemma_merged_span<T>(s: Seq<Clip<T>>)
    requires
        s.len() > 0,
    ensures
        merged(s).len() > 0,
        merged(s)[0].range.0 == s[0].range.0,
        merged(s).last().range.1 == s.last().range.1,
    decreases s.len(),
{
    if s.len() > 1 {
        lemma_merged_span(s.drop_last());
        assert(s.drop_last()[0] == s[0]);
        let prev = merged(s.drop_last());
        let m = merged(s);
        if same_group(prev.last(), s.last()) {
            assert(m[0].range.0 == prev[0].range.0);
        } else {
            assert(m[0] == prev[0]);
        }
    } else {
        assert(s.drop_last().len() == 0);
        assert(merged(s.drop_last()).len() == 0);
        assert(s.last() == s[0]);
    }
}

} // verus!
