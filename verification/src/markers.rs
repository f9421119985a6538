//! Markers: the tagged stretches of videos that clips are cut from, and how
//! their positions within each video are numbered.

use vstd::prelude::*;
use crate::clip::Clip;
use crate::ids::{MarkerId, VideoId, VideoIdView, VideoSource};
use crate::options::ClipOptions;
use crate::sort::{arranged_items, is_stable_order, stable_order, SortKey};
use crate::text::{less_than, text_lt, lemma_text_lt_irreflexive, lemma_text_lt_transitive};
use crate::sort::{goes_before, key_lt};

verus! {

/// A stretch of a video, tagged with a title. `T` is the type of its times.
#[derive(Debug)]
pub struct Marker<T> {
    pub id: MarkerId,
    pub start_time: T,
    pub end_time: T,
    pub index_within_video: usize,
    pub video_id: VideoId,
    pub title: String,
    pub loops: usize,
}

impl<T: Copy> Marker<T> {
    /// An identical copy of the marker.
    pub fn duplicate(&self) -> (r: Marker<T>)
        ensures
            r == *self,
    {
        Marker {
            id: self.id,
            start_time: self.start_time,
            end_time: self.end_time,
            index_within_video: self.index_within_video,
            video_id: self.video_id.copy(),
            title: self.title.clone(),
            loops: self.loops,
        }
    }
}

/// The clip that covers a whole marker.
pub open spec fn whole_marker_clip<T>(m: Marker<T>) -> Clip<T> {
    Clip {
        source: m.video_id@.source,
        video_id: m.video_id,
        marker_id: m.id,
        range: (m.start_time, m.end_time),
        index_within_marker: 0,
        index_within_video: m.index_within_video,
    }
}

/// One clip for each marker, covering all of it.
pub fn markers_to_clips<T: Copy>(markers: Vec<Marker<T>>) -> (r: Vec<Clip<T>>)
    ensures
        r@.len() == markers@.len(),
        forall|i: int| 0 <= i < r@.len() ==> #[trigger] r@[i] == whole_marker_clip(markers@[i]),
{
    let mut clips: Vec<Clip<T>> = Vec::new();
    let n = markers.len();
    let mut i: usize = 0;
    while i < n
        invariant
            n == markers@.len(),
            0 <= i <= n,
            clips@.len() == i,
            forall|k: int| 0 <= k < i ==> #[trigger] clips@[k] == whole_marker_clip(markers@[k]),
        decreases n - i,
    {
        let m = &markers[i];
        clips.push(
            Clip {
                source: m.video_id.source(),
                video_id: m.video_id.copy(),
                marker_id: m.id,
                range: (m.start_time, m.end_time),
                index_within_marker: 0,
                index_within_video: m.index_within_video,
            },
        );
        i = i + 1;
    }
    clips
}

/// The order of video ids: local files before Stash videos, then by text.
pub open spec fn video_lt(a: VideoIdView, b: VideoIdView) -> bool {
    ||| a.source == VideoSource::LocalFile && b.source == VideoSource::Stash
    ||| a.source == b.source && text_lt(a.text, b.text)
}

fn video_less(a: &VideoId, b: &VideoId) -> (r: bool)
    ensures
        r == video_lt(a@, b@),
{
    let sa = a.source();
    let sb = b.source();
    if sa == VideoSource::LocalFile && sb == VideoSource::Stash {
        true
    } else if sa == sb {
        less_than(a.as_str(), b.as_str())
    } else {
        false
    }
}

/// How many of the first `n` indices satisfy `p`.
pub open spec fn count_where(n: int, p: spec_fn(int) -> bool) -> nat
    decreases n,
{
    if n <= 0 {
        0
    } else {
        count_where(n - 1, p) + if p(n - 1) { 1nat } else { 0nat }
    }
}

/// The rank of marker `i`'s video: how many markers belong to videos that come
/// before it.
pub open spec fn video_rank<T>(ms: Seq<Marker<T>>, i: int) -> nat {
    count_where(ms.len() as int, |j: int| video_lt(ms[j].video_id@, ms[i].video_id@))
}

/// Sort keys that order markers by video.
pub open spec fn video_keys<T>(ms: Seq<Marker<T>>) -> Seq<SortKey> {
    Seq::new(ms.len(), |i: int| (video_rank(ms, i) as usize, 0usize, 0usize, 0usize))
}

/// Marker `j` comes before marker `k` of the same video when their positions
/// are numbered anew: by their old position, ties in the order of the list.
pub open spec fn numbered_before<T>(ms: Seq<Marker<T>>, j: int, k: int) -> bool {
    &&& ms[j].video_id@ == ms[k].video_id@
    &&& (ms[j].index_within_video < ms[k].index_within_video || (ms[j].index_within_video
        == ms[k].index_within_video && j < k))
}

/// The new position of marker `k` within its video.
pub open spec fn new_index<T>(ms: Seq<Marker<T>>, k: int) -> nat {
    count_where(ms.len() as int, |j: int| numbered_before(ms, j, k))
}

/// Marker `m` with its position within its video set to `index`.
pub open spec fn with_index<T>(m: Marker<T>, index: int) -> Marker<T> {
    Marker {
        id: m.id,
        start_time: m.start_time,
        end_time: m.end_time,
        index_within_video: index as usize,
        video_id: m.video_id,
        title: m.title,
        loops: m.loops,
    }
}

/// `out` is `ms` grouped by video (in the order of video ids, keeping the order
/// of the list within a video), with the markers of each video numbered
/// 0, 1, 2, ... by their old position.
pub open spec fn is_normalized<T>(ms: Seq<Marker<T>>, out: Seq<Marker<T>>) -> bool {
    exists|order: Seq<usize>|
        {
            &&& is_stable_order(video_keys(ms), order)
            &&& #[trigger] arranged_items(ms, order).len() == out.len()
            &&& forall|k: int|
                0 <= k < out.len() ==> #[trigger] out[k] == with_index(
                    arranged_items(ms, order)[k],
                    new_index(arranged_items(ms, order), k) as int,
                )
        }
}

proof fn lemma_count_step(n: int, p: spec_fn(int) -> bool)
    requires
        n >= 0,
    ensures
        count_where(n + 1, p) == count_where(n, p) + if p(n) { 1nat } else { 0nat },
        count_where(n, p) <= n,
    decreases n,
{
    if n > 0 {
        lemma_count_step(n - 1, p);
    }
}

fn rank_of<T>(ms: &Vec<Marker<T>>, i: usize) -> (r: usize)
    requires
        i < ms@.len(),
    ensures
        r == video_rank(ms@, i as int),
{
    let n = ms.len();
    let ghost p = |j: int| video_lt(ms@[j].video_id@, ms@[i as int].video_id@);
    let mut count: usize = 0;
    let mut j: usize = 0;
    while j < n
        invariant
            n == ms@.len(),
            i < n,
            0 <= j <= n,
            p == (|j: int| video_lt(ms@[j].video_id@, ms@[i as int].video_id@)),
            count == count_where(j as int, p),
            count <= j,
        decreases n - j,
    {
        proof {
            lemma_count_step(j as int, p);
        }
        if video_less(&ms[j].video_id, &ms[i].video_id) {
            count = count + 1;
        }
        j = j + 1;
    }
    count
}

fn index_of<T>(ms: &Vec<Marker<T>>, k: usize) -> (r: usize)
    requires
        k < ms@.len(),
    ensures
        r == new_index(ms@, k as int),
{
    let n = ms.len();
    let ghost p = |j: int| numbered_before(ms@, j, k as int);
    let mut count: usize = 0;
    let mut j: usize = 0;
    while j < n
        invariant
            n == ms@.len(),
            k < n,
            0 <= j <= n,
            p == (|j: int| numbered_before(ms@, j, k as int)),
            count == count_where(j as int, p),
            count <= j,
        decreases n - j,
    {
        proof {
            lemma_count_step(j as int, p);
        }
        let a = &ms[j];
        let b = &ms[k];
        if a.video_id.same(&b.video_id) && (a.index_within_video < b.index_within_video || (a.index_within_video
            == b.index_within_video && j < k)) {
            count = count + 1;
        }
        j = j + 1;
    }
    count
}

/// Groups markers by video and numbers the markers of each video anew.
pub fn normalize_markers<T: Copy>(markers: Vec<Marker<T>>) -> (out: Vec<Marker<T>>)
    ensures
        is_normalized(markers@, out@),
{
    let n = markers.len();
    let mut keys: Vec<SortKey> = Vec::new();
    let mut i: usize = 0;
    while i < n
        invariant
            n == markers@.len(),
            0 <= i <= n,
            keys@ =~= video_keys(markers@).take(i as int),
        decreases n - i,
    {
        let r = rank_of(&markers, i);
        keys.push((r, 0usize, 0usize, 0usize));
        i = i + 1;
    }
    proof {
        assert(video_keys(markers@).take(n as int) =~= video_keys(markers@));
    }
    let order = stable_order(&keys);
    let mut sorted: Vec<Marker<T>> = Vec::new();
    let mut k: usize = 0;
    while k < order.len()
        invariant
            is_stable_order(video_keys(markers@), order@),
            n == markers@.len(),
            0 <= k <= order@.len(),
            sorted@ =~= arranged_items(markers@, order@.take(k as int)),
        decreases order@.len() - k,
    {
        sorted.push(markers[order[k]].duplicate());
        k = k + 1;
    }
    proof {
        assert(order@.take(order@.len() as int) =~= order@);
    }
    let ghost arranged = sorted@;
    let mut out: Vec<Marker<T>> = Vec::new();
    let m = sorted.len();
    let mut k: usize = 0;
    while k < m
        invariant
            m == sorted@.len(),
            sorted@ == arranged,
            0 <= k <= m,
            out@.len() == k,
            forall|q: int| 0 <= q < k ==> #[trigger] out@[q] == with_index(arranged[q], new_index(arranged, q) as int),
        decreases m - k,
    {
        let index = index_of(&sorted, k);
        let s = &sorted[k];
        out.push(
            Marker {
                id: s.id,
                start_time: s.start_time,
                end_time: s.end_time,
                index_within_video: index,
                video_id: s.video_id.copy(),
                title: s.title.clone(),
                loops: s.loops,
            },
        );
        k = k + 1;
    }
    out
}

/// The markers of a request for clips, with the seed of its random choices and
/// the options.
#[derive(Debug)]
pub struct CreateClipsOptions<T> {
    pub markers: Vec<Marker<T>>,
    pub seed: Option<String>,
    pub clip_options: ClipOptions<T>,
}

impl<T: Copy> CreateClipsOptions<T> {
    /// Groups the markers by video and numbers the markers of each video
    /// 0, 1, 2, ... by their old position.
    pub fn normalize_video_indices(&mut self)
        ensures
            is_normalized(old(self).markers@, final(self).markers@),
            final(self).seed == old(self).seed,
            final(self).clip_options == old(self).clip_options,
    {
        let mut markers: Vec<Marker<T>> = Vec::new();
        std::mem::swap(&mut markers, &mut self.markers);
        self.markers = normalize_markers(markers);
    }
}

/// Counting under a weaker condition counts at least as many, and strictly more
/// when some index satisfies only the weaker one.
pub proof fn lemma_count_mono(n: int, p: spec_fn(int) -> bool, q: spec_fn(int) -> bool, w: int)
    requires
        n >= 0,
        forall|j: int| 0 <= j < n && #[trigger] p(j) ==> q(j),
    ensures
        count_where(n, p) <= count_where(n, q),
        0 <= w < n && q(w) && !p(w) ==> count_where(n, p) < count_where(n, q),
    decreases n,
{
    if n > 0 {
        lemma_count_mono(n - 1, p, q, w);
    }
}

proof fn lemma_video_lt_irreflexive(a: VideoIdView)
    ensures
        !video_lt(a, a),
{
    lemma_text_lt_irreflexive(a.text, 0);
}

proof fn lemma_video_lt_transitive(a: VideoIdView, b: VideoIdView, c: VideoIdView)
    requires
        video_lt(a, b),
        video_lt(b, c),
    ensures
        video_lt(a, c),
{
    if a.source == b.source && b.source == c.source {
        lemma_text_lt_transitive(a.text, b.text, c.text, 0);
    }
}

proof fn lemma_rank_follows_video<T>(ms: Seq<Marker<T>>, i: int, j: int)
    requires
        0 <= i < ms.len(),
        0 <= j < ms.len(),
    ensures
        video_lt(ms[i].video_id@, ms[j].video_id@) ==> video_rank(ms, i) < video_rank(ms, j),
        ms[i].video_id@ == ms[j].video_id@ ==> video_rank(ms, i) == video_rank(ms, j),
{
    let vi = ms[i].video_id@;
    let vj = ms[j].video_id@;
    let p = |x: int| video_lt(ms[x].video_id@, vi);
    let q = |x: int| video_lt(ms[x].video_id@, vj);
    if video_lt(vi, vj) {
        assert forall|x: int| 0 <= x < ms.len() && #[trigger] p(x) implies q(x) by {
            lemma_video_lt_transitive(ms[x].video_id@, vi, vj);
        }
        lemma_video_lt_irreflexive(vi);
        lemma_count_mono(ms.len() as int, p, q, i);
    }
    if vi == vj {
        assert(p =~= q);
    }
}

/// Normalizing puts the markers of each video together, the videos in the
/// order of their ids: a marker never stands after a marker of a later video.
pub proof fn lemma_normalized_grouped<T>(ms: Seq<Marker<T>>, out: Seq<Marker<T>>)
    requires
        is_normalized(ms, out),
        ms.len() <= usize::MAX,
    ensures
        out.len() == ms.len(),
        forall|k: int, l: int|
            0 <= k < l < out.len() ==> !video_lt(#[trigger] out[l].video_id@, #[trigger] out[k].video_id@),
{
    let order = choose|order: Seq<usize>|
        {
            &&& is_stable_order(video_keys(ms), order)
            &&& #[trigger] arranged_items(ms, order).len() == out.len()
            &&& forall|k: int|
                0 <= k < out.len() ==> #[trigger] out[k] == with_index(
                    arranged_items(ms, order)[k],
                    new_index(arranged_items(ms, order), k) as int,
                )
        };
    let keys = video_keys(ms);
    assert forall|k: int, l: int| 0 <= k < l < out.len() implies !video_lt(#[trigger] out[l].video_id@, #[trigger] out[k].video_id@) by {
        let a = order[k] as int;
        let b = order[l] as int;
        assert(out[k].video_id == ms[a].video_id);
        assert(out[l].video_id == ms[b].video_id);
        assert(goes_before(keys, a, b));
        lemma_count_step_bound(ms, a);
        lemma_count_step_bound(ms, b);
        if video_lt(ms[b].video_id@, ms[a].video_id@) {
            lemma_rank_follows_video(ms, b, a);
        }
    }
}

proof fn lemma_count_step_bound<T>(ms: Seq<Marker<T>>, i: int)
    requires
        0 <= i < ms.len(),
        ms.len() <= usize::MAX,
    ensures
        video_rank(ms, i) <= ms.len(),
        video_keys(ms)[i].0 as int == video_rank(ms, i),
{
    lemma_count_step(ms.len() as int, |j: int| video_lt(ms[j].video_id@, ms[i].video_id@));
}

/// Within each video the markers are numbered without repeats or gaps: two
/// markers of one video get different numbers, and each number is smaller
/// than the count of that video's markers.
pub proof fn lemma_new_indices_distinct<T>(a: Seq<Marker<T>>, k: int, l: int)
    requires
        0 <= k < a.len(),
        0 <= l < a.len(),
        k != l,
        a[k].video_id@ == a[l].video_id@,
    ensures
        new_index(a, k) != new_index(a, l),
        new_index(a, k) < count_where(a.len() as int, |j: int| a[j].video_id@ == a[k].video_id@),
{
    let same = |j: int| a[j].video_id@ == a[k].video_id@;
    let pk = |j: int| numbered_before(a, j, k);
    let pl = |j: int| numbered_before(a, j, l);
    assert forall|j: int| 0 <= j < a.len() && #[trigger] pk(j) implies same(j) by {}
    lemma_count_mono(a.len() as int, pk, same, k);
    if numbered_before(a, k, l) {
        assert forall|j: int| 0 <= j < a.len() && #[trigger] pk(j) implies pl(j) by {}
        lemma_count_mono(a.len() as int, pk, pl, k);
    } else {
        assert(numbered_before(a, l, k));
        assert forall|j: int| 0 <= j < a.len() && #[trigger] pl(j) implies pk(j) by {}
        lemma_count_mono(a.len() as int, pl, pk, l);
    }
}

/// The position of the first marker with the given id, or `None` when no
/// marker has it.
pub fn find_marker_index<T>(markers: &Vec<Marker<T>>, id: MarkerId) -> (r: Option<usize>)
    ensures
        r matches Some(i) ==> i < markers@.len() && markers@[i as int].id == id && forall|j: int|
            0 <= j < i ==> markers@[j].id != id,
        r is None ==> forall|j: int| 0 <= j < markers@.len() ==> markers@[j].id != id,
{
    let n = markers.len();
    let mut i: usize = 0;
    while i < n
        invariant
            n == markers@.len(),
            0 <= i <= n,
            forall|j: int| 0 <= j < i ==> markers@[j].id != id,
        decreases n - i,
    {
        if markers[i].id == id {
            return Some(i);
        }
        i = i + 1;
    }
    None
}

} // verus!
