//! Orderings of clips: random, by position in the scene, or by a fixed list of
//! marker titles.

use vstd::prelude::*;
use rand::rngs::StdRng;
use crate::clip::Clip;
use crate::rng::{random_usize, shuffle_in_place};

verus! {

/// A sort key: four numbers compared lexicographically.
pub type SortKey = (usize, usize, usize, usize);

/// Lexicographic "less than" on sort keys.
pub open spec fn key_lt(a: SortKey, b: SortKey) -> bool {
    ||| a.0 < b.0
    ||| a.0 == b.0 && a.1 < b.1
    ||| a.0 == b.0 && a.1 == b.1 && a.2 < b.2
    ||| a.0 == b.0 && a.1 == b.1 && a.2 == b.2 && a.3 < b.3
}

/// Item `i` goes before item `j` in a stable sort by `keys`: its key is smaller,
/// or the keys are equal and it came first.
pub open spec fn goes_before(keys: Seq<SortKey>, i: int, j: int) -> bool {
    key_lt(keys[i], keys[j]) || (keys[i] == keys[j] && i < j)
}

/// `order` lists each of the indices `0..n` once.
pub open spec fn is_index_permutation(order: Seq<usize>, n: nat) -> bool {
    &&& order.len() == n
    &&& forall|k: int| 0 <= k < order.len() ==> #[trigger] order[k] < n
    &&& forall|k: int, l: int| 0 <= k < l < order.len() ==> order[k] != order[l]
}

/// `order` is the stable sort of the indices `0..keys.len()` by `keys`.
pub open spec fn is_stable_order(keys: Seq<SortKey>, order: Seq<usize>) -> bool {
    &&& is_index_permutation(order, keys.len())
    &&& forall|k: int, l: int|
        0 <= k < l < order.len() ==> goes_before(keys, #[trigger] order[k] as int, #[trigger] order[l] as int)
}

fn less(a: SortKey, b: SortKey) -> (r: bool)
    ensures
        r == key_lt(a, b),
{
    a.0 < b.0 || (a.0 == b.0 && (a.1 < b.1 || (a.1 == b.1 && (a.2 < b.2 || (a.2 == b.2 && a.3 < b.3)))))
}

/// The positions of the keys in the order of a stable sort by key.
pub fn stable_order(keys: &Vec<SortKey>) -> (order: Vec<usize>)
    ensures
        is_stable_order(keys@, order@),
{
    let n = keys.len();
    let mut order: Vec<usize> = Vec::new();
    let mut i: usize = 0;
    while i < n
        invariant
            n == keys@.len(),
            0 <= i <= n,
            is_stable_order(keys@.take(i as int), order@),
            forall|k: int| 0 <= k < order@.len() ==> #[trigger] order@[k] < i,
        decreases n - i,
    {
        let ki = keys[i];
        let mut j: usize = 0;
        while j < order.len() && !less(ki, keys[order[j]])
            invariant
                n == keys@.len(),
                i < n,
                ki == keys@[i as int],
                0 <= j <= order@.len(),
                is_stable_order(keys@.take(i as int), order@),
                forall|k: int| 0 <= k < order@.len() ==> #[trigger] order@[k] < i,
                forall|m: int| 0 <= m < j ==> !key_lt(ki, #[trigger] keys@[order@[m] as int]),
            decreases order@.len() - j,
        {
            j = j + 1;
        }
        let ghost old_order = order@;
        proof {
            let tk = keys@.take(i as int);
            if j < old_order.len() {
                assert(key_lt(ki, keys@[old_order[j as int] as int]));
                assert forall|m: int| j <= m < old_order.len() implies key_lt(ki, #[trigger] keys@[old_order[m] as int]) by {
                    if m > j {
                        assert(goes_before(tk, old_order[j as int] as int, old_order[m] as int));
                        assert(tk[old_order[j as int] as int] == keys@[old_order[j as int] as int]);
                        assert(tk[old_order[m] as int] == keys@[old_order[m] as int]);
                    }
                }
            }
        }
        order.insert(j, i);
        proof {
            let tk1 = keys@.take(i as int + 1);
            let tk = keys@.take(i as int);
            assert forall|k: int| 0 <= k < order@.len() implies #[trigger] order@[k] < i + 1 by {
                if k < j {
                    assert(order@[k] == old_order[k]);
                } else if k > j {
                    assert(order@[k] == old_order[k - 1]);
                }
            }
            assert forall|k: int, l: int| 0 <= k < l < order@.len() implies order@[k] != order@[l] by {
                if k < j && l < j {
                    assert(order@[k] == old_order[k] && order@[l] == old_order[l]);
                } else if k < j && l == j {
                    assert(order@[k] == old_order[k]);
                } else if k < j && l > j {
                    assert(order@[k] == old_order[k] && order@[l] == old_order[l - 1]);
                } else if k == j {
                    assert(order@[l] == old_order[l - 1]);
                } else {
                    assert(order@[k] == old_order[k - 1] && order@[l] == old_order[l - 1]);
                }
            }
            assert forall|k: int, l: int|
                0 <= k < l < order@.len() implies goes_before(tk1, #[trigger] order@[k] as int, #[trigger] order@[l] as int) by {
                if k < j && l < j {
                    assert(order@[k] == old_order[k] && order@[l] == old_order[l]);
                    assert(goes_before(tk, old_order[k] as int, old_order[l] as int));
                } else if k < j && l == j {
                    assert(order@[k] == old_order[k]);
                    assert(!key_lt(ki, keys@[old_order[k] as int]));
                } else if k < j && l > j {
                    assert(order@[k] == old_order[k] && order@[l] == old_order[l - 1]);
                    assert(goes_before(tk, old_order[k] as int, old_order[l - 1] as int));
                } else if k == j {
                    assert(order@[l] == old_order[l - 1]);
                    assert(key_lt(ki, keys@[old_order[l - 1] as int]));
                } else {
                    assert(order@[k] == old_order[k - 1] && order@[l] == old_order[l - 1]);
                    assert(goes_before(tk, old_order[k - 1] as int, old_order[l - 1] as int));
                }
            }
        }
        i = i + 1;
    }
    proof {
        assert(keys@.take(n as int) =~= keys@);
    }
    order
}

/// The items in the order given by a list of their positions.
pub open spec fn arranged_items<X>(items: Seq<X>, order: Seq<usize>) -> Seq<X> {
    Seq::new(order.len(), |k: int| items[order[k] as int])
}

/// The clips in the order given by a list of their positions.
pub open spec fn arranged<T>(clips: Seq<Clip<T>>, order: Seq<usize>) -> Seq<Clip<T>> {
    Seq::new(order.len(), |k: int| clips[order[k] as int])
}

/// `out` is `clips` sorted stably by `keys`.
pub open spec fn is_stable_sort_of<T>(clips: Seq<Clip<T>>, keys: Seq<SortKey>, out: Seq<Clip<T>>) -> bool {
    &&& keys.len() == clips.len()
    &&& exists|order: Seq<usize>| is_stable_order(keys, order) && out == arranged(clips, order)
}

/// Arranging items by a permutation of their positions keeps each item as many
/// times as it occurs.
pub proof fn lemma_arranged_items_multiset<X>(items: Seq<X>, order: Seq<usize>)
    requires
        is_index_permutation(order, items.len()),
    ensures
        arranged_items(items, order).to_multiset() == items.to_multiset(),
    decreases order.len(),
{
    broadcast use vstd::seq_lib::group_to_multiset_ensures;
    if order.len() == 0 {
        assert(arranged_items(items, order) =~= Seq::<X>::empty());
        assert(items =~= Seq::<X>::empty());
    } else {
        let m = (order.len() - 1) as int;
        let v = order[m] as int;
        let rest = items.remove(v);
        let shifted = Seq::new(
            m as nat,
            |k: int| if order[k] as int > v { (order[k] - 1) as usize } else { order[k] },
        );
        assert forall|k: int, l: int| 0 <= k < l < shifted.len() implies shifted[k] != shifted[l] by {
            assert(order[k] != order[l]);
            assert(order[k] != order[m]);
            assert(order[l] != order[m]);
        }
        assert forall|k: int| 0 <= k < shifted.len() implies #[trigger] shifted[k] < rest.len() by {
            assert(order[k] != order[m]);
            assert(order[k] < items.len());
        }
        lemma_arranged_items_multiset(rest, shifted);
        let out = arranged_items(items, order);
        assert(arranged_items(rest, shifted) =~= out.drop_last()) by {
            assert forall|k: int| 0 <= k < m implies arranged_items(rest, shifted)[k] == out.drop_last()[k] by {
                assert(order[k] != order[m]);
            }
        }
        assert(out =~= out.drop_last().push(items[v]));
        assert(items.to_multiset().count(items[v]) > 0) by {
            assert(items.contains(items[v]));
        }
        assert(out.to_multiset() =~= items.to_multiset());
    }
}

/// Sorting clips neither drops nor repeats any: the output holds each clip of
/// the input as many times as the input does.
pub proof fn lemma_stable_sort_keeps_clips<T>(clips: Seq<Clip<T>>, keys: Seq<SortKey>, out: Seq<Clip<T>>)
    requires
        is_stable_sort_of(clips, keys, out),
    ensures
        out.to_multiset() == clips.to_multiset(),
{
    let order = choose|order: Seq<usize>| is_stable_order(keys, order) && out == arranged(clips, order);
    assert(arranged(clips, order) =~= arranged_items(clips, order));
    lemma_arranged_items_multiset(clips, order);
}

/// Scene order: by position of the marker in its video, then by position of the
/// clip in its marker, then by a random tie breaker.
pub open spec fn scene_keys<T>(clips: Seq<Clip<T>>, randoms: Seq<usize>) -> Seq<SortKey> {
    Seq::new(
        clips.len(),
        |i: int| (clips[i].index_within_video, clips[i].index_within_marker, randoms[i], 0usize),
    )
}

/// Where a title stands in a list of titles, counting from `start`: the first
/// index at which it occurs, or `usize::MAX` when it does not occur.
pub open spec fn title_rank_from(titles: Seq<String>, title: Seq<char>, start: int) -> usize
    decreases titles.len() - start,
{
    if start < 0 || start >= titles.len() {
        usize::MAX
    } else if titles[start]@ == title {
        start as usize
    } else {
        title_rank_from(titles, title, start + 1)
    }
}

/// Where a title stands in a list of titles: the first index at which it
/// occurs, or `usize::MAX` when it does not occur.
pub open spec fn title_rank(titles: Seq<String>, title: Seq<char>) -> usize {
    title_rank_from(titles, title, 0)
}

/// Fixed order: by the rank of the clip's marker title in the list of titles,
/// then as in scene order.
pub open spec fn fixed_keys<T>(
    titles: Seq<String>,
    clips: Seq<Clip<T>>,
    clip_titles: Seq<String>,
    randoms: Seq<usize>,
) -> Seq<SortKey> {
    Seq::new(
        clips.len(),
        |i: int|
            (
                title_rank(titles, clip_titles[i]@),
                clips[i].index_within_video,
                clips[i].index_within_marker,
                randoms[i],
            ),
    )
}

/// In scene order, the pieces of a marker keep their order: of two clips with
/// the same position in their video, the one that comes earlier in its marker
/// comes first, whatever the tie breakers.
pub proof fn lemma_scene_order_keeps_marker_pieces<T>(clips: Seq<Clip<T>>, randoms: Seq<usize>, out: Seq<Clip<T>>)
    requires
        randoms.len() == clips.len(),
        is_stable_sort_of(clips, scene_keys(clips, randoms), out),
    ensures
        forall|k: int, l: int|
            0 <= k < l < out.len() && (#[trigger] out[k]).index_within_video == (#[trigger] out[l]).index_within_video
                ==> out[k].index_within_marker <= out[l].index_within_marker,
{
    let keys = scene_keys(clips, randoms);
    let order = choose|order: Seq<usize>| is_stable_order(keys, order) && out == arranged(clips, order);
    assert forall|k: int, l: int|
        0 <= k < l < out.len() && (#[trigger] out[k]).index_within_video == (#[trigger] out[l]).index_within_video
            implies out[k].index_within_marker <= out[l].index_within_marker by {
        assert(goes_before(keys, order[k] as int, order[l] as int));
        assert(out[k] == clips[order[k] as int] && out[l] == clips[order[l] as int]);
    }
}

/// In the fixed order of a list of titles, the pieces of a marker keep their
/// order: when clips of one marker carry one title, of two pieces of a marker
/// at one position in their video the one that comes earlier in the marker
/// comes first, whatever the tie breakers.
pub proof fn lemma_fixed_order_keeps_marker_pieces<T>(
    titles: Seq<String>,
    clips: Seq<Clip<T>>,
    clip_titles: Seq<String>,
    randoms: Seq<usize>,
    out: Seq<Clip<T>>,
)
    requires
        clip_titles.len() == clips.len(),
        randoms.len() == clips.len(),
        forall|a: int, b: int|
            0 <= a < clips.len() && 0 <= b < clips.len() && (#[trigger] clips[a]).marker_id == (#[trigger] clips[b]).marker_id
                ==> clip_titles[a]@ == clip_titles[b]@,
        is_stable_sort_of(clips, fixed_keys(titles, clips, clip_titles, randoms), out),
    ensures
        forall|k: int, l: int|
            0 <= k < l < out.len() && (#[trigger] out[k]).marker_id == (#[trigger] out[l]).marker_id
                && out[k].index_within_video == out[l].index_within_video ==> out[k].index_within_marker
                <= out[l].index_within_marker,
{
    let keys = fixed_keys(titles, clips, clip_titles, randoms);
    let order = choose|order: Seq<usize>| is_stable_order(keys, order) && out == arranged(clips, order);
    assert forall|k: int, l: int|
        0 <= k < l < out.len() && (#[trigger] out[k]).marker_id == (#[trigger] out[l]).marker_id
            && out[k].index_within_video == out[l].index_within_video implies out[k].index_within_marker
            <= out[l].index_within_marker by {
        let a = order[k] as int;
        let b = order[l] as int;
        assert(goes_before(keys, a, b));
        assert(out[k] == clips[a] && out[l] == clips[b]);
        assert(clip_titles[a]@ == clip_titles[b]@);
    }
}

/// Puts the clips in the order of a stable sort by `keys`.
pub fn sort_clips_by_keys<T: Copy>(clips: Vec<Clip<T>>, keys: &Vec<SortKey>) -> (out: Vec<Clip<T>>)
    requires
        keys@.len() == clips@.len(),
    ensures
        is_stable_sort_of(clips@, keys@, out@),
{
    let order = stable_order(keys);
    let mut out: Vec<Clip<T>> = Vec::new();
    let mut k: usize = 0;
    while k < order.len()
        invariant
            is_stable_order(keys@, order@),
            keys@.len() == clips@.len(),
            0 <= k <= order@.len(),
            out@ =~= arranged(clips@, order@.take(k as int)),
        decreases order@.len() - k,
    {
        let c = clips[order[k]].duplicate();
        out.push(c);
        k = k + 1;
    }
    proof {
        assert(order@.take(order@.len() as int) =~= order@);
        assert(out@ =~= arranged(clips@, order@));
    }
    out
}

/// One random number per clip, for breaking ties.
fn draw_randoms(n: usize, rng: &mut StdRng) -> (r: Vec<usize>)
    ensures
        r@.len() == n,
{
    let mut randoms: Vec<usize> = Vec::new();
    let mut i: usize = 0;
    while i < n
        invariant
            0 <= i <= n,
            randoms@.len() == i,
        decreases n - i,
    {
        let r = random_usize(rng);
        randoms.push(r);
        i = i + 1;
    }
    randoms
}

/// Puts clips in a random order.
#[derive(Debug)]
pub struct RandomClipSorter;

impl RandomClipSorter {
    /// The same clips, shuffled.
    pub fn sort_clips<T>(&self, clips: Vec<Clip<T>>, rng: &mut StdRng) -> (out: Vec<Clip<T>>)
        ensures
            out@.to_multiset() == clips@.to_multiset(),
    {
        let mut clips = clips;
        shuffle_in_place(&mut clips, rng);
        clips
    }
}

/// Puts clips in the order in which they stand in their videos.
#[derive(Debug)]
pub struct SceneOrderClipSorter;

impl SceneOrderClipSorter {
    /// Sorts by scene order, with the given tie breakers.
    pub fn sort_clips_with<T: Copy>(&self, clips: Vec<Clip<T>>, randoms: &Vec<usize>) -> (out: Vec<Clip<T>>)
        requires
            randoms@.len() == clips@.len(),
        ensures
            is_stable_sort_of(clips@, scene_keys(clips@, randoms@), out@),
    {
        let n = clips.len();
        let mut keys: Vec<SortKey> = Vec::new();
        let mut i: usize = 0;
        while i < n
            invariant
                n == clips@.len(),
                randoms@.len() == n,
                0 <= i <= n,
                keys@ =~= scene_keys(clips@, randoms@).take(i as int),
            decreases n - i,
        {
            let c = &clips[i];
            keys.push((c.index_within_video, c.index_within_marker, randoms[i], 0usize));
            i = i + 1;
        }
        proof {
            assert(scene_keys(clips@, randoms@).take(n as int) =~= scene_keys(clips@, randoms@));
        }
        sort_clips_by_keys(clips, &keys)
    }

    /// Sorts by scene order, breaking ties with numbers drawn from `rng`.
    pub fn sort_clips<T: Copy>(&self, clips: Vec<Clip<T>>, rng: &mut StdRng) -> (out: Vec<Clip<T>>)
        ensures
            exists|randoms: Seq<usize>|
                randoms.len() == clips@.len() && is_stable_sort_of(clips@, #[trigger] scene_keys(clips@, randoms), out@),
    {
        let randoms = draw_randoms(clips.len(), rng);
        let ghost input = clips@;
        let out = self.sort_clips_with(clips, &randoms);
        assert(is_stable_sort_of(input, scene_keys(input, randoms@), out@));
        out
    }
}

/// Puts clips in the order of a list of marker titles; clips whose title is not
/// listed come last.
#[derive(Debug)]
pub struct FixedOrderClipSorter {
    pub marker_titles: Vec<String>,
}

impl FixedOrderClipSorter {
    /// The rank of a title in the list of marker titles.
    pub fn rank(&self, title: &String) -> (r: usize)
        ensures
            r == title_rank(self.marker_titles@, title@),
    {
        let titles = &self.marker_titles;
        let n = titles.len();
        let mut j: usize = 0;
        while j < n
            invariant
                n == titles@.len(),
                titles@ == self.marker_titles@,
                0 <= j <= n,
                title_rank(titles@, title@) == title_rank_from(titles@, title@, j as int),
            decreases n - j,
        {
            let found = titles[j].eq(title);
            if found {
                assert(titles@[j as int]@ == title@);
                assert(title_rank_from(titles@, title@, j as int) == j);
                return j;
            }
            j = j + 1;
        }
        usize::MAX
    }

    /// Sorts by the rank of each clip's marker title (`clip_titles[i]` is the
    /// title of `clips[i]`), with the given tie breakers.
    pub fn sort_clips_with<T: Copy>(
        &self,
        clips: Vec<Clip<T>>,
        clip_titles: &Vec<String>,
        randoms: &Vec<usize>,
    ) -> (out: Vec<Clip<T>>)
        requires
            randoms@.len() == clips@.len(),
            clip_titles@.len() == clips@.len(),
        ensures
            is_stable_sort_of(clips@, fixed_keys(self.marker_titles@, clips@, clip_titles@, randoms@), out@),
    {
        let n = clips.len();
        let ghost want = fixed_keys(self.marker_titles@, clips@, clip_titles@, randoms@);
        let mut keys: Vec<SortKey> = Vec::new();
        let mut i: usize = 0;
        while i < n
            invariant
                n == clips@.len(),
                randoms@.len() == n,
                clip_titles@.len() == n,
                want == fixed_keys(self.marker_titles@, clips@, clip_titles@, randoms@),
                0 <= i <= n,
                keys@ =~= want.take(i as int),
            decreases n - i,
        {
            let c = &clips[i];
            let r = self.rank(&clip_titles[i]);
            keys.push((r, c.index_within_video, c.index_within_marker, randoms[i]));
            i = i + 1;
        }
        proof {
            assert(want.take(n as int) =~= want);
        }
        sort_clips_by_keys(clips, &keys)
    }

    /// Sorts by the rank of each clip's marker title, breaking ties with numbers
    /// drawn from `rng`.
    pub fn sort_clips<T: Copy>(
        &self,
        clips: Vec<Clip<T>>,
        clip_titles: &Vec<String>,
        rng: &mut StdRng,
    ) -> (out: Vec<Clip<T>>)
        requires
            clip_titles@.len() == clips@.len(),
        ensures
            exists|randoms: Seq<usize>|
                randoms.len() == clips@.len() && is_stable_sort_of(
                    clips@,
                    #[trigger] fixed_keys(self.marker_titles@, clips@, clip_titles@, randoms),
                    out@,
                ),
    {
        let randoms = draw_randoms(clips.len(), rng);
        let ghost input = clips@;
        let out = self.sort_clips_with(clips, clip_titles, &randoms);
        assert(is_stable_sort_of(input, fixed_keys(self.marker_titles@, input, clip_titles@, randoms@), out@));
        out
    }
}

} // verus!
