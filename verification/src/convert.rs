//! Turning the requests of the user interface into the library's options.

use vstd::prelude::*;
use crate::ids::{MarkerId, VideoId};
use crate::markers::Marker;
use crate::clip::{merge_clips, merged, Clip};
use crate::options::ClipOrder;
use crate::sort::{is_stable_sort_of, scene_keys, RandomClipSorter, SceneOrderClipSorter};
use rand::rngs::StdRng;

verus! {

/// A marker as the user selected it: the part of it to use, and its place.
#[derive(Debug)]
pub struct SelectedMarker<T> {
    pub id: MarkerId,
    pub video_id: VideoId,
    pub selected_range: (T, T),
    pub index_within_video: usize,
    pub title: String,
    pub loops: usize,
}

/// The marker that a selection stands for: the selected part of it.
pub open spec fn selected_marker<T>(s: SelectedMarker<T>) -> Marker<T> {
    Marker {
        id: s.id,
        start_time: s.selected_range.0,
        end_time: s.selected_range.1,
        index_within_video: s.index_within_video,
        video_id: s.video_id,
        title: s.title,
        loops: s.loops,
    }
}

/// Converts requests; `D` reaches the library.
pub struct OptionsConverterService<D> {
    db: D,
}

impl<D> OptionsConverterService<D> {
    /// A converter that reaches the library through `db`.
    pub fn new(db: D) -> (r: Self)
        ensures
            r.db() == db,
    {
        Self { db }
    }

    /// What the converter reaches the library through.
    pub closed spec fn db(&self) -> D {
        self.db
    }

    /// The markers that the selections stand for, in the same order.
    pub fn convert_selected_markers<T>(&self, markers: Vec<SelectedMarker<T>>) -> (r: Vec<Marker<T>>)
        ensures
            r@.len() == markers@.len(),
            forall|i: int| 0 <= i < r@.len() ==> #[trigger] r@[i] == selected_marker(markers@[i]),
    {
        let mut results: Vec<Marker<T>> = Vec::new();
        let mut markers = markers;
        let ghost input = markers@;
        let n = markers.len();
        let mut i: usize = 0;
        while i < n
            invariant
                n == input.len(),
                0 <= i <= n,
                markers@ == input.skip(i as int),
                results@.len() == i,
                forall|k: int| 0 <= k < i ==> #[trigger] results@[k] == selected_marker(input[k]),
            decreases n - i,
        {
            proof {
                assert(markers@[0] == input[i as int]);
            }
            let selected = markers.remove(0);
            proof {
                assert(markers@ =~= input.skip(i as int + 1));
            }
            let (start_time, end_time) = selected.selected_range;
            results.push(
                Marker {
                    start_time,
                    end_time,
                    id: selected.id,
                    video_id: selected.video_id,
                    index_within_video: selected.index_within_video,
                    title: selected.title,
                    loops: selected.loops,
                },
            );
            i = i + 1;
        }
        results
    }
}

/// Arranges clips; `D` reaches the library.
pub struct ClipService<D> {
    db: D,
}

impl<D> ClipService<D> {
    /// A service that reaches the library through `db`.
    pub fn new(db: D) -> (r: Self)
        ensures
            r.db() == db,
    {
        Self { db }
    }

    /// What the service reaches the library through.
    pub closed spec fn db(&self) -> D {
        self.db
    }

    /// The last steps of arranging picked clips: puts them in the requested
    /// order, then merges neighbours that continue each other.
    pub fn order_and_merge<T: Copy>(&self, clips: Vec<Clip<T>>, order: ClipOrder, rng: &mut StdRng) -> (r: Vec<Clip<T>>)
        ensures
            exists|sorted: Seq<Clip<T>>| ordered_as(order, clips@, sorted) && r@ == merged(sorted),
    {
        let ghost input = clips@;
        let sorted = match order {
            ClipOrder::Random => RandomClipSorter.sort_clips(clips, rng),
            ClipOrder::SceneOrder => SceneOrderClipSorter.sort_clips(clips, rng),
            ClipOrder::NoOp => clips,
        };
        let ghost s = sorted@;
        assert(ordered_as(order, input, s));
        merge_clips(sorted)
    }
}

/// `out` holds `clips` in the requested order: shuffled, in scene order with
/// some tie breakers, or as they came.
pub open spec fn ordered_as<T>(order: ClipOrder, clips: Seq<Clip<T>>, out: Seq<Clip<T>>) -> bool {
    match order {
        ClipOrder::Random => out.to_multiset() == clips.to_multiset(),
        ClipOrder::SceneOrder => exists|randoms: Seq<usize>|
            randoms.len() == clips.len() && is_stable_sort_of(clips, #[trigger] scene_keys(clips, randoms), out),
        ClipOrder::NoOp => out == clips,
    }
}

} // verus!
