use clip_mash::clip::{merge_clips, Clip};
use clip_mash::convert::{ClipService, OptionsConverterService, SelectedMarker};
use clip_mash::ids::{MarkerId, VideoId, VideoSource};
use clip_mash::markers::{markers_to_clips, CreateClipsOptions, Marker};
use clip_mash::options::{ClipOptions, ClipOrder, ClipPickerOptions, EqualLengthClipOptions};
use clip_mash::rng::create_seeded_rng;
use clip_mash::sort::{FixedOrderClipSorter, RandomClipSorter, SceneOrderClipSorter};

fn create_marker_video_id(id: i64, start_time: f64, end_time: f64, index: usize, video_id: &str) -> Marker<f64> {
    Marker {
        id: MarkerId::LocalFile(id),
        start_time,
        end_time,
        index_within_video: index,
        video_id: VideoId::LocalFile(video_id.into()),
        title: "Untitled".into(),
        loops: 1,
    }
}

#[test]
fn test_merge_two_clips() {
    let clips = vec![
        Clip {
            index_within_marker: 0,
            index_within_video: 0,
            marker_id: MarkerId::LocalFile(1),
            range: (0.0, 9.0),
            source: VideoSource::LocalFile,
            video_id: VideoId::LocalFile("1".into()),
        },
        Clip {
            index_within_marker: 1,
            index_within_video: 0,
            marker_id: MarkerId::LocalFile(1),
            range: (9.0, 12.0),
            source: VideoSource::LocalFile,
            video_id: VideoId::LocalFile("1".into()),
        },
    ];
    let merged = merge_clips(clips);
    assert_eq!(merged.len(), 1);
    assert_eq!(merged[0].range, (0.0, 12.0));
}

#[test]
fn test_merge_three_clips() {
    let clips = vec![
        Clip {
            index_within_marker: 0,
            index_within_video: 0,
            marker_id: MarkerId::LocalFile(1),
            range: (0.0, 9.0),
            source: VideoSource::LocalFile,
            video_id: VideoId::LocalFile("1".into()),
        },
        Clip {
            index_within_marker: 1,
            index_within_video: 0,
            marker_id: MarkerId::LocalFile(1),
            range: (9.0, 12.0),
            source: VideoSource::LocalFile,
            video_id: VideoId::LocalFile("1".into()),
        },
        Clip {
            index_within_marker: 2,
            index_within_video: 0,
            marker_id: MarkerId::LocalFile(1),
            range: (12.0, 18.0),
            source: VideoSource::LocalFile,
            video_id: VideoId::LocalFile("1".into()),
        },
        Clip {
            index_within_marker: 2,
            index_within_video: 0,
            marker_id: MarkerId::LocalFile(1),
            range: (12.0, 18.0),
            source: VideoSource::LocalFile,
            video_id: VideoId::LocalFile("2".into()),
        },
    ];
    let merged = merge_clips(clips);
    assert_eq!(merged.len(), 2);
    assert_eq!(merged[0].range, (0.0, 18.0));
    assert_eq!(merged[1].range, (12.0, 18.0));
}

#[test]
fn test_normalize_video_indices() {
    let mut options = CreateClipsOptions {
        markers: vec![
            create_marker_video_id(1, 140.0, 190.0, 5, "v2".into()),
            create_marker_video_id(2, 1.0, 17.0, 0, "v1".into()),
            create_marker_video_id(3, 80.0, 120.0, 3, "v2".into()),
            create_marker_video_id(4, 1.0, 15.0, 0, "v3".into()),
            create_marker_video_id(5, 20.0, 60.0, 3, "v1".into()),
        ],
        seed: None,
        clip_options: ClipOptions {
            clip_picker: ClipPickerOptions::EqualLength(EqualLengthClipOptions {
                clip_duration: 30.0,
                divisors: vec![2.0, 3.0, 4.0],
            }),
            order: ClipOrder::SceneOrder,
        },
    };

    options.normalize_video_indices();

    let marker = options.markers.iter().find(|m| m.id == MarkerId::LocalFile(1)).unwrap();
    assert_eq!(marker.index_within_video, 1);

    let marker = options.markers.iter().find(|m| m.id == MarkerId::LocalFile(2)).unwrap();
    assert_eq!(marker.index_within_video, 0);

    let marker = options.markers.iter().find(|m| m.id == MarkerId::LocalFile(3)).unwrap();
    assert_eq!(marker.index_within_video, 0);

    let marker = options.markers.iter().find(|m| m.id == MarkerId::LocalFile(4)).unwrap();
    assert_eq!(marker.index_within_video, 0);

    let marker = options.markers.iter().find(|m| m.id == MarkerId::LocalFile(5)).unwrap();
    assert_eq!(marker.index_within_video, 1);
}

#[test]
fn normalize_groups_markers_by_video_in_order() {
    let mut options = CreateClipsOptions {
        markers: vec![
            create_marker_video_id(1, 0.0, 1.0, 7, "b"),
            create_marker_video_id(2, 0.0, 1.0, 2, "a"),
            create_marker_video_id(3, 0.0, 1.0, 2, "b"),
            create_marker_video_id(4, 0.0, 1.0, 2, "a"),
        ],
        seed: None,
        clip_options: ClipOptions { clip_picker: ClipPickerOptions::NoSplit, order: ClipOrder::NoOp },
    };
    options.normalize_video_indices();
    let ids: Vec<i64> = options.markers.iter().map(|m| m.id.inner()).collect();
    assert_eq!(ids, vec![2, 4, 1, 3]);
    let indices: Vec<usize> = options.markers.iter().map(|m| m.index_within_video).collect();
    // ties keep the order of the list
    assert_eq!(indices, vec![0, 1, 1, 0]);
}

#[test]
fn sort_clips_scene_order() {
    let clips = vec![
        Clip {
            index_within_marker: 0,
            index_within_video: 0,
            marker_id: MarkerId::LocalFile(1),
            range: (0.0, 9.0),
            source: VideoSource::LocalFile,
            video_id: VideoId::LocalFile("video".into()),
        },
        Clip {
            index_within_marker: 0,
            index_within_video: 0,
            marker_id: MarkerId::LocalFile(2),
            range: (1.0, 12.0),
            source: VideoSource::LocalFile,
            video_id: VideoId::LocalFile("video".into()),
        },
    ];
    let mut rng = create_seeded_rng(None).into_rng();
    let sorter = SceneOrderClipSorter;
    let sorted = sorter.sort_clips(clips, &mut rng);

    assert_eq!(sorted[0].range, (1.0, 12.0));
    assert_eq!(sorted[1].range, (0.0, 9.0));
}

fn clip(video: &str, marker: i64, ivideo: usize, imarker: usize, range: (f64, f64)) -> Clip<f64> {
    Clip {
        source: VideoSource::LocalFile,
        video_id: VideoId::LocalFile(video.into()),
        marker_id: MarkerId::LocalFile(marker),
        range,
        index_within_marker: imarker,
        index_within_video: ivideo,
    }
}

#[test]
fn scene_order_sorts_by_position_then_tie_breaker() {
    let clips = vec![
        clip("a", 1, 2, 0, (0.0, 1.0)),
        clip("a", 2, 0, 1, (1.0, 2.0)),
        clip("a", 3, 0, 0, (2.0, 3.0)),
        clip("a", 4, 1, 0, (3.0, 4.0)),
    ];
    let sorted = SceneOrderClipSorter.sort_clips_with(clips, &vec![9, 9, 9, 9]);
    let ids: Vec<i64> = sorted.iter().map(|c| c.marker_id.inner()).collect();
    assert_eq!(ids, vec![3, 2, 4, 1]);

    let clips = vec![clip("a", 1, 0, 0, (0.0, 1.0)), clip("a", 2, 0, 0, (1.0, 2.0))];
    let sorted = SceneOrderClipSorter.sort_clips_with(clips, &vec![5, 3]);
    assert_eq!(sorted[0].marker_id, MarkerId::LocalFile(2));
    // equal keys keep their order
    let clips = vec![clip("a", 1, 0, 0, (0.0, 1.0)), clip("a", 2, 0, 0, (1.0, 2.0))];
    let sorted = SceneOrderClipSorter.sort_clips_with(clips, &vec![4, 4]);
    assert_eq!(sorted[0].marker_id, MarkerId::LocalFile(1));
}

#[test]
fn fixed_order_sorts_by_title_rank() {
    let sorter = FixedOrderClipSorter { marker_titles: vec!["Kiss".to_string(), "Dance".to_string()] };
    assert_eq!(sorter.rank(&"Dance".to_string()), 1);
    assert_eq!(sorter.rank(&"Other".to_string()), usize::MAX);
    let clips = vec![
        clip("a", 1, 0, 0, (0.0, 1.0)),
        clip("a", 2, 1, 0, (1.0, 2.0)),
        clip("a", 3, 2, 0, (2.0, 3.0)),
    ];
    let titles = vec!["Other".to_string(), "Dance".to_string(), "Kiss".to_string()];
    let sorted = sorter.sort_clips_with(clips, &titles, &vec![0, 0, 0]);
    let ids: Vec<i64> = sorted.iter().map(|c| c.marker_id.inner()).collect();
    assert_eq!(ids, vec![3, 2, 1]);
    let mut rng = create_seeded_rng(Some("seed")).into_rng();
    let clips = vec![clip("a", 1, 0, 0, (0.0, 1.0)), clip("a", 2, 1, 0, (1.0, 2.0))];
    let titles = vec!["Dance".to_string(), "Kiss".to_string()];
    let sorted = sorter.sort_clips(clips, &titles, &mut rng);
    assert_eq!(sorted[0].marker_id, MarkerId::LocalFile(2));
}

#[test]
fn random_sorter_keeps_the_clips() {
    let mut rng = create_seeded_rng(None).into_rng();
    let clips: Vec<Clip<f64>> = (0..20).map(|i| clip("a", i, 0, 0, (0.0, 1.0))).collect();
    let sorted = RandomClipSorter.sort_clips(clips, &mut rng);
    let mut ids: Vec<i64> = sorted.iter().map(|c| c.marker_id.inner()).collect();
    ids.sort();
    assert_eq!(ids, (0..20).collect::<Vec<i64>>());
}

#[test]
fn merge_keeps_separate_markers_and_is_idempotent() {
    let clips = vec![
        clip("a", 1, 0, 0, (0.0, 2.0)),
        clip("a", 2, 0, 0, (2.0, 4.0)),
        clip("a", 1, 0, 1, (4.0, 6.0)),
        clip("b", 1, 0, 0, (6.0, 8.0)),
        clip("b", 1, 3, 4, (8.0, 9.0)),
    ];
    let merged = merge_clips(clips);
    let ranges: Vec<(f64, f64)> = merged.iter().map(|c| c.range).collect();
    assert_eq!(ranges, vec![(0.0, 2.0), (2.0, 4.0), (4.0, 6.0), (6.0, 9.0)]);
    assert!(merged.iter().all(|c| c.index_within_marker == 0));
    let again = merge_clips(merged.iter().map(|c| c.duplicate()).collect());
    let ranges_again: Vec<(f64, f64)> = again.iter().map(|c| c.range).collect();
    assert_eq!(ranges, ranges_again);
    assert!(merge_clips::<f64>(vec![]).is_empty());
}

#[test]
fn markers_become_whole_clips() {
    let markers = vec![create_marker_video_id(7, 1.5, 4.0, 3, "x")];
    let clips = markers_to_clips(markers);
    assert_eq!(clips.len(), 1);
    assert_eq!(clips[0].range, (1.5, 4.0));
    assert_eq!(clips[0].marker_id, MarkerId::LocalFile(7));
    assert_eq!(clips[0].index_within_video, 3);
    assert_eq!(clips[0].index_within_marker, 0);
    assert_eq!(clips[0].source, VideoSource::LocalFile);
}

#[test]
fn selected_markers_use_the_selected_range() {
    let service = OptionsConverterService::new(());
    let _clips = ClipService::new(());
    let markers = service.convert_selected_markers(vec![
        SelectedMarker {
            id: MarkerId::Stash(3),
            video_id: VideoId::Stash("12".into()),
            selected_range: (2.0, 5.0),
            index_within_video: 1,
            title: "Kiss".into(),
            loops: 2,
        },
        SelectedMarker {
            id: MarkerId::LocalFile(4),
            video_id: VideoId::LocalFile("v".into()),
            selected_range: (0.0, 1.0),
            index_within_video: 0,
            title: "Dance".into(),
            loops: 1,
        },
    ]);
    assert_eq!(markers.len(), 2);
    assert_eq!((markers[0].start_time, markers[0].end_time), (2.0, 5.0));
    assert_eq!(markers[0].title, "Kiss");
    assert_eq!(markers[1].id, MarkerId::LocalFile(4));
}

#[test]
fn sorted_clips_keep_every_clip() {
    let clips: Vec<Clip<f64>> = (0..12).map(|i| clip("a", i % 4, (i as usize * 7) % 5, (i as usize) % 3, (0.0, 1.0))).collect();
    let randoms: Vec<usize> = (0..12).map(|i| (i * 5) % 4).collect();
    let sorted = SceneOrderClipSorter.sort_clips_with(clips, &randoms);
    let mut ids: Vec<i64> = sorted.iter().map(|c| c.marker_id.inner()).collect();
    ids.sort();
    assert_eq!(ids, vec![0, 0, 0, 1, 1, 1, 2, 2, 2, 3, 3, 3]);
}

#[test]
fn ordering_then_merging() {
    let service = ClipService::new(());
    let mut rng = create_seeded_rng(None).into_rng();
    let clips = vec![
        clip("b", 1, 1, 0, (6.0, 8.0)),
        clip("a", 1, 0, 0, (0.0, 2.0)),
        clip("a", 1, 0, 1, (2.0, 4.0)),
    ];
    // as they came: only the two clips of marker 1 of "a" that follow each other merge
    let kept = service.order_and_merge(clips.iter().map(|c| c.duplicate()).collect(), ClipOrder::NoOp, &mut rng);
    let ranges: Vec<(f64, f64)> = kept.iter().map(|c| c.range).collect();
    assert_eq!(ranges, vec![(6.0, 8.0), (0.0, 4.0)]);
    // scene order puts the clips of "a" first, then merges them
    let scene = service.order_and_merge(clips.iter().map(|c| c.duplicate()).collect(), ClipOrder::SceneOrder, &mut rng);
    let ranges: Vec<(f64, f64)> = scene.iter().map(|c| c.range).collect();
    assert_eq!(ranges, vec![(0.0, 4.0), (6.0, 8.0)]);
}

#[test]
fn same_seed_same_order() {
    let clips = || -> Vec<Clip<f64>> { (0..30).map(|i| clip("a", i, 0, 0, (0.0, 1.0))).collect() };
    let order = |seed: Option<&str>| -> Vec<i64> {
        let mut rng = create_seeded_rng(seed).into_rng();
        RandomClipSorter.sort_clips(clips(), &mut rng).iter().map(|c| c.marker_id.inner()).collect()
    };
    assert_eq!(order(Some("abc")), order(Some("abc")));
    assert_eq!(order(None), order(None));
    assert_ne!(order(Some("abc")), order(Some("xyz")));
}
