use clip_mash::ids::{MarkerId, VideoId};
use clip_mash::markers::Marker;
use clip_mash::weighted::{retain_weighted, validate_weights, WeightError};

fn create_marker(title: &str, start_time: f64, end_time: f64, index: usize) -> Marker<f64> {
    Marker {
        id: MarkerId::LocalFile(index as i64),
        start_time,
        end_time,
        index_within_video: index,
        video_id: VideoId::LocalFile(index.to_string()),
        title: title.to_string(),
        loops: 1,
    }
}

/// Checks weights given as numbers, failing as the weighted picker does.
fn validate_options(markers: &Vec<Marker<f64>>, weights: &[(&str, f64)]) {
    let flags: Vec<(String, bool)> = weights.iter().map(|(t, w)| (t.to_string(), *w > 0.0)).collect();
    match validate_weights(markers, &flags) {
        Ok(()) => {}
        Err(e) => panic!("{}", e.message()),
    }
}

#[test]
fn test_validate_options_valid() {
    let markers = vec![
        create_marker("A", 0.0, 30.0, 0),
        create_marker("B", 0.0, 30.0, 1),
        create_marker("C", 0.0, 30.0, 2),
    ];
    validate_options(&markers, &[("A", 1.0), ("B", 2.0), ("C", 3.0)]);
}

#[test]
#[should_panic(expected = "weight for title A must be greater than 0")]
fn test_validate_options_zero_weight() {
    let markers = vec![create_marker("A", 0.0, 30.0, 0)];
    validate_options(&markers, &[("A", 0.0)]);
}

#[test]
#[should_panic(expected = "no markers found for title B")]
fn test_validate_options_missing_marker() {
    let markers = vec![create_marker("A", 0.0, 30.0, 0)];
    validate_options(&markers, &[("B", 1.0)]);
}

#[test]
#[should_panic(expected = "all markers must have a weight")]
fn test_validate_options_missing_weight() {
    let markers = vec![create_marker("A", 0.0, 30.0, 0)];
    validate_options(&markers, &[]);
}

#[test]
fn markers_without_weight_are_dropped() {
    let markers = vec![
        create_marker("A", 0.0, 30.0, 0),
        create_marker("B", 0.0, 30.0, 1),
        create_marker("A", 5.0, 10.0, 2),
        create_marker("C", 0.0, 30.0, 3),
    ];
    let flags = vec![("A".to_string(), true), ("C".to_string(), true)];
    let kept = retain_weighted(&markers, &flags);
    let ids: Vec<usize> = kept.iter().map(|m| m.index_within_video).collect();
    assert_eq!(ids, vec![0, 2, 3]);
    assert!(validate_weights(&kept, &flags).is_ok());
    assert!(retain_weighted(&markers, &vec![]).is_empty());
}

#[test]
fn weight_error_messages() {
    assert_eq!(WeightError::NotPositive { title: "A".into() }.message(), "weight for title A must be greater than 0");
    assert_eq!(WeightError::NoMarkers { title: "B".into() }.message(), "no markers found for title B");
    assert_eq!(WeightError::MissingWeight.message(), "all markers must have a weight");
}
