use clip_mash::ffprobe::VideoParameters;
use clip_mash::generator::{choose_soundtrack, clip_re_encode_flag, concat_songs_args, Soundtrack};
use clip_mash::library::{merged_marker_count, StashMarkerAction};
use clip_mash::rng::create_seeded_rng;
use clip_mash::util::generate_id;

fn params(fps: &str, width: i64) -> VideoParameters {
    VideoParameters { fps: fps.to_string(), width, height: 720, codec: "h264".to_string() }
}

#[test]
fn soundtrack_by_number_of_songs() {
    assert!(matches!(choose_soundtrack(&vec![]), Soundtrack::Silent));
    match choose_soundtrack(&vec!["/music/a.mp3".to_string()]) {
        Soundtrack::Song(path) => assert_eq!(path, "/music/a.mp3"),
        other => panic!("unexpected {:?}", other),
    }
    assert!(matches!(choose_soundtrack(&vec!["a".to_string(), "b".to_string()]), Soundtrack::Joined));
}

#[test]
fn songs_joined_by_ffmpeg() {
    assert_eq!(
        concat_songs_args("/music/x.aac"),
        vec!["-f", "concat", "-safe", "0", "-i", "songs.txt", "-c:a", "aac", "-b:a", "128k", "/music/x.aac"]
    );
}

#[test]
fn clip_flag_from_probes() {
    assert!(clip_re_encode_flag(&vec![Some(params("30", 1280)), Some(params("30", 1280))]));
    assert!(!clip_re_encode_flag(&vec![Some(params("30", 1280)), Some(params("25", 1280))]));
    assert!(!clip_re_encode_flag(&vec![Some(params("30", 1280)), None]));
}

#[test]
fn marker_count_after_merge() {
    let actions = vec![
        StashMarkerAction::Create,
        StashMarkerAction::Update { db_index: 0 },
        StashMarkerAction::Create,
    ];
    assert_eq!(merged_marker_count(4, &actions), 6);
    assert_eq!(merged_marker_count(4, &vec![]), 4);
}

#[test]
fn ids_from_word_lists() {
    let adjectives = vec!["brave".to_string(), "quiet".to_string()];
    let animals = vec!["otter".to_string()];
    let mut rng = create_seeded_rng(None).into_rng();
    for _ in 0..20 {
        let id = generate_id(&adjectives, &animals, &mut rng);
        let parts: Vec<&str> = id.split('-').collect();
        assert_eq!(parts.len(), 3);
        assert!(adjectives.iter().any(|a| a == parts[0]));
        assert!(adjectives.iter().any(|a| a == parts[1]));
        assert_eq!(parts[2], "otter");
    }
    let single = generate_id(&vec!["red".to_string()], &vec!["fox".to_string()], &mut rng);
    assert_eq!(single, "red-red-fox");
}
