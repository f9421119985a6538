use clip_mash::ids::{MarkerId, VideoId};
use clip_mash::library::{funscript_path, stash_created_on, stash_video_record, video_title_from_path};
use clip_mash::markers::{find_marker_index, Marker};
use clip_mash::rng::create_seeded_rng;
use clip_mash::stash::{SceneFile, SceneRecord};
use clip_mash::util::{file_name_of, generate_id};
use regex::Regex;

fn scene(id: &str, title: Option<&str>, created_at: &str) -> SceneRecord<f64> {
    SceneRecord {
        id: id.to_string(),
        title: title.map(|t| t.to_string()),
        performers: vec![],
        screenshot: None,
        studio: None,
        tags: vec!["a".to_string(), "b".to_string()],
        rating100: None,
        interactive: true,
        marker_count: 0,
        files: vec![SceneFile { basename: "scene.mp4".to_string(), duration: 42.5 }],
        created_at: created_at.to_string(),
    }
}

#[test]
fn creation_times_of_scenes() {
    assert_eq!(stash_created_on("2023-05-01T10:00:00Z"), Some(1682935200));
    assert_eq!(stash_created_on("2023-05-01T10:00:00+02:00"), Some(1682928000));
    assert_eq!(stash_created_on("1970-01-01T00:00:00Z"), Some(0));
    assert_eq!(stash_created_on("yesterday"), None);
    assert_eq!(stash_created_on(""), None);
}

#[test]
fn records_of_stash_videos() {
    let r = stash_video_record(&scene("17", Some("Title"), "2023-05-01T10:00:00Z"));
    assert_eq!(r.title, Some("Title".to_string()));
    assert_eq!(r.tags, "a;b");
    assert_eq!(r.stash_scene_id, 17);
    assert_eq!(r.duration, 42.5);
    assert!(r.interactive);
    assert_eq!(r.created_on, Some(1682935200));
    let r = stash_video_record(&scene("3", None, "not a time"));
    assert_eq!(r.title, Some("scene.mp4".to_string()));
    assert_eq!(r.created_on, None);
}

fn marker(id: i64) -> Marker<f64> {
    Marker {
        id: MarkerId::LocalFile(id),
        start_time: 0.0,
        end_time: 1.0,
        index_within_video: 0,
        video_id: VideoId::LocalFile("v".into()),
        title: "t".into(),
        loops: 1,
    }
}

#[test]
fn markers_found_by_id() {
    let markers = vec![marker(4), marker(7), marker(7)];
    assert_eq!(find_marker_index(&markers, MarkerId::LocalFile(7)), Some(1));
    assert_eq!(find_marker_index(&markers, MarkerId::LocalFile(4)), Some(0));
    assert_eq!(find_marker_index(&markers, MarkerId::Stash(4)), None);
    assert_eq!(find_marker_index::<f64>(&vec![], MarkerId::LocalFile(1)), None);
}

#[test]
fn titles_and_scripts_of_video_files() {
    assert_eq!(video_title_from_path("/videos/clip.mp4"), Some("clip".to_string()));
    assert_eq!(video_title_from_path("/videos/a.tar.gz"), Some("a.tar".to_string()));
    assert_eq!(video_title_from_path("/"), None);
    assert_eq!(funscript_path("/videos/clip.mp4"), "/videos/clip.funscript");
    assert_eq!(funscript_path("/videos/.hidden"), "/videos/.hidden.funscript");
    assert_eq!(funscript_path("a.tar.gz"), "a.tar.funscript");
    assert_eq!(funscript_path("plain"), "plain.funscript");
}

#[test]
fn util_test_expect_file_name() {
    let path = "/Users/test/123.txt";
    let file_name = file_name_of(path).expect("path must have a file name here");
    assert_eq!("123.txt", file_name);
}

#[test]
fn test_generate_id() {
    let adjectives = vec!["happy".to_string(), "calm".to_string(), "brave".to_string()];
    let animals = vec!["otter".to_string(), "lynx".to_string()];
    let mut rng = create_seeded_rng(Some("ids")).into_rng();
    let id = generate_id(&adjectives, &animals, &mut rng);
    let regex = Regex::new("[a-z]+-[a-z]+-[a-z]+").unwrap();
    assert!(regex.is_match(&id));
}
