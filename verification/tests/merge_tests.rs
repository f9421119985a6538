use clip_mash::library::{
    can_decide_stash_marker, copy_to_stash, decide_stash_marker, find_video_by_scene, is_video_extension, is_video_file, join_tags, merge_title,
    merged_tags, stash_video_title, MergeError, StashMarkerAction, TAG_SEPARATOR,
};
use clip_mash::stash::{SceneFile, SceneRecord};
use clip_mash::textjoin::{join_strings, list_file_content};

fn record(title: Option<&str>, files: Vec<&str>) -> SceneRecord<f64> {
    SceneRecord {
        id: "1".into(),
        title: title.map(|t| t.to_string()),
        performers: vec![],
        screenshot: None,
        studio: None,
        tags: vec![],
        rating100: None,
        interactive: false,
        marker_count: 0,
        files: files.into_iter().map(|f| SceneFile { basename: f.to_string(), duration: 1.0 }).collect(),
        created_at: "2023-05-01T10:00:00Z".to_string(),
    }
}

fn strings(v: &[&str]) -> Vec<String> {
    v.iter().map(|s| s.to_string()).collect()
}

#[test]
fn video_extensions() {
    assert!(is_video_extension("mp4"));
    assert!(is_video_extension("m4v"));
    assert!(is_video_extension("webm"));
    assert!(!is_video_extension("MP4"));
    assert!(!is_video_extension("mkv"));
    assert!(!is_video_extension(""));
}

#[test]
fn tags_joined_by_separator() {
    assert_eq!(TAG_SEPARATOR, ";");
    assert_eq!(join_tags(&strings(&["a", "b", "c"])), "a;b;c");
    assert_eq!(join_tags(&strings(&["only"])), "only");
    assert_eq!(join_tags(&vec![]), "");
    assert_eq!(join_strings(&strings(&["x", "", "y"]), ", "), "x, , y");
}

#[test]
fn title_of_stash_video() {
    assert_eq!(stash_video_title(&record(Some("Scene"), vec!["f.mp4"])), Some("Scene".to_string()));
    assert_eq!(stash_video_title(&record(Some(""), vec!["f.mp4", "g.mp4"])), Some("f.mp4".to_string()));
    assert_eq!(stash_video_title(&record(None, vec!["g.mp4"])), Some("g.mp4".to_string()));
    assert_eq!(stash_video_title(&record(None, vec![])), None);
}

#[test]
fn video_found_by_scene_id() {
    let ids = vec![None, Some(3), Some(5), Some(3)];
    assert_eq!(find_video_by_scene(&ids, 3), Some(1));
    assert_eq!(find_video_by_scene(&ids, 5), Some(2));
    assert_eq!(find_video_by_scene(&ids, 4), None);
    assert_eq!(find_video_by_scene(&vec![], 4), None);
}

#[test]
fn titles_when_merging() {
    let old = Some("Old".to_string());
    assert_eq!(merge_title(&old, &Some("New".to_string())), Some("New".to_string()));
    assert_eq!(merge_title(&old, &Some("Old".to_string())), None);
    assert_eq!(merge_title(&old, &Some("".to_string())), None);
    assert_eq!(merge_title(&old, &None), None);
    assert_eq!(merge_title(&None, &Some("New".to_string())), Some("New".to_string()));
}

#[test]
fn stash_marker_decisions() {
    let stored = vec![None, Some(10), Some(20), Some(10)];
    assert_eq!(decide_stash_marker(&stored, "10", false), Ok((10, StashMarkerAction::Update { db_index: 1 })));
    assert_eq!(decide_stash_marker(&stored, "20", true), Ok((20, StashMarkerAction::Update { db_index: 2 })));
    assert_eq!(decide_stash_marker(&stored, "30", false), Ok((30, StashMarkerAction::Create)));
    assert!(!can_decide_stash_marker(&stored, "30", true));
    assert!(can_decide_stash_marker(&stored, "30", false));
    assert!(can_decide_stash_marker(&stored, "20", true));
    assert!(can_decide_stash_marker(&stored, "x", true));
    assert_eq!(decide_stash_marker(&stored, "abc", false), Err(MergeError::InvalidMarkerId));
    assert_eq!(decide_stash_marker(&stored, "", false), Err(MergeError::InvalidMarkerId));
}

#[test]
fn markers_copied_to_stash() {
    assert!(copy_to_stash(None, false));
    assert!(!copy_to_stash(None, true));
    assert!(!copy_to_stash(Some(4), false));
    assert!(!copy_to_stash(Some(4), true));
}

#[test]
fn concat_list_files() {
    let names = strings(&["/tmp/a.mp4", "/tmp/b.mp4"]);
    assert_eq!(list_file_content(&names, true), "file '/tmp/a.mp4'\nfile '/tmp/b.mp4'");
    assert_eq!(list_file_content(&names, false), "file '/tmp/a.mp4\nfile '/tmp/b.mp4");
    assert_eq!(list_file_content(&vec![], true), "");
}

#[test]
fn tags_when_merging() {
    assert_eq!(merged_tags(&vec![]), None);
    assert_eq!(merged_tags(&strings(&["x", "y"])), Some("x;y".to_string()));
}

#[test]
fn video_files_by_extension() {
    assert!(is_video_file("/videos/a.mp4"));
    assert!(is_video_file("clip.final.webm"));
    assert!(is_video_file("/videos/dir.d/a.m4v"));
    assert!(!is_video_file("/videos/a.mkv"));
    assert!(!is_video_file("/videos/.mp4"));
    assert!(!is_video_file("/videos/mp4"));
    assert!(!is_video_file("/videos/a.mp4/.."));
    assert!(!is_video_file("/videos/a."));
    // a trailing separator still names the file
    assert!(is_video_file("/videos/a.mp4/"));
}
