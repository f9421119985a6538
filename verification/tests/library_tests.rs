use clip_mash::clip::Clip;
use clip_mash::directories::{Directories, FolderType};
use clip_mash::ids::{MarkerId, VideoId, VideoSource};
use clip_mash::markers::Marker;
use clip_mash::stash::{ListVideoOptions, SceneFile, SceneRecord, StashScene};
use clip_mash::streams::{LocalVideoSource, StreamUrlService, StreamVideo};
use clip_mash::text::less_than;
use clip_mash::util::{add_api_key, file_name_of, parse_i64, prefix_before_underscore, try_add_api_key, video_id_from_path};
use clip_mash::video::{DbVideo, Video, VideoInfo};
use clip_mash::weighted::{validate_weights, WeightError};

#[test]
fn test_add_api_key() {
    let result = add_api_key("http://localhost:3001", "super-secret-123");
    assert_eq!(result, "http://localhost:3001/?apikey=super-secret-123");
}

#[test]
fn api_key_on_unparsable_url() {
    assert_eq!(try_add_api_key("not a url", "k"), None);
    assert_eq!(try_add_api_key("http://h/p?x=1", "k"), Some("http://h/p?x=1&apikey=k".to_string()));
}

#[test]
fn parse_numbers_like_std() {
    for text in ["0", "42", "-17", "+5", "", "-", "+", "12a", "9223372036854775807", "9223372036854775808",
        "-9223372036854775808", "-9223372036854775809", "000000000000000000000000123", "99999999999999999999999"] {
        assert_eq!(parse_i64(text), text.parse::<i64>().ok(), "{}", text);
    }
}

#[test]
fn ids_from_preview_paths() {
    assert_eq!(prefix_before_underscore("abc_12.5"), Some("abc".to_string()));
    assert_eq!(prefix_before_underscore("abc"), None);
    assert_eq!(video_id_from_path("/cache/preview-images/xYz_10.png"), Some("xYz".to_string()));
    assert_eq!(video_id_from_path("/cache/preview-images/plain.png"), None);
    assert_eq!(video_id_from_path("/cache/preview-images/a_b_c.tar.gz"), Some("a".to_string()));
    assert_eq!(video_id_from_path("/cache/preview-images/.x_1"), Some(".x".to_string()));
    assert_eq!(video_id_from_path("id_5"), Some("id".to_string()));
    assert_eq!(video_id_from_path("/"), None);
}

#[test]
fn file_names_of_paths() {
    assert_eq!(file_name_of("/Users/test/123.txt"), Some("123.txt".to_string()));
    assert_eq!(file_name_of("relative/dir/"), Some("dir".to_string()));
    assert_eq!(file_name_of("name"), Some("name".to_string()));
    assert_eq!(file_name_of("/"), None);
    assert_eq!(file_name_of("a/.."), None);
}

#[test]
fn text_order() {
    assert!(less_than("a", "b"));
    assert!(less_than("a", "ab"));
    assert!(!less_than("b", "ab"));
    assert!(!less_than("a", "a"));
}

fn scene(screenshot: Option<&str>) -> SceneRecord<f64> {
    SceneRecord {
        id: "42".into(),
        title: None,
        performers: vec!["P".into()],
        screenshot: screenshot.map(|s| s.to_string()),
        studio: Some("S".into()),
        tags: vec!["t1".into(), "t2".into()],
        rating100: Some(80),
        interactive: true,
        marker_count: 3,
        files: vec![SceneFile { basename: "file.mp4".into(), duration: 12.5 }],
        created_at: "2023-05-01T10:00:00+02:00".into(),
    }
}

#[test]
fn stash_scene_for_the_interface() {
    let s = StashScene::from(scene(Some("http://stash/scene/42/screenshot")), "key");
    assert_eq!(s.image_url, Some("http://stash/scene/42/screenshot?apikey=key".to_string()));
    assert_eq!(s.title, "");
    assert_eq!(s.marker_count, 3);
    assert!(StashScene::try_from_scene(scene(Some("::")), "key").is_none());
    assert!(StashScene::try_from_scene(scene(None), "key").unwrap().image_url.is_none());
    let options = ListVideoOptions { url: None, page: None, size: None, query: None };
    assert_eq!(options.base_path(), "http://localhost:5174");
}

#[test]
fn videos_from_scenes() {
    let video = Video::from_scene(scene(None));
    assert_eq!(video.title, "file.mp4");
    assert_eq!(video.file_name, "file.mp4");
    assert_eq!(video.tags, Some(vec!["t1".to_string(), "t2".to_string()]));
    assert_eq!(video.stash_scene_id(), Some(42));
    assert_eq!(video.duration(), 12.5);
    let local = Video {
        id: "v".into(),
        title: "t".into(),
        tags: None,
        interactive: false,
        file_name: "f".into(),
        performers: vec![],
        info: VideoInfo::LocalFile {
            video: DbVideo {
                id: "v".into(),
                file_path: "/f.mp4".into(),
                interactive: false,
                source: clip_mash::video::VideoSource::Folder,
                duration: 3.0,
                video_preview_image: None,
                stash_scene_id: Some(7),
                video_title: None,
                video_tags: None,
            },
        },
    };
    assert_eq!(local.stash_scene_id(), Some(7));
    assert_eq!(local.duration(), 3.0);
}

fn clip(video: VideoId) -> Clip<f64> {
    Clip {
        source: video.source(),
        video_id: video,
        marker_id: MarkerId::LocalFile(1),
        range: (0.0, 1.0),
        index_within_marker: 0,
        index_within_video: 0,
    }
}

#[test]
fn streams_of_clips() {
    let service = StreamUrlService::with_parts((), ());
    let videos = vec![
        StreamVideo { video_id: "a".into(), file_path: Some("/v/a.mp4".into()), stash_stream_url: None },
        StreamVideo { video_id: "s".into(), file_path: None, stash_stream_url: Some("http://stash/s".into()) },
    ];
    let clips = vec![
        clip(VideoId::LocalFile("a".into())),
        clip(VideoId::Stash("s".into())),
        clip(VideoId::LocalFile("a".into())),
        clip(VideoId::LocalFile("missing".into())),
    ];
    let streams = service.get_clip_streams(&clips, &videos, LocalVideoSource::File);
    assert_eq!(
        streams,
        vec![("a".to_string(), "/v/a.mp4".to_string()), ("s".to_string(), "http://stash/s".to_string())]
    );
    let streams = service.get_clip_streams(&clips, &videos, LocalVideoSource::Url);
    assert_eq!(streams.len(), 3);
    assert_eq!(streams[0].1, "/api/library/video/a/file");
    assert_eq!(streams[2], ("missing".to_string(), "/api/library/video/missing/file".to_string()));
    assert_eq!(service.get_stream_url(VideoSource::Stash, "x", LocalVideoSource::File, &videos), None);
}

#[test]
fn streams_of_library_videos() {
    let service = StreamUrlService::with_parts((), ());
    let videos = vec![
        StreamVideo { video_id: "a".into(), file_path: Some("/v/a.mp4".into()), stash_stream_url: None },
        StreamVideo { video_id: "s".into(), file_path: None, stash_stream_url: Some("http://stash/s".into()) },
        StreamVideo { video_id: "a".into(), file_path: Some("/v/other.mp4".into()), stash_stream_url: None },
        StreamVideo { video_id: "n".into(), file_path: None, stash_stream_url: None },
    ];
    let sources = vec![VideoSource::LocalFile, VideoSource::Stash, VideoSource::LocalFile, VideoSource::Stash];
    let streams = service.get_video_streams(&videos, &sources, LocalVideoSource::File);
    assert_eq!(
        streams,
        vec![("a".to_string(), "/v/a.mp4".to_string()), ("s".to_string(), "http://stash/s".to_string())]
    );
    let streams = service.get_video_streams(&videos, &sources, LocalVideoSource::Url);
    assert_eq!(streams[0], ("a".to_string(), "/api/library/video/a/file".to_string()));
    assert_eq!(streams.len(), 2);
}

#[test]
fn directory_layout() {
    let dirs = Directories::from_base_dir("/base");
    assert!(dirs.cache_dir().ends_with("cache"));
    assert!(dirs.temp_video_dir().ends_with("clips"));
    assert!(dirs.get(FolderType::Database).ends_with("videos.sqlite3"));
    assert_eq!(dirs.get(FolderType::Config), dirs.config_dir());
    assert!(dirs.config_file_path().ends_with("config.json"));
    assert_eq!(dirs.cache_dir(), "/base/cache");
    assert_eq!(dirs.data_dir(), "/base/data");
    assert_eq!(dirs.temp_video_dir(), "/base/cache/videos/clips");
    assert_eq!(dirs.get(FolderType::CompilationVideo), "/base/cache/videos/finished");
    assert_eq!(dirs.get(FolderType::DownloadedVideo), "/base/cache/videos/downloaded");
    assert_eq!(dirs.get(FolderType::Music), "/base/cache/music");
    assert_eq!(dirs.preview_image_dir(), "/base/cache/preview-images");
    assert_eq!(dirs.database_file(), "/base/data/videos.sqlite3");
    let trailing = Directories::from_base_dir("/base/");
    assert_eq!(trailing.config_dir(), "/base/config");
}

fn marker(title: &str) -> Marker<f64> {
    Marker {
        id: MarkerId::LocalFile(1),
        start_time: 0.0,
        end_time: 30.0,
        index_within_video: 0,
        video_id: VideoId::LocalFile("v".into()),
        title: title.into(),
        loops: 1,
    }
}

#[test]
fn weight_checks() {
    let markers = vec![marker("A"), marker("B")];
    assert!(validate_weights(&markers, &vec![("A".into(), true), ("B".into(), true)]).is_ok());
    match validate_weights(&vec![marker("A")], &vec![("A".into(), false)]) {
        Err(WeightError::NotPositive { title }) => assert_eq!(title, "A"),
        other => panic!("unexpected {:?}", other),
    }
    match validate_weights(&vec![marker("A")], &vec![("B".into(), true)]) {
        Err(WeightError::NoMarkers { title }) => assert_eq!(title, "B"),
        other => panic!("unexpected {:?}", other),
    }
    assert!(matches!(validate_weights(&vec![marker("A")], &vec![]), Err(WeightError::MissingWeight)));
}
