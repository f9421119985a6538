use clip_mash::description::DescriptionType;
use clip_mash::ffprobe::{re_encode_needed, FfProbe, Format, Stream, VideoParameters};

fn stream(codec_type: Option<&str>, codec: Option<&str>, fps: &str, size: Option<(i64, i64)>) -> Stream {
    Stream {
        index: 0,
        codec_name: codec.map(|s| s.to_string()),
        codec_long_name: None,
        codec_type: codec_type.map(|s| s.to_string()),
        codec_time_base: None,
        sample_fmt: None,
        sample_rate: None,
        channels: None,
        bits_per_sample: None,
        r_frame_rate: fps.to_string(),
        avg_frame_rate: fps.to_string(),
        time_base: "1/1000".to_string(),
        start_pts: None,
        start_time: None,
        duration_ts: None,
        duration: None,
        bit_rate: None,
        width: size.map(|s| s.0),
        height: size.map(|s| s.1),
        id: None,
    }
}

fn format() -> Format {
    Format {
        filename: "a.mp4".into(),
        nb_streams: 2,
        nb_programs: 0,
        format_name: "mp4".into(),
        format_long_name: "MP4".into(),
        start_time: None,
        duration: Some("10.5".into()),
        size: None,
        bit_rate: None,
        probe_score: 100,
        tags: None,
    }
}

fn params(fps: &str, w: i64, h: i64, codec: &str) -> VideoParameters {
    VideoParameters { fps: fps.into(), width: w, height: h, codec: codec.into() }
}

#[test]
fn video_parameters_of_first_video_stream() {
    let probe = FfProbe {
        streams: vec![
            stream(Some("audio"), Some("aac"), "0/0", None),
            stream(Some("video"), Some("h264"), "30/1", Some((1920, 1080))),
            stream(Some("video"), Some("hevc"), "60/1", Some((640, 480))),
        ],
        format: format(),
    };
    assert_eq!(probe.video_stream_index(), Some(1));
    assert_eq!(probe.video_parameters(), params("30/1", 1920, 1080, "h264"));
}

#[test]
fn video_parameters_placeholders() {
    let probe = FfProbe { streams: vec![stream(Some("audio"), Some("aac"), "0/0", None)], format: format() };
    assert_eq!(probe.video_parameters(), params("N/A", 0, 0, "N/A"));
    let probe = FfProbe { streams: vec![stream(Some("video"), None, "25/1", None)], format: format() };
    assert_eq!(probe.video_parameters(), params("25/1", 0, 0, "N/A"));
}

#[test]
fn re_encoding_decision() {
    assert!(!re_encode_needed(&vec![]));
    assert!(!re_encode_needed(&vec![Some(params("30/1", 1, 1, "h264")), Some(params("30/1", 1, 1, "h264"))]));
    assert!(re_encode_needed(&vec![Some(params("30/1", 1, 1, "h264")), Some(params("30/1", 1, 2, "h264"))]));
    assert!(re_encode_needed(&vec![Some(params("30/1", 1, 1, "h264")), None]));
}

#[test]
fn content_types() {
    assert_eq!(DescriptionType::Markdown.content_type(), "text/markdown");
    assert_eq!(DescriptionType::Json.content_type(), "application/json");
    assert_eq!(DescriptionType::Yaml.content_type(), "application/yaml");
}
