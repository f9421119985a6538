use clip_mash::ffmpeg::{Ffmpeg, FfmpegLocation};
use clip_mash::generator::{
    compile_args, create_clip_args, sorted_unique_ids, video_encoding_parameters, CreateClip, EncodingEffort,
    VideoCodec, VideoQuality,
};

#[test]
fn ffmpeg_arguments_in_order() {
    let mut ffmpeg = Ffmpeg::new(&FfmpegLocation::System, "out.webp".to_string());
    ffmpeg
        .input("in.mp4".to_string())
        .extra_arg("-frames:v".to_string())
        .extra_arg("1".to_string())
        .start_at("12.5".to_string())
        .video_filter("scale=800:-1".to_string());
    assert_eq!(ffmpeg.executable_path, "ffmpeg");
    assert_eq!(
        ffmpeg.build_args(),
        vec![
            "-hide_banner", "-loglevel", "warning", "-ss", "12.5", "-i", "in.mp4", "-filter:v", "scale=800:-1",
            "-frames:v", "1", "out.webp"
        ]
    );
    let mut probe = Ffmpeg::new(&FfmpegLocation::System, "-".to_string());
    probe.input("a".to_string()).input("b".to_string()).format("null".to_string()).log_level("info".to_string());
    assert_eq!(probe.build_args(), vec!["-hide_banner", "-loglevel", "info", "-i", "a", "-i", "b", "-f", "null", "-"]);
}

#[test]
fn ffmpeg_locations() {
    assert_eq!(FfmpegLocation::System.ffprobe(), "ffprobe");
    let local = FfmpegLocation::Local("/opt/ff".to_string());
    assert!(local.ffmpeg().ends_with("ffmpeg"));
    assert!(local.ffmpeg().starts_with("/opt/ff"));
}

#[test]
fn encoding_parameters_table() {
    assert_eq!(
        video_encoding_parameters(VideoCodec::H264, VideoQuality::High, EncodingEffort::Low),
        vec!["-c:v", "libx264", "-preset", "veryfast", "-crf", "19"]
    );
    assert_eq!(
        video_encoding_parameters(VideoCodec::Av1, VideoQuality::Lossless, EncodingEffort::High),
        vec!["-c:v", "libsvtav1", "-preset", "10", "-crf", "20"]
    );
    assert_eq!(
        video_encoding_parameters(VideoCodec::H265, VideoQuality::Low, EncodingEffort::Medium),
        vec!["-c:v", "libx265", "-preset", "medium", "-crf", "32"]
    );
}

#[test]
fn clip_and_compile_arguments() {
    let clip = CreateClip {
        url: "http://x/v.mp4",
        start: "1.5",
        duration: "3",
        filter: "fps=30",
        out_file: "c.mp4",
        codec: VideoCodec::H264,
        quality: VideoQuality::Medium,
        effort: EncodingEffort::Medium,
        re_encode: false,
    };
    assert_eq!(
        create_clip_args(&clip),
        vec![
            "-hide_banner", "-loglevel", "warning", "-ss", "1.5", "-i", "http://x/v.mp4", "-t", "3", "-c:v", "copy",
            "-c:a", "copy", "c.mp4"
        ]
    );
    let clip = CreateClip { re_encode: true, ..clip };
    assert_eq!(
        create_clip_args(&clip),
        vec![
            "-hide_banner", "-loglevel", "warning", "-ss", "1.5", "-i", "http://x/v.mp4", "-t", "3", "-c:v",
            "libx264", "-preset", "medium", "-crf", "24", "-acodec", "aac", "-vf", "fps=30", "-ar", "48000", "c.mp4"
        ]
    );
    assert_eq!(
        compile_args("out.mp4", None, "f"),
        vec!["-hide_banner", "-y", "-loglevel", "warning", "-f", "concat", "-i", "clips.txt", "-c", "copy", "out.mp4"]
    );
    assert_eq!(compile_args("out.mp4", Some("song.aac"), "f").len(), 23);
}

#[test]
fn video_ids_sorted_and_unique() {
    assert_eq!(sorted_unique_ids(&vec!["b", "a", "b", "c", "a"]), vec!["a", "b", "c"]);
    assert_eq!(sorted_unique_ids(&vec!["ab", "a", "b"]), vec!["a", "ab", "b"]);
    assert!(sorted_unique_ids(&vec![]).is_empty());
}
