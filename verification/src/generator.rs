//! The `ffmpeg` command lines that cut clips and join them into a compilation.

use vstd::prelude::*;
use crate::ffmpeg::str_texts;
use crate::util::digits_value;
use crate::ffprobe::{needs_re_encoding, re_encode_needed, VideoParameters};
use crate::text::{less_than, text_lt, lemma_text_lt_irreflexive, lemma_text_lt_transitive, lemma_text_eq_of_not_lt};

verus! {

/// The video codec of the compilation.
#[derive(Debug, Clone, Copy, PartialEq, Eq, Structural)]
pub enum VideoCodec {
    H264,
    H265,
    Av1,
}

/// The quality of the encoded video.
#[derive(Debug, Clone, Copy, PartialEq, Eq, Structural)]
pub enum VideoQuality {
    Low,
    Medium,
    High,
    Lossless,
}

/// How much effort the encoder spends.
#[derive(Debug, Clone, Copy, PartialEq, Eq, Structural)]
pub enum EncodingEffort {
    Low,
    Medium,
    High,
}

/// The encoder library for a codec.
pub open spec fn encoder_name(codec: VideoCodec) -> Seq<char> {
    match codec {
        VideoCodec::H264 => "libx264"@,
        VideoCodec::H265 => "libx265"@,
        VideoCodec::Av1 => "libsvtav1"@,
    }
}

/// The encoder preset for an effort: a number for AV1, a speed name otherwise.
pub open spec fn preset_name(codec: VideoCodec, effort: EncodingEffort) -> Seq<char> {
    match codec {
        VideoCodec::Av1 => match effort {
            EncodingEffort::Low => "3"@,
            EncodingEffort::Medium => "7"@,
            EncodingEffort::High => "10"@,
        },
        _ => match effort {
            EncodingEffort::Low => "veryfast"@,
            EncodingEffort::Medium => "medium"@,
            EncodingEffort::High => "slow"@,
        },
    }
}

/// The constant rate factor for a quality, per codec.
pub open spec fn crf_value(codec: VideoCodec, quality: VideoQuality) -> Seq<char> {
    match codec {
        VideoCodec::H264 => match quality {
            VideoQuality::Low => "28"@,
            VideoQuality::Medium => "24"@,
            VideoQuality::High => "19"@,
            VideoQuality::Lossless => "16"@,
        },
        VideoCodec::H265 => match quality {
            VideoQuality::Low => "32"@,
            VideoQuality::Medium => "28"@,
            VideoQuality::High => "24"@,
            VideoQuality::Lossless => "16"@,
        },
        VideoCodec::Av1 => match quality {
            VideoQuality::Low => "35"@,
            VideoQuality::Medium => "30"@,
            VideoQuality::High => "26"@,
            VideoQuality::Lossless => "20"@,
        },
    }
}

/// The encoder arguments: `-c:v <encoder> -preset <preset> -crf <crf>`.
pub open spec fn encoding_args(codec: VideoCodec, quality: VideoQuality, effort: EncodingEffort) -> Seq<Seq<char>> {
    seq!["-c:v"@, encoder_name(codec), "-preset"@, preset_name(codec, effort), "-crf"@, crf_value(codec, quality)]
}

/// How high a quality is: lowest first.
pub open spec fn quality_level(quality: VideoQuality) -> int {
    match quality {
        VideoQuality::Low => 0,
        VideoQuality::Medium => 1,
        VideoQuality::High => 2,
        VideoQuality::Lossless => 3,
    }
}

/// The constant rate factor that the encoder arguments ask for, as a number.
pub open spec fn requested_crf(codec: VideoCodec, quality: VideoQuality, effort: EncodingEffort) -> int {
    digits_value(encoding_args(codec, quality, effort)[5])
}

/// The arguments always name the encoder, then the preset, then the constant
/// rate factor; and for every codec a higher quality asks for a strictly lower
/// rate factor (less compression), whatever the effort.
pub proof fn lemma_crf_falls_as_quality_rises(
    codec: VideoCodec,
    low: VideoQuality,
    high: VideoQuality,
    effort: EncodingEffort,
)
    requires
        quality_level(low) < quality_level(high),
    ensures
        encoding_args(codec, high, effort).len() == 6,
        encoding_args(codec, high, effort)[0] == "-c:v"@,
        encoding_args(codec, high, effort)[2] == "-preset"@,
        encoding_args(codec, high, effort)[4] == "-crf"@,
        requested_crf(codec, high, effort) < requested_crf(codec, low, effort),
{
    lemma_crf_numbers(codec, low, effort);
    lemma_crf_numbers(codec, high, effort);
}

/// The rate factors of H.264: 28, 24, 19 and 16 for low, medium, high and
/// lossless quality, whatever the effort.
pub proof fn lemma_h264_crf(effort: EncodingEffort)
    ensures
        requested_crf(VideoCodec::H264, VideoQuality::Low, effort) == 28,
        requested_crf(VideoCodec::H264, VideoQuality::Medium, effort) == 24,
        requested_crf(VideoCodec::H264, VideoQuality::High, effort) == 19,
        requested_crf(VideoCodec::H264, VideoQuality::Lossless, effort) == 16,
{
    lemma_crf_numbers(VideoCodec::H264, VideoQuality::Low, effort);
    lemma_crf_numbers(VideoCodec::H264, VideoQuality::Medium, effort);
    lemma_crf_numbers(VideoCodec::H264, VideoQuality::High, effort);
    lemma_crf_numbers(VideoCodec::H264, VideoQuality::Lossless, effort);
}

proof fn lemma_crf_numbers(codec: VideoCodec, quality: VideoQuality, effort: EncodingEffort)
    ensures
        requested_crf(codec, quality, effort) == match codec {
            VideoCodec::H264 => match quality {
                VideoQuality::Low => 28int,
                VideoQuality::Medium => 24,
                VideoQuality::High => 19,
                VideoQuality::Lossless => 16,
            },
            VideoCodec::H265 => match quality {
                VideoQuality::Low => 32int,
                VideoQuality::Medium => 28,
                VideoQuality::High => 24,
                VideoQuality::Lossless => 16,
            },
            VideoCodec::Av1 => match quality {
                VideoQuality::Low => 35int,
                VideoQuality::Medium => 30,
                VideoQuality::High => 26,
                VideoQuality::Lossless => 20,
            },
        },
        encoding_args(codec, quality, effort).len() == 6,
        encoding_args(codec, quality, effort)[0] == "-c:v"@,
        encoding_args(codec, quality, effort)[2] == "-preset"@,
        encoding_args(codec, quality, effort)[4] == "-crf"@,
{
    reveal_strlit("16");
    reveal_strlit("19");
    reveal_strlit("20");
    reveal_strlit("24");
    reveal_strlit("26");
    reveal_strlit("28");
    reveal_strlit("30");
    reveal_strlit("32");
    reveal_strlit("35");
    reveal_with_fuel(digits_value, 3);
}

/// The encoder arguments for a codec, quality and effort.
pub fn video_encoding_parameters(
    codec: VideoCodec,
    quality: VideoQuality,
    effort: EncodingEffort,
) -> (r: Vec<&'static str>)
    ensures
        str_texts(r@) == encoding_args(codec, quality, effort),
{
    let encoder = match codec {
        VideoCodec::H264 => "libx264",
        VideoCodec::H265 => "libx265",
        VideoCodec::Av1 => "libsvtav1",
    };
    let preset = match codec {
        VideoCodec::Av1 => match effort {
            EncodingEffort::Low => "3",
            EncodingEffort::Medium => "7",
            EncodingEffort::High => "10",
        },
        _ => match effort {
            EncodingEffort::Low => "veryfast",
            EncodingEffort::Medium => "medium",
            EncodingEffort::High => "slow",
        },
    };
    let crf = match codec {
        VideoCodec::H264 => match quality {
            VideoQuality::Low => "28",
            VideoQuality::Medium => "24",
            VideoQuality::High => "19",
            VideoQuality::Lossless => "16",
        },
        VideoCodec::H265 => match quality {
            VideoQuality::Low => "32",
            VideoQuality::Medium => "28",
            VideoQuality::High => "24",
            VideoQuality::Lossless => "16",
        },
        VideoCodec::Av1 => match quality {
            VideoQuality::Low => "35",
            VideoQuality::Medium => "30",
            VideoQuality::High => "26",
            VideoQuality::Lossless => "20",
        },
    };
    let mut args: Vec<&'static str> = Vec::new();
    args.push("-c:v");
    args.push(encoder);
    args.push("-preset");
    args.push(preset);
    args.push("-crf");
    args.push(crf);
    proof {
        assert(str_texts(args@) =~= encoding_args(codec, quality, effort));
    }
    args
}

/// What cutting one clip needs: where it starts and how long it is (as
/// texts), the stream, the output file, and how to encode.
pub struct CreateClip<'a> {
    pub url: &'a str,
    pub start: &'a str,
    pub duration: &'a str,
    pub filter: &'a str,
    pub out_file: &'a str,
    pub codec: VideoCodec,
    pub quality: VideoQuality,
    pub effort: EncodingEffort,
    pub re_encode: bool,
}

/// The arguments that cut one clip: seek, read the stream for the clip's
/// duration, then either re-encode (video encoder, AAC audio at 48 kHz, the
/// scaling filter) or copy both streams, and write the output file.
pub open spec fn clip_args(c: CreateClip) -> Seq<Seq<char>> {
    seq!["-hide_banner"@, "-loglevel"@, "warning"@, "-ss"@, c.start@, "-i"@, c.url@, "-t"@, c.duration@]
        + if c.re_encode {
        encoding_args(c.codec, c.quality, c.effort) + seq![
            "-acodec"@,
            "aac"@,
            "-vf"@,
            c.filter@,
            "-ar"@,
            "48000"@,
        ]
    } else {
        seq!["-c:v"@, "copy"@, "-c:a"@, "copy"@]
    } + seq![c.out_file@]
}

fn push_all<'a>(args: &mut Vec<&'a str>, more: Vec<&'a str>)
    ensures
        str_texts(final(args)@) == str_texts(old(args)@) + str_texts(more@),
{
    let n = more.len();
    let ghost start = str_texts(args@);
    let mut i: usize = 0;
    while i < n
        invariant
            n == more@.len(),
            0 <= i <= n,
            str_texts(args@) == start + str_texts(more@.take(i as int)),
        decreases n - i,
    {
        let ghost prior = str_texts(args@);
        args.push(more[i]);
        proof {
            assert(str_texts(args@) =~= prior + seq![more@[i as int]@]);
            assert(str_texts(more@.take(i as int + 1)) =~= str_texts(more@.take(i as int)) + seq![more@[i as int]@]);
            assert(str_texts(args@) =~= start + str_texts(more@.take(i as int + 1)));
        }
        i = i + 1;
    }
    proof {
        assert(more@.take(n as int) =~= more@);
    }
}

/// The arguments that cut one clip.
pub fn create_clip_args<'a>(c: &CreateClip<'a>) -> (r: Vec<&'a str>)
    ensures
        str_texts(r@) == clip_args(*c),
{
    let mut args: Vec<&'a str> = Vec::new();
    args.push("-hide_banner");
    args.push("-loglevel");
    args.push("warning");
    args.push("-ss");
    args.push(c.start);
    args.push("-i");
    args.push(c.url);
    args.push("-t");
    args.push(c.duration);
    let ghost head = str_texts(args@);
    if c.re_encode {
        let params = video_encoding_parameters(c.codec, c.quality, c.effort);
        push_all(&mut args, params);
        let mut tail: Vec<&'a str> = Vec::new();
        tail.push("-acodec");
        tail.push("aac");
        tail.push("-vf");
        tail.push(c.filter);
        tail.push("-ar");
        tail.push("48000");
        push_all(&mut args, tail);
    } else {
        let mut tail: Vec<&'a str> = Vec::new();
        tail.push("-c:v");
        tail.push("copy");
        tail.push("-c:a");
        tail.push("copy");
        push_all(&mut args, tail);
    }
    let ghost body = str_texts(args@);
    args.push(c.out_file);
    proof {
        assert(str_texts(args@) =~= body + seq![c.out_file@]);
        assert(str_texts(args@) =~= clip_args(*c));
    }
    args
}

/// The arguments that join the clips listed in `clips.txt` into `destination`:
/// by copying the streams, or, with a soundtrack, by mixing its audio into the
/// clips' audio with `filter`.
pub open spec fn concat_args(destination: Seq<char>, audio: Option<Seq<char>>, filter: Seq<char>) -> Seq<Seq<char>> {
    let head = seq!["-hide_banner"@, "-y"@, "-loglevel"@, "warning"@, "-f"@, "concat"@, "-i"@, "clips.txt"@];
    match audio {
        None => head + seq!["-c"@, "copy"@, destination],
        Some(a) => head + seq![
            "-i"@,
            a,
            "-filter_complex"@,
            filter,
            "-map"@,
            "0:v:0"@,
            "-map"@,
            "[a]"@,
            "-c:v"@,
            "copy"@,
            "-c:a"@,
            "aac"@,
            "-b:a"@,
            "128k"@,
            destination,
        ],
    }
}

/// The arguments that join the clips into the compilation.
pub fn compile_args<'a>(destination: &'a str, audio: Option<&'a str>, filter: &'a str) -> (r: Vec<&'a str>)
    ensures
        str_texts(r@) == concat_args(
            destination@,
            match audio { Some(a) => Some(a@), None => None },
            filter@,
        ),
{
    let mut args: Vec<&'a str> = Vec::new();
    args.push("-hide_banner");
    args.push("-y");
    args.push("-loglevel");
    args.push("warning");
    args.push("-f");
    args.push("concat");
    args.push("-i");
    args.push("clips.txt");
    let ghost head = str_texts(args@);
    match audio {
        None => {
            args.push("-c");
            args.push("copy");
            args.push(destination);
        },
        Some(a) => {
            let mut tail: Vec<&'a str> = Vec::new();
            tail.push("-i");
            tail.push(a);
            tail.push("-filter_complex");
            tail.push(filter);
            tail.push("-map");
            tail.push("0:v:0");
            tail.push("-map");
            tail.push("[a]");
            tail.push("-c:v");
            tail.push("copy");
            tail.push("-c:a");
            tail.push("aac");
            tail.push("-b:a");
            tail.push("128k");
            tail.push(destination);
            push_all(&mut args, tail);
        },
    }
    proof {
        assert(str_texts(args@) =~= concat_args(
            destination@,
            match audio { Some(a) => Some(a@), None => None },
            filter@,
        ));
    }
    args
}

/// Where the compilation's sound comes from.
#[derive(Debug)]
pub enum Soundtrack {
    /// No songs: the clips keep their own sound only.
    Silent,
    /// One song, mixed in from its file.
    Song(String),
    /// Several songs, joined into one file first, then mixed in.
    Joined,
}

/// The soundtrack for the given song files: none without songs, the one
/// song's file, or the songs joined when there are two or more.
pub fn choose_soundtrack(song_paths: &Vec<String>) -> (r: Soundtrack)
    ensures
        song_paths@.len() == 0 ==> r is Silent,
        song_paths@.len() == 1 ==> (r matches Soundtrack::Song(p) && p@ == song_paths@[0]@),
        song_paths@.len() >= 2 ==> r is Joined,
{
    if song_paths.len() == 0 {
        Soundtrack::Silent
    } else if song_paths.len() == 1 {
        Soundtrack::Song(song_paths[0].clone())
    } else {
        Soundtrack::Joined
    }
}

/// The arguments that join the songs listed in `songs.txt` into one AAC file
/// at `destination`.
pub open spec fn join_songs_args(destination: Seq<char>) -> Seq<Seq<char>> {
    seq![
        "-f"@,
        "concat"@,
        "-safe"@,
        "0"@,
        "-i"@,
        "songs.txt"@,
        "-c:a"@,
        "aac"@,
        "-b:a"@,
        "128k"@,
        destination,
    ]
}

/// The arguments that join the songs into one soundtrack.
pub fn concat_songs_args<'a>(destination: &'a str) -> (r: Vec<&'a str>)
    ensures
        str_texts(r@) == join_songs_args(destination@),
{
    let mut args: Vec<&'a str> = Vec::new();
    args.push("-f");
    args.push("concat");
    args.push("-safe");
    args.push("0");
    args.push("-i");
    args.push("songs.txt");
    args.push("-c:a");
    args.push("aac");
    args.push("-b:a");
    args.push("128k");
    args.push(destination);
    proof {
        assert(str_texts(args@) =~= join_songs_args(destination@));
    }
    args
}

/// The re-encode flag that every clip of a compilation is cut with, from the
/// probes of its videos: the compilation generator sets it to the negation of
/// [`re_encode_needed`], so clips are re-encoded exactly when the probes all
/// succeeded and agree.
pub fn clip_re_encode_flag(infos: &Vec<Option<VideoParameters>>) -> (r: bool)
    ensures
        r == !needs_re_encoding(infos@),
{
    !re_encode_needed(infos)
}

/// The texts are strictly increasing.
pub open spec fn strictly_sorted(v: Seq<Seq<char>>) -> bool {
    forall|k: int, l: int| 0 <= k < l < v.len() ==> text_lt(#[trigger] v[k], #[trigger] v[l])
}

/// The text occurs among the strings.
pub open spec fn has_text(v: Seq<String>, x: Seq<char>) -> bool {
    exists|k: int| 0 <= k < v.len() && #[trigger] v[k]@ == x
}

/// The text occurs among the first `n` string slices.
pub open spec fn has_str(v: Seq<&str>, n: int, x: Seq<char>) -> bool {
    exists|k: int| 0 <= k < n && #[trigger] v[k]@ == x
}

/// The ids of the videos that the clips come from, sorted, each once.
pub fn sorted_unique_ids(ids: &Vec<&str>) -> (r: Vec<String>)
    ensures
        strictly_sorted(Seq::new(r@.len(), |k: int| r@[k]@)),
        forall|k: int| 0 <= k < r@.len() ==> has_str(ids@, ids@.len() as int, #[trigger] r@[k]@),
        forall|i: int| 0 <= i < ids@.len() ==> has_text(r@, #[trigger] ids@[i]@),
{
    let mut out: Vec<String> = Vec::new();
    let n = ids.len();
    let mut i: usize = 0;
    while i < n
        invariant
            n == ids@.len(),
            0 <= i <= n,
            strictly_sorted(Seq::new(out@.len(), |k: int| out@[k]@)),
            forall|k: int| 0 <= k < out@.len() ==> has_str(ids@, i as int, #[trigger] out@[k]@),
            forall|q: int| 0 <= q < i ==> has_text(out@, #[trigger] ids@[q]@),
        decreases n - i,
    {
        let id = ids[i];
        let mut j: usize = 0;
        while j < out.len() && less_than(out[j].as_str(), id)
            invariant
                0 <= j <= out@.len(),
                forall|m: int| 0 <= m < j ==> text_lt(#[trigger] out@[m]@, id@),
            decreases out@.len() - j,
        {
            j = j + 1;
        }
        let ghost before = out@;
        let ghost tv = Seq::new(before.len(), |k: int| before[k]@);
        let present = j < out.len() && !less_than(id, out[j].as_str());
        if present {
            proof {
                lemma_text_eq_of_not_lt(before[j as int]@, id@);
                assert forall|k: int| 0 <= k < out@.len() implies has_str(ids@, i + 1, #[trigger] out@[k]@) by {
                    let w = choose|w: int| 0 <= w < i && #[trigger] ids@[w]@ == out@[k]@;
                }
                assert forall|q: int| 0 <= q < i + 1 implies has_text(out@, #[trigger] ids@[q]@) by {
                    if q == i {
                        assert(out@[j as int]@ == ids@[q]@);
                    }
                }
            }
        } else {
            proof {
                if j < before.len() {
                    assert(text_lt(id@, before[j as int]@));
                    assert forall|m: int| j <= m < before.len() implies text_lt(id@, #[trigger] before[m]@) by {
                        if m > j {
                            assert(text_lt(tv[j as int], tv[m]));
                            lemma_text_lt_transitive(id@, before[j as int]@, before[m]@, 0);
                        }
                    }
                }
            }
            out.insert(j, String::from_str(id));
            proof {
                let nv = Seq::new(out@.len(), |k: int| out@[k]@);
                assert forall|k: int, l: int| 0 <= k < l < nv.len() implies text_lt(#[trigger] nv[k], #[trigger] nv[l]) by {
                    if l < j {
                        assert(nv[k] == tv[k] && nv[l] == tv[l]);
                    } else if l == j {
                        assert(nv[k] == tv[k]);
                    } else if k < j {
                        assert(nv[k] == tv[k] && nv[l] == tv[l - 1]);
                        assert(text_lt(tv[k], id@));
                        lemma_text_lt_transitive(tv[k], id@, tv[l - 1], 0);
                    } else if k == j {
                        assert(nv[l] == tv[l - 1]);
                    } else {
                        assert(nv[k] == tv[k - 1] && nv[l] == tv[l - 1]);
                    }
                }
                assert forall|k: int| 0 <= k < out@.len() implies has_str(ids@, i + 1, #[trigger] out@[k]@) by {
                    if k < j {
                        assert(out@[k] == before[k]);
                        let w = choose|w: int| 0 <= w < i && #[trigger] ids@[w]@ == before[k]@;
                    } else if k > j {
                        assert(out@[k] == before[k - 1]);
                        let w = choose|w: int| 0 <= w < i && #[trigger] ids@[w]@ == before[k - 1]@;
                    } else {
                        assert(ids@[i as int]@ == out@[k]@);
                    }
                }
                assert forall|q: int| 0 <= q < i + 1 implies has_text(out@, #[trigger] ids@[q]@) by {
                    if q < i {
                        let k = choose|k: int| 0 <= k < before.len() && #[trigger] before[k]@ == ids@[q]@;
                        if k < j {
                            assert(out@[k] == before[k]);
                        } else {
                            assert(out@[k + 1] == before[k]);
                        }
                    } else {
                        assert(out@[j as int]@ == ids@[q]@);
                    }
                }
            }
        }
        i = i + 1;
    }
    out
}

} // verus!
