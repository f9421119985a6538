//! The stream and format information that `ffprobe` reports about a video, and
//! the decisions taken from it.

use vstd::prelude::*;

verus! {

/// The parameters of a video that decide whether clips of it can be
/// concatenated without re-encoding.
#[derive(Debug, PartialEq, Eq)]
pub struct VideoParameters {
    pub fps: String,
    pub width: i64,
    pub height: i64,
    pub codec: String,
}

/// What `ffprobe` reports about a file.
pub struct FfProbe {
    pub streams: Vec<Stream>,
    pub format: Format,
}

/// One stream of a file.
pub struct Stream {
    pub index: i64,
    pub codec_name: Option<String>,
    pub codec_long_name: Option<String>,
    pub codec_type: Option<String>,
    pub codec_time_base: Option<String>,
    pub sample_fmt: Option<String>,
    pub sample_rate: Option<String>,
    pub channels: Option<i64>,
    pub bits_per_sample: Option<i64>,
    pub r_frame_rate: String,
    pub avg_frame_rate: String,
    pub time_base: String,
    pub start_pts: Option<i64>,
    pub start_time: Option<String>,
    pub duration_ts: Option<i64>,
    pub duration: Option<String>,
    pub bit_rate: Option<String>,
    pub width: Option<i64>,
    pub height: Option<i64>,
    pub id: Option<String>,
}

/// The container format of a file.
pub struct Format {
    pub filename: String,
    pub nb_streams: i64,
    pub nb_programs: i64,
    pub format_name: String,
    pub format_long_name: String,
    pub start_time: Option<String>,
    pub duration: Option<String>,
    pub size: Option<String>,
    pub bit_rate: Option<String>,
    pub probe_score: i64,
    pub tags: Option<FormatTags>,
}

/// The tags of a container format.
pub struct FormatTags {
    pub wmfsdkneeded: Option<String>,
    pub device_conformance_template: Option<String>,
    pub wmfsdkversion: Option<String>,
    pub is_vbr: Option<String>,
    pub major_brand: Option<String>,
    pub minor_version: Option<String>,
    pub compatible_brands: Option<String>,
    pub creation_time: Option<String>,
    pub encoder: Option<String>,
}

/// The stream is a video stream.
pub open spec fn is_video_stream(s: Stream) -> bool {
    s.codec_type matches Some(t) && t@ == "video"@
}

/// The index of the first video stream at or after `start`, if there is one.
pub open spec fn first_video_from(streams: Seq<Stream>, start: int) -> Option<int>
    decreases streams.len() - start,
{
    if start < 0 || start >= streams.len() {
        None
    } else if is_video_stream(streams[start]) {
        Some(start)
    } else {
        first_video_from(streams, start + 1)
    }
}

/// The parameters read from a video stream, or the placeholders that stand for
/// a missing one ("N/A" for texts, 0 for numbers).
pub open spec fn parameters_of(stream: Option<Stream>) -> (Seq<char>, i64, i64, Seq<char>) {
    match stream {
        Some(s) => (
            s.avg_frame_rate@,
            match s.width { Some(w) => w, None => 0 },
            match s.height { Some(h) => h, None => 0 },
            match s.codec_name { Some(c) => c@, None => "N/A"@ },
        ),
        None => ("N/A"@, 0, 0, "N/A"@),
    }
}

/// The mathematical value of video parameters.
pub open spec fn parameters_view(p: VideoParameters) -> (Seq<char>, i64, i64, Seq<char>) {
    (p.fps@, p.width, p.height, p.codec@)
}

fn is_video(s: &Stream) -> (r: bool)
    ensures
        r == is_video_stream(*s),
{
    match &s.codec_type {
        Some(t) => {
            let video = String::from_str("video");
            t.eq(&video)
        },
        None => false,
    }
}

fn not_available() -> (r: String)
    ensures
        r@ == "N/A"@,
{
    String::from_str("N/A")
}

impl FfProbe {
    /// The index of the first video stream, if there is one.
    pub fn video_stream_index(&self) -> (r: Option<usize>)
        ensures
            r matches Some(i) ==> first_video_from(self.streams@, 0) == Some(i as int) && i < self.streams@.len(),
            r is None ==> first_video_from(self.streams@, 0) is None,
    {
        let n = self.streams.len();
        let mut i: usize = 0;
        while i < n
            invariant
                n == self.streams@.len(),
                0 <= i <= n,
                first_video_from(self.streams@, 0) == first_video_from(self.streams@, i as int),
            decreases n - i,
        {
            if is_video(&self.streams[i]) {
                return Some(i);
            }
            i = i + 1;
        }
        None
    }

    /// The parameters of the first video stream; "N/A" and 0 stand for what is
    /// missing.
    pub fn video_parameters(self) -> (r: VideoParameters)
        ensures
            parameters_view(r) == parameters_of(
                match first_video_from(self.streams@, 0) {
                    Some(i) => Some(self.streams@[i]),
                    None => None,
                },
            ),
    {
        match self.video_stream_index() {
            Some(i) => {
                let s = &self.streams[i];
                VideoParameters {
                    fps: s.avg_frame_rate.clone(),
                    width: match s.width {
                        Some(w) => w,
                        None => 0,
                    },
                    height: match s.height {
                        Some(h) => h,
                        None => 0,
                    },
                    codec: match &s.codec_name {
                        Some(c) => c.clone(),
                        None => not_available(),
                    },
                }
            },
            None => VideoParameters {
                fps: not_available(),
                width: 0,
                height: 0,
                codec: not_available(),
            },
        }
    }
}

/// Clips of the probed videos must be re-encoded before they can be
/// concatenated: a probe failed (`None`), or not all videos share their
/// parameters.
pub open spec fn needs_re_encoding(infos: Seq<Option<VideoParameters>>) -> bool {
    ||| exists|i: int| 0 <= i < infos.len() && #[trigger] infos[i] is None
    ||| exists|i: int, j: int|
        0 <= i < infos.len() && 0 <= j < infos.len() && parameters_view(#[trigger] infos[i]->0)
            != parameters_view(#[trigger] infos[j]->0)
}

/// Clips must be re-encoded before they are joined exactly when a probe
/// failed, or two probed videos differ in frame rate, width, height or codec.
pub proof fn lemma_re_encode_when_parameters_differ(infos: Seq<Option<VideoParameters>>)
    ensures
        needs_re_encoding(infos) <==> {
            ||| exists|i: int| 0 <= i < infos.len() && #[trigger] infos[i] is None
            ||| exists|i: int, j: int|
                #![trigger infos[i], infos[j]]
                0 <= i < infos.len() && 0 <= j < infos.len() && infos[i] is Some && infos[j] is Some && {
                    let a = infos[i]->0;
                    let b = infos[j]->0;
                    ||| a.fps@ != b.fps@
                    ||| a.width != b.width
                    ||| a.height != b.height
                    ||| a.codec@ != b.codec@
                }
        },
{
    if exists|i: int| 0 <= i < infos.len() && #[trigger] infos[i] is None {
    } else {
        assert forall|i: int, j: int|
            0 <= i < infos.len() && 0 <= j < infos.len() implies (parameters_view(#[trigger] infos[i]->0)
            != parameters_view(#[trigger] infos[j]->0) <==> {
            let a = infos[i]->0;
            let b = infos[j]->0;
            ||| a.fps@ != b.fps@
            ||| a.width != b.width
            ||| a.height != b.height
            ||| a.codec@ != b.codec@
        }) by {
            assert(infos[i] is Some && infos[j] is Some);
        }
    }
}

fn same_parameters(a: &VideoParameters, b: &VideoParameters) -> (r: bool)
    ensures
        r == (parameters_view(*a) == parameters_view(*b)),
{
    a.fps.eq(&b.fps) && a.width == b.width && a.height == b.height && a.codec.eq(&b.codec)
}

/// Decides from the probes of the videos whether their clips must be
/// re-encoded.
pub fn re_encode_needed(infos: &Vec<Option<VideoParameters>>) -> (r: bool)
    ensures
        r == needs_re_encoding(infos@),
{
    let n = infos.len();
    let mut i: usize = 0;
    while i < n
        invariant
            n == infos@.len(),
            0 <= i <= n,
            forall|k: int| 0 <= k < i ==> !(#[trigger] infos@[k] is None),
        decreases n - i,
    {
        if infos[i].is_none() {
            return true;
        }
        i = i + 1;
    }
    if n == 0 {
        return false;
    }
    let first = match &infos[0] {
        Some(p) => p,
        None => { return true; },
    };
    let mut j: usize = 1;
    while j < n
        invariant
            n == infos@.len(),
            n > 0,
            1 <= j <= n,
            infos@[0] == Some(*first),
            forall|k: int| 0 <= k < n ==> !(#[trigger] infos@[k] is None),
            forall|k: int| 0 <= k < j ==> parameters_view(#[trigger] infos@[k]->0) == parameters_view(*first),
        decreases n - j,
    {
        match &infos[j] {
            Some(p) => {
                if !same_parameters(p, first) {
                    assert(parameters_view(infos@[j as int]->0) != parameters_view(infos@[0]->0));
                    return true;
                }
            },
            None => { return true; },
        }
        j = j + 1;
    }
    proof {
        assert forall|a: int, b: int| 0 <= a < n && 0 <= b < n implies parameters_view(#[trigger] infos@[a]->0)
            == parameters_view(#[trigger] infos@[b]->0) by {}
    }
    false
}

} // verus!
