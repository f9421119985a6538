//! Where the player streams each video from.

use vstd::prelude::*;
use vstd::string::*;
use crate::clip::Clip;
use crate::ids::VideoSource;

verus! {

/// How local videos are reached: through the server's URL, or by their path.
#[derive(Debug, Clone, Copy, PartialEq, Eq, Structural)]
pub enum LocalVideoSource {
    Url,
    File,
}

/// What the stream lookup needs to know of a video: its id, its file path if
/// it is a local file, and the stream URL of its Stash scene if it has one.
pub struct StreamVideo {
    pub video_id: String,
    pub file_path: Option<String>,
    pub stash_stream_url: Option<String>,
}

/// Finds the stream URL of each video; `A` reaches the Stash server, `D` the
/// library.
pub struct StreamUrlService<A, D> {
    stash_api: A,
    database: D,
}

/// The index of the first video with the given id at or after `start`.
pub open spec fn find_video_from(videos: Seq<StreamVideo>, id: Seq<char>, start: int) -> Option<int>
    decreases videos.len() - start,
{
    if start < 0 || start >= videos.len() {
        None
    } else if videos[start].video_id@ == id {
        Some(start)
    } else {
        find_video_from(videos, id, start + 1)
    }
}

/// The path under which the server streams a local video.
pub open spec fn library_url(id: Seq<char>) -> Seq<char> {
    "/api/library/video/"@ + id + "/file"@
}

/// The stream URL of a video: for a local video, the server's URL or the
/// file's path; for a Stash video, the scene's stream URL.
pub open spec fn stream_url(
    source: VideoSource,
    id: Seq<char>,
    local: LocalVideoSource,
    videos: Seq<StreamVideo>,
) -> Option<Seq<char>> {
    match source {
        VideoSource::LocalFile => match local {
            LocalVideoSource::Url => Some(library_url(id)),
            LocalVideoSource::File => match find_video_from(videos, id, 0) {
                Some(i) => match videos[i].file_path {
                    Some(p) => Some(p@),
                    None => None,
                },
                None => None,
            },
        },
        VideoSource::Stash => match find_video_from(videos, id, 0) {
            Some(i) => match videos[i].stash_stream_url {
                Some(u) => Some(u@),
                None => None,
            },
            None => None,
        },
    }
}

/// The key is in the list.
pub open spec fn has_key(streams: Seq<(Seq<char>, Seq<char>)>, key: Seq<char>) -> bool {
    exists|i: int| 0 <= i < streams.len() && #[trigger] streams[i].0 == key
}

/// The stream of each clip's video, each video once, in the order in which the
/// videos first appear among the clips; videos without a stream are left out.
pub open spec fn clip_streams<T>(
    clips: Seq<Clip<T>>,
    videos: Seq<StreamVideo>,
    local: LocalVideoSource,
) -> Seq<(Seq<char>, Seq<char>)>
    decreases clips.len(),
{
    if clips.len() == 0 {
        Seq::empty()
    } else {
        let prev = clip_streams(clips.drop_last(), videos, local);
        let c = clips.last();
        match stream_url(c.source, c.video_id@.text, local, videos) {
            Some(url) => if has_key(prev, c.video_id@.text) {
                prev
            } else {
                prev.push((c.video_id@.text, url))
            },
            None => prev,
        }
    }
}

/// The pairs of texts of a list of string pairs.
pub open spec fn pairs_view(v: Seq<(String, String)>) -> Seq<(Seq<char>, Seq<char>)> {
    Seq::new(v.len(), |i: int| (v[i].0@, v[i].1@))
}

fn find_video(videos: &Vec<StreamVideo>, id: &str) -> (r: Option<usize>)
    ensures
        r matches Some(i) ==> i < videos@.len() && find_video_from(videos@, id@, 0) == Some(i as int),
        r is None ==> find_video_from(videos@, id@, 0) is None,
{
    let n = videos.len();
    let mut i: usize = 0;
    let wanted = String::from_str(id);
    while i < n
        invariant
            n == videos@.len(),
            wanted@ == id@,
            0 <= i <= n,
            find_video_from(videos@, id@, 0) == find_video_from(videos@, id@, i as int),
        decreases n - i,
    {
        if videos[i].video_id.eq(&wanted) {
            return Some(i);
        }
        i = i + 1;
    }
    None
}

fn copy_text(s: &Option<String>) -> (r: Option<String>)
    ensures
        r matches Some(t) ==> s matches Some(u) && t@ == u@,
        r is None ==> s is None,
{
    match s {
        Some(t) => Some(t.clone()),
        None => None,
    }
}

/// The streams of the first `n` videos of the library, by each video's own
/// source, each video id once, in the order of the videos.
pub open spec fn video_streams(
    videos: Seq<StreamVideo>,
    sources: Seq<VideoSource>,
    local: LocalVideoSource,
    n: nat,
) -> Seq<(Seq<char>, Seq<char>)>
    decreases n,
{
    if n == 0 {
        Seq::empty()
    } else {
        let prev = video_streams(videos, sources, local, (n - 1) as nat);
        let id = videos[n - 1].video_id@;
        match stream_url(sources[n - 1], id, local, videos) {
            Some(url) => if has_key(prev, id) {
                prev
            } else {
                prev.push((id, url))
            },
            None => prev,
        }
    }
}

/// Adds a stream unless its video already has one.
fn insert_stream(streams: &mut Vec<(String, String)>, id: &str, url: String)
    ensures
        pairs_view(final(streams)@) == if has_key(pairs_view(old(streams)@), id@) {
            pairs_view(old(streams)@)
        } else {
            pairs_view(old(streams)@).push((id@, url@))
        },
{
    let ghost prev = pairs_view(streams@);
    let mut found = false;
    let mut j: usize = 0;
    let key = String::from_str(id);
    while j < streams.len()
        invariant
            0 <= j <= streams@.len(),
            key@ == id@,
            prev == pairs_view(streams@),
            found ==> has_key(prev, key@),
            !found ==> forall|m: int| 0 <= m < j ==> #[trigger] prev[m].0 != key@,
        decreases streams@.len() - j,
    {
        if streams[j].0.eq(&key) {
            found = true;
            assert(prev[j as int].0 == key@);
        }
        j = j + 1;
    }
    if !found {
        streams.push((key, url));
        proof {
            assert(pairs_view(streams@) =~= prev.push((id@, url@)));
        }
    }
}

impl<A, D> StreamUrlService<A, D> {
    /// A service that reaches Stash through `stash_api` and the library
    /// through `database`.
    pub fn with_parts(stash_api: A, database: D) -> (r: Self)
        ensures
            r.stash_api() == stash_api,
            r.database() == database,
    {
        StreamUrlService { stash_api, database }
    }

    /// What the service reaches Stash through.
    pub closed spec fn stash_api(&self) -> A {
        self.stash_api
    }

    /// What the service reaches the library through.
    pub closed spec fn database(&self) -> D {
        self.database
    }

    /// The stream URL of one video.
    pub fn get_stream_url(
        &self,
        source: VideoSource,
        video_id: &str,
        local_video_source: LocalVideoSource,
        videos: &Vec<StreamVideo>,
    ) -> (r: Option<String>)
        ensures
            r matches Some(u) ==> stream_url(source, video_id@, local_video_source, videos@) == Some(u@),
            r is None ==> stream_url(source, video_id@, local_video_source, videos@) is None,
    {
        match source {
            VideoSource::LocalFile => match local_video_source {
                LocalVideoSource::Url => {
                    let mut url = String::from_str("/api/library/video/");
                    url.append(video_id);
                    url.append("/file");
                    Some(url)
                },
                LocalVideoSource::File => match find_video(videos, video_id) {
                    Some(i) => copy_text(&videos[i].file_path),
                    None => None,
                },
            },
            VideoSource::Stash => match find_video(videos, video_id) {
                Some(i) => copy_text(&videos[i].stash_stream_url),
                None => None,
            },
        }
    }

    /// The stream of each clip's video, each video once, in the order in which
    /// the videos first appear among the clips.
    pub fn get_clip_streams<T>(
        &self,
        clips: &Vec<Clip<T>>,
        videos: &Vec<StreamVideo>,
        local_video_source: LocalVideoSource,
    ) -> (r: Vec<(String, String)>)
        ensures
            pairs_view(r@) == clip_streams(clips@, videos@, local_video_source),
    {
        let mut streams: Vec<(String, String)> = Vec::new();
        let n = clips.len();
        let mut i: usize = 0;
        while i < n
            invariant
                n == clips@.len(),
                0 <= i <= n,
                pairs_view(streams@) == clip_streams(clips@.take(i as int), videos@, local_video_source),
            decreases n - i,
        {
            let c = &clips[i];
            proof {
                assert(clips@.take(i as int + 1).drop_last() =~= clips@.take(i as int));
            }
            let id = c.video_id.as_str();
            let url = self.get_stream_url(c.source, id, local_video_source, videos);
            match url {
                Some(url) => insert_stream(&mut streams, id, url),
                None => {},
            }
            i = i + 1;
        }
        proof {
            assert(clips@.take(n as int) =~= clips@);
        }
        streams
    }

    /// The stream of each video of the library (as fetched for the wanted
    /// ids; `sources[i]` is where `videos[i]` comes from), each video once, in
    /// the order of the videos.
    pub fn get_video_streams(
        &self,
        videos: &Vec<StreamVideo>,
        sources: &Vec<VideoSource>,
        local_video_source: LocalVideoSource,
    ) -> (r: Vec<(String, String)>)
        requires
            sources@.len() == videos@.len(),
        ensures
            pairs_view(r@) == video_streams(videos@, sources@, local_video_source, videos@.len()),
    {
        let mut streams: Vec<(String, String)> = Vec::new();
        let n = videos.len();
        let mut i: usize = 0;
        while i < n
            invariant
                n == videos@.len(),
                sources@.len() == n,
                0 <= i <= n,
                pairs_view(streams@) == video_streams(videos@, sources@, local_video_source, i as nat),
            decreases n - i,
        {
            let id = videos[i].video_id.as_str();
            let url = self.get_stream_url(sources[i], id, local_video_source, videos);
            match url {
                Some(url) => insert_stream(&mut streams, id, url),
                None => {},
            }
            i = i + 1;
        }
        streams
    }
}

/// Each video gets one stream: no video id appears twice, and every id is the
/// video id of one of the clips.
pub proof fn lemma_clip_streams_distinct<T>(
    clips: Seq<Clip<T>>,
    videos: Seq<StreamVideo>,
    local: LocalVideoSource,
)
    ensures
        forall|i: int, j: int|
            0 <= i < j < clip_streams(clips, videos, local).len() ==> #[trigger] clip_streams(clips, videos, local)[i].0
                != #[trigger] clip_streams(clips, videos, local)[j].0,
        forall|i: int|
            0 <= i < clip_streams(clips, videos, local).len() ==> exists|k: int|
                0 <= k < clips.len() && (#[trigger] clip_streams(clips, videos, local)[i]).0 == clips[k].video_id@.text,
    decreases clips.len(),
{
    if clips.len() > 0 {
        let p = clips.drop_last();
        lemma_clip_streams_distinct(p, videos, local);
        let prev = clip_streams(p, videos, local);
        let r = clip_streams(clips, videos, local);
        assert forall|i: int| 0 <= i < r.len() implies exists|k: int|
            0 <= k < clips.len() && (#[trigger] r[i]).0 == clips[k].video_id@.text by {
            if i < prev.len() {
                assert(r[i] == prev[i]);
                let k = choose|k: int| 0 <= k < p.len() && prev[i].0 == p[k].video_id@.text;
                assert(p[k] == clips[k]);
            } else {
                assert(r[i].0 == clips[clips.len() - 1].video_id@.text);
            }
        }
        assert forall|i: int, j: int| 0 <= i < j < r.len() implies #[trigger] r[i].0 != #[trigger] r[j].0 by {
            if j < prev.len() {
                assert(r[i] == prev[i] && r[j] == prev[j]);
            } else {
                assert(r[i] == prev[i]);
                if r[i].0 == r[j].0 {
                    assert(has_key(prev, r[j].0));
                }
            }
        }
    }
}

/// The streams of the library's videos name each video at most once, and only
/// videos of the library.
pub proof fn lemma_video_streams_distinct(
    videos: Seq<StreamVideo>,
    sources: Seq<VideoSource>,
    local: LocalVideoSource,
    n: nat,
)
    requires
        n <= videos.len(),
    ensures
        forall|i: int, j: int|
            0 <= i < j < video_streams(videos, sources, local, n).len() ==> #[trigger] video_streams(
                videos,
                sources,
                local,
                n,
            )[i].0 != #[trigger] video_streams(videos, sources, local, n)[j].0,
        forall|i: int|
            0 <= i < video_streams(videos, sources, local, n).len() ==> exists|k: int|
                0 <= k < n && (#[trigger] video_streams(videos, sources, local, n)[i]).0 == videos[k].video_id@,
    decreases n,
{
    if n > 0 {
        let m = (n - 1) as nat;
        lemma_video_streams_distinct(videos, sources, local, m);
        let prev = video_streams(videos, sources, local, m);
        let r = video_streams(videos, sources, local, n);
        assert forall|i: int| 0 <= i < r.len() implies exists|k: int|
            0 <= k < n && (#[trigger] r[i]).0 == videos[k].video_id@ by {
            if i < prev.len() {
                assert(r[i] == prev[i]);
            } else {
                assert(r[i].0 == videos[n - 1].video_id@);
            }
        }
        assert forall|i: int, j: int| 0 <= i < j < r.len() implies #[trigger] r[i].0 != #[trigger] r[j].0 by {
            if j < prev.len() {
                assert(r[i] == prev[i] && r[j] == prev[j]);
            } else {
                assert(r[i] == prev[i]);
                if r[i].0 == r[j].0 {
                    assert(has_key(prev, r[j].0));
                }
            }
        }
    }
}

} // verus!
