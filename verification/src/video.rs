//! Videos of the library, from local files or from a Stash server.

use vstd::prelude::*;
use crate::stash::SceneRecord;
use crate::util::{parse_i64, parsed_i64};

verus! {

/// Where a video of the library was found.
#[derive(Debug, Clone, Copy, PartialEq, Eq, Structural)]
pub enum VideoSource {
    Folder,
    Download,
    Stash,
}

/// A video as the library stores it; `T` is the type of its duration.
#[derive(Debug)]
pub struct DbVideo<T> {
    pub id: String,
    pub file_path: String,
    pub interactive: bool,
    pub source: VideoSource,
    pub duration: T,
    pub video_preview_image: Option<String>,
    pub stash_scene_id: Option<i64>,
    pub video_title: Option<String>,
    pub video_tags: Option<String>,
}

/// Where the data of a video come from.
#[derive(Debug)]
pub enum VideoInfo<T> {
    Stash { scene: Box<SceneRecord<T>> },
    LocalFile { video: DbVideo<T> },
}

/// A video with the data that clips are made from.
#[derive(Debug)]
pub struct Video<T> {
    pub id: String,
    pub title: String,
    pub tags: Option<Vec<String>>,
    pub interactive: bool,
    pub file_name: String,
    pub performers: Vec<String>,
    pub info: VideoInfo<T>,
}

/// The video's duration can be read: a Stash scene has a file.
pub open spec fn has_duration<T>(v: Video<T>) -> bool {
    v.info matches VideoInfo::Stash { scene } ==> scene.files@.len() > 0
}

/// The video's Stash scene id can be read: a Stash scene's id is a number.
pub open spec fn has_scene_id<T>(v: Video<T>) -> bool {
    v.info matches VideoInfo::Stash { scene } ==> parsed_i64(scene.id@) is Some
}

/// The id of the Stash scene of the video: the scene's own id, or the one the
/// library stored for a local file.
pub open spec fn scene_id_of<T>(v: Video<T>) -> Option<i64> {
    match v.info {
        VideoInfo::Stash { scene } => parsed_i64(scene.id@),
        VideoInfo::LocalFile { video } => video.stash_scene_id,
    }
}

/// The duration of the video: that of the scene's first file, or the stored one.
pub open spec fn duration_of<T>(v: Video<T>) -> T {
    match v.info {
        VideoInfo::Stash { scene } => scene.files@[0].duration,
        VideoInfo::LocalFile { video } => video.duration,
    }
}

fn clone_strings(v: &Vec<String>) -> (r: Vec<String>)
    ensures
        r@ == v@,
{
    let mut r: Vec<String> = Vec::new();
    let mut i: usize = 0;
    while i < v.len()
        invariant
            0 <= i <= v@.len(),
            r@ =~= v@.take(i as int),
        decreases v@.len() - i,
    {
        r.push(v[i].clone());
        i = i + 1;
    }
    proof {
        assert(v@.take(v@.len() as int) =~= v@);
    }
    r
}

/// The text of the first file's name, or the empty text when there is no file.
pub open spec fn first_file_name<T>(scene: SceneRecord<T>) -> Seq<char> {
    if scene.files@.len() > 0 {
        scene.files@[0].basename@
    } else {
        Seq::empty()
    }
}

impl<T: Copy> Video<T> {
    /// The duration of the video.
    pub fn duration(&self) -> (r: T)
        requires
            has_duration(*self),
        ensures
            r == duration_of(*self),
    {
        match &self.info {
            VideoInfo::Stash { scene } => scene.files[0].duration,
            VideoInfo::LocalFile { video } => video.duration,
        }
    }

    /// The id of the video's Stash scene, if it has one.
    pub fn stash_scene_id(&self) -> (r: Option<i64>)
        requires
            has_scene_id(*self),
        ensures
            r == scene_id_of(*self),
    {
        match &self.info {
            VideoInfo::Stash { scene } => parse_i64(scene.id.as_str()),
            VideoInfo::LocalFile { video } => video.stash_scene_id,
        }
    }

    /// A video made from a Stash scene: titled by the scene's title, else by
    /// its first file's name, else untitled.
    pub fn from_scene(scene: SceneRecord<T>) -> (r: Video<T>)
        ensures
            r.id == scene.id,
            r.interactive == scene.interactive,
            r.file_name@ == first_file_name(scene),
            r.performers@ == scene.performers@,
            r.title@ == (match scene.title { Some(t) => t@, None => first_file_name(scene) }),
            r.tags matches Some(t) && t@ == scene.tags@,
            r.info == (VideoInfo::Stash { scene: Box::new(scene) }),
    {
        let tags = clone_strings(&scene.tags);
        let file_name = if scene.files.len() > 0 {
            scene.files[0].basename.clone()
        } else {
            String::new()
        };
        let performers = clone_strings(&scene.performers);
        let title = match &scene.title {
            Some(t) => t.clone(),
            None => if scene.files.len() > 0 {
                scene.files[0].basename.clone()
            } else {
                String::new()
            },
        };
        let id = scene.id.clone();
        let interactive = scene.interactive;
        Video {
            id,
            interactive,
            file_name,
            performers,
            title,
            info: VideoInfo::Stash { scene: Box::new(scene) },
            tags: Some(tags),
        }
    }
}

} // verus!
