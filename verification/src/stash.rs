//! Data exchanged with a Stash server and sent to the user interface.

use vstd::prelude::*;
use crate::ids::VideoId;
use crate::util::{add_api_key, api_key_param, try_add_api_key, url_with_pair};

verus! {

/// A tag and how many markers carry it.
#[derive(Debug)]
pub struct TagDto {
    pub name: String,
    pub id: String,
    pub marker_count: i64,
}

/// A performer as shown in the user interface.
#[derive(Debug)]
pub struct PerformerDto {
    pub id: String,
    pub scene_count: i64,
    pub name: String,
    pub image_url: Option<String>,
    pub tags: Vec<String>,
    pub rating: Option<i64>,
    pub favorite: bool,
}

/// A video as shown in the user interface.
#[derive(Debug)]
pub struct VideoDto {
    pub id: VideoId,
    pub title: String,
    pub performers: Vec<String>,
    pub file_name: String,
    pub interactive: bool,
}

/// Where the Stash server is, and the key for its API.
#[derive(Debug, Clone, Default)]
pub struct StashConfig {
    pub stash_url: String,
    pub api_key: Option<String>,
}

/// A file of a scene on the Stash server; `T` is the type of its duration.
#[derive(Debug)]
pub struct SceneFile<T> {
    pub basename: String,
    pub duration: T,
}

/// What the Stash server reports about a scene.
#[derive(Debug)]
pub struct SceneRecord<T> {
    pub id: String,
    pub title: Option<String>,
    pub performers: Vec<String>,
    pub screenshot: Option<String>,
    pub studio: Option<String>,
    pub tags: Vec<String>,
    pub rating100: Option<i64>,
    pub interactive: bool,
    pub marker_count: usize,
    pub files: Vec<SceneFile<T>>,
    /// When the scene was created, as an RFC 3339 timestamp.
    pub created_at: String,
}

/// A scene as shown in the user interface.
#[derive(Debug)]
pub struct StashScene {
    pub id: String,
    pub performers: Vec<String>,
    pub image_url: Option<String>,
    pub title: String,
    pub studio: Option<String>,
    pub tags: Vec<String>,
    pub rating: Option<i64>,
    pub interactive: bool,
    pub marker_count: usize,
}

/// The screenshot of the scene, if it has one, can carry the API key: its URL
/// parses.
pub open spec fn screenshot_takes_key<T>(scene: SceneRecord<T>, api_key: Seq<char>) -> bool {
    scene.screenshot matches Some(url) ==> url_with_pair(url@, api_key_param(), api_key) is Some
}

/// The scene as shown in the user interface: its data, a screenshot URL that
/// carries the API key, and an empty title where it has none.
pub open spec fn shows_scene<T>(s: StashScene, scene: SceneRecord<T>, api_key: Seq<char>) -> bool {
    &&& s.id == scene.id
    &&& s.performers == scene.performers
    &&& match scene.screenshot {
        Some(url) => s.image_url matches Some(u) && url_with_pair(url@, api_key_param(), api_key) == Some(u@),
        None => s.image_url is None,
    }
    &&& s.title@ == (match scene.title { Some(t) => t@, None => Seq::empty() })
    &&& s.studio == scene.studio
    &&& s.tags == scene.tags
    &&& s.rating == scene.rating100
    &&& s.interactive == scene.interactive
    &&& s.marker_count == scene.marker_count
}

impl StashScene {
    /// The scene as shown in the user interface. The screenshot URL, if any,
    /// must parse.
    pub fn from<T>(scene: SceneRecord<T>, api_key: &str) -> (r: StashScene)
        requires
            screenshot_takes_key(scene, api_key@),
        ensures
            shows_scene(r, scene, api_key@),
    {
        let ghost original = scene;
        let image_url = match &scene.screenshot {
            Some(url) => Some(add_api_key(url.as_str(), api_key)),
            None => None,
        };
        let title = match scene.title {
            Some(t) => t,
            None => String::new(),
        };
        StashScene {
            id: scene.id,
            performers: scene.performers,
            image_url,
            title,
            studio: scene.studio,
            tags: scene.tags,
            rating: scene.rating100,
            interactive: scene.interactive,
            marker_count: scene.marker_count,
        }
    }

    /// The scene as shown in the user interface, or `None` when its screenshot
    /// URL does not parse.
    pub fn try_from_scene<T>(scene: SceneRecord<T>, api_key: &str) -> (r: Option<StashScene>)
        ensures
            r matches Some(s) ==> shows_scene(s, scene, api_key@),
            r is None <==> !screenshot_takes_key(scene, api_key@),
    {
        let ok = match &scene.screenshot {
            Some(url) => try_add_api_key(url.as_str(), api_key).is_some(),
            None => true,
        };
        if ok {
            Some(StashScene::from(scene, api_key))
        } else {
            None
        }
    }
}

/// Options of the command that lists videos.
pub struct ListVideoOptions {
    pub url: Option<String>,
    pub page: Option<i32>,
    pub size: Option<i32>,
    pub query: Option<String>,
}

impl ListVideoOptions {
    /// The address of the API: the given URL, or the local default.
    pub fn base_path(&self) -> (r: String)
        ensures
            r@ == (match self.url { Some(u) => u@, None => "http://localhost:5174"@ }),
    {
        match &self.url {
            Some(u) => u.clone(),
            None => String::from_str("http://localhost:5174"),
        }
    }
}

} // verus!
