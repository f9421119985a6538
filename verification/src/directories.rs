//! The directories where the application keeps its files.

use vstd::prelude::*;
use crate::paths::{child_of, is_ordinary_base, is_plain_segment, lemma_child_is_ordinary, path_join};

verus! {

/// A kind of folder the application writes to.
#[derive(Debug, Clone, Copy, PartialEq, Eq, Structural)]
pub enum FolderType {
    TempVideo,
    CompilationVideo,
    DownloadedVideo,
    Music,
    Database,
    Config,
}

/// The cache, config and data directories, and the folders within them.
#[derive(Clone)]
pub struct Directories {
    cache_dir: String,
    config_dir: String,
    data_dir: String,
}

/// `path` is the folder `leaf` within the `videos` folder of the cache.
pub open spec fn in_videos_dir(path: Seq<char>, cache: Seq<char>, leaf: Seq<char>) -> bool {
    exists|videos: Seq<char>| child_of(videos, cache, "videos"@) && #[trigger] child_of(path, videos, leaf)
}

/// Where the folder of each kind is, given the three directories.
pub open spec fn folder_at(cache: Seq<char>, config: Seq<char>, data: Seq<char>, ty: FolderType, path: Seq<char>) -> bool {
    match ty {
        FolderType::TempVideo => in_videos_dir(path, cache, "clips"@),
        FolderType::CompilationVideo => in_videos_dir(path, cache, "finished"@),
        FolderType::DownloadedVideo => in_videos_dir(path, cache, "downloaded"@),
        FolderType::Music => child_of(path, cache, "music"@),
        FolderType::Database => child_of(path, data, "videos.sqlite3"@),
        FolderType::Config => path == config,
    }
}

/// A segment joined under a directory.
fn join_plain(base: &str, segment: &str) -> (r: String)
    requires
        is_plain_segment(segment@),
    ensures
        is_ordinary_base(base@) ==> child_of(r@, base@, segment@),
{
    path_join(base, segment)
}

/// The folder `leaf` within the `videos` folder of the cache.
fn videos_subdir(cache: &str, leaf: &str) -> (r: String)
    requires
        is_plain_segment(leaf@),
    ensures
        is_ordinary_base(cache@) ==> in_videos_dir(r@, cache@, leaf@),
{
    proof {
        reveal_strlit("videos");
        assert(is_plain_segment("videos"@));
    }
    let videos = join_plain(cache, "videos");
    let r = join_plain(videos.as_str(), leaf);
    proof {
        if is_ordinary_base(cache@) {
            lemma_child_is_ordinary(videos@, cache@, "videos"@);
            assert(child_of(videos@, cache@, "videos"@) && child_of(r@, videos@, leaf@));
        }
    }
    r
}

impl Directories {
    /// The directories given by the platform's conventions.
    pub fn from_dirs(cache_dir: String, config_dir: String, data_dir: String) -> (r: Directories)
        ensures
            r.cache_path() == cache_dir@,
            r.config_path() == config_dir@,
            r.data_path() == data_dir@,
    {
        Directories { cache_dir, config_dir, data_dir }
    }

    /// The `cache`, `config` and `data` directories within one base directory.
    pub fn from_base_dir(base_dir: &str) -> (r: Directories)
        ensures
            is_ordinary_base(base_dir@) ==> child_of(r.cache_path(), base_dir@, "cache"@),
            is_ordinary_base(base_dir@) ==> child_of(r.config_path(), base_dir@, "config"@),
            is_ordinary_base(base_dir@) ==> child_of(r.data_path(), base_dir@, "data"@),
    {
        proof {
            reveal_strlit("cache");
            reveal_strlit("config");
            reveal_strlit("data");
            assert(is_plain_segment("cache"@));
            assert(is_plain_segment("config"@));
            assert(is_plain_segment("data"@));
        }
        Directories {
            cache_dir: path_join(base_dir, "cache"),
            config_dir: path_join(base_dir, "config"),
            data_dir: path_join(base_dir, "data"),
        }
    }

    /// The cache directory.
    pub closed spec fn cache_path(&self) -> Seq<char> {
        self.cache_dir@
    }

    /// The config directory.
    pub closed spec fn config_path(&self) -> Seq<char> {
        self.config_dir@
    }

    /// The data directory.
    pub closed spec fn data_path(&self) -> Seq<char> {
        self.data_dir@
    }

    /// The config directory.
    pub fn config_dir(&self) -> (r: &str)
        ensures
            r@ == self.config_path(),
    {
        self.config_dir.as_str()
    }

    /// The cache directory.
    pub fn cache_dir(&self) -> (r: &str)
        ensures
            r@ == self.cache_path(),
    {
        self.cache_dir.as_str()
    }

    /// The data directory.
    pub fn data_dir(&self) -> (r: &str)
        ensures
            r@ == self.data_path(),
    {
        self.data_dir.as_str()
    }

    /// Where preview images are kept, in the cache.
    pub fn preview_image_dir(&self) -> (r: String)
        ensures
            is_ordinary_base(self.cache_path()) ==> child_of(r@, self.cache_path(), "preview-images"@),
    {
        proof {
            reveal_strlit("preview-images");
            assert(is_plain_segment("preview-images"@));
        }
        join_plain(self.cache_dir.as_str(), "preview-images")
    }

    /// The configuration file.
    pub fn config_file_path(&self) -> (r: String)
        ensures
            is_ordinary_base(self.config_path()) ==> child_of(r@, self.config_path(), "config.json"@),
    {
        proof {
            reveal_strlit("config.json");
            assert(is_plain_segment("config.json"@));
        }
        join_plain(self.config_dir.as_str(), "config.json")
    }

    /// Where songs are kept, in the cache.
    pub fn music_dir(&self) -> (r: String)
        ensures
            is_ordinary_base(self.cache_path()) ==> folder_at(
                self.cache_path(),
                self.config_path(),
                self.data_path(),
                FolderType::Music,
                r@,
            ),
    {
        proof {
            reveal_strlit("music");
            assert(is_plain_segment("music"@));
        }
        join_plain(self.cache_dir.as_str(), "music")
    }

    /// Where clips are cut to, in the cache.
    pub fn temp_video_dir(&self) -> (r: String)
        ensures
            is_ordinary_base(self.cache_path()) ==> folder_at(
                self.cache_path(),
                self.config_path(),
                self.data_path(),
                FolderType::TempVideo,
                r@,
            ),
    {
        proof {
            reveal_strlit("clips");
            assert(is_plain_segment("clips"@));
        }
        videos_subdir(self.cache_dir.as_str(), "clips")
    }

    /// Where finished compilations are written, in the cache.
    pub fn compilation_video_dir(&self) -> (r: String)
        ensures
            is_ordinary_base(self.cache_path()) ==> folder_at(
                self.cache_path(),
                self.config_path(),
                self.data_path(),
                FolderType::CompilationVideo,
                r@,
            ),
    {
        proof {
            reveal_strlit("finished");
            assert(is_plain_segment("finished"@));
        }
        videos_subdir(self.cache_dir.as_str(), "finished")
    }

    /// The database file, in the data directory.
    pub fn database_file(&self) -> (r: String)
        ensures
            is_ordinary_base(self.data_path()) ==> folder_at(
                self.cache_path(),
                self.config_path(),
                self.data_path(),
                FolderType::Database,
                r@,
            ),
    {
        proof {
            reveal_strlit("videos.sqlite3");
            assert(is_plain_segment("videos.sqlite3"@));
        }
        join_plain(self.data_dir.as_str(), "videos.sqlite3")
    }

    /// Where downloaded videos are kept, in the cache.
    pub fn downloaded_video_dir(&self) -> (r: String)
        ensures
            is_ordinary_base(self.cache_path()) ==> folder_at(
                self.cache_path(),
                self.config_path(),
                self.data_path(),
                FolderType::DownloadedVideo,
                r@,
            ),
    {
        proof {
            reveal_strlit("downloaded");
            assert(is_plain_segment("downloaded"@));
        }
        videos_subdir(self.cache_dir.as_str(), "downloaded")
    }

    /// The folder of a kind; the config folder is the config directory itself.
    pub fn get(&self, ty: FolderType) -> (r: String)
        ensures
            is_ordinary_base(self.cache_path()) && is_ordinary_base(self.data_path()) ==> folder_at(
                self.cache_path(),
                self.config_path(),
                self.data_path(),
                ty,
                r@,
            ),
            ty == FolderType::Config ==> r@ == self.config_path(),
    {
        match ty {
            FolderType::TempVideo => self.temp_video_dir(),
            FolderType::CompilationVideo => self.compilation_video_dir(),
            FolderType::Music => self.music_dir(),
            FolderType::Database => self.database_file(),
            FolderType::Config => self.config_dir.clone(),
            FolderType::DownloadedVideo => self.downloaded_video_dir(),
        }
    }
}

} // verus!
