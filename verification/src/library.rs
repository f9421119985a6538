//! Decisions taken while videos are added to the library and kept in step with
//! a Stash server.

use vstd::prelude::*;
use vstd::string::*;
use crate::stash::SceneRecord;
use time::format_description::well_known::Rfc3339;
use time::OffsetDateTime;
use crate::textjoin::{join_strings, joined, string_texts};
use crate::util::{parse_i64, parsed_i64};
use crate::paths::{
    is_plain_segment, is_simple_path, last_segment, name_extension, name_stem, occurs_in, parent_text, path_extension,
    path_file_stem, path_with_extension,
};

verus! {

/// The separator between the tags of a video as the library stores them.
pub const TAG_SEPARATOR: &'static str = ";";

/// The file extensions of videos that the library picks up.
pub open spec fn is_video_extension_text(ext: Seq<char>) -> bool {
    ext == "mp4"@ || ext == "m4v"@ || ext == "webm"@
}

/// Whether a file extension is one of a video the library picks up.
pub fn is_video_extension(ext: &str) -> (r: bool)
    ensures
        r == is_video_extension_text(ext@),
{
    let e = String::from_str(ext);
    let mp4 = String::from_str("mp4");
    let m4v = String::from_str("m4v");
    let webm = String::from_str("webm");
    e.eq(&mp4) || e.eq(&m4v) || e.eq(&webm)
}

/// Whether a file is a video the library picks up, by its extension. For a
/// simple path (see `is_simple_path`) that is the extension of the text after
/// its last `/`.
pub fn is_video_file(path: &str) -> (r: bool)
    ensures
        r ==> exists|ext: Seq<char>| occurs_in(ext, path@) && is_video_extension_text(ext),
        is_simple_path(path@) ==> (r <==> (name_extension(last_segment(path@)) matches Some(ext)
            && is_video_extension_text(ext))),
{
    match path_extension(path) {
        Some(ext) => is_video_extension(ext.as_str()),
        None => false,
    }
}

/// The tags as the library stores them: joined by `;`.
pub fn join_tags(tags: &Vec<String>) -> (r: String)
    ensures
        r@ == joined(string_texts(tags@), ";"@),
{
    join_strings(tags, TAG_SEPARATOR)
}

/// The tags of a video merged with its Stash scene, as the library stores
/// them: none when the scene has no tags, else the tags joined by `;`.
pub fn merged_tags(tags: &Vec<String>) -> (r: Option<String>)
    ensures
        tags@.len() == 0 ==> r is None,
        tags@.len() > 0 ==> (r matches Some(t) && t@ == joined(string_texts(tags@), ";"@)),
{
    if tags.len() == 0 {
        None
    } else {
        Some(join_tags(tags))
    }
}

/// The title of a video added from Stash: the scene's title unless it is
/// empty, else its first file's name, else none.
pub open spec fn stash_title<T>(scene: SceneRecord<T>) -> Option<Seq<char>> {
    match scene.title {
        Some(t) if t@.len() > 0 => Some(t@),
        _ => if scene.files@.len() > 0 {
            Some(scene.files@[0].basename@)
        } else {
            None
        },
    }
}

/// The title of a video added from Stash.
pub fn stash_video_title<T>(scene: &SceneRecord<T>) -> (r: Option<String>)
    ensures
        match r {
            Some(t) => stash_title(*scene) == Some(t@),
            None => stash_title(*scene) is None,
        },
{
    match &scene.title {
        Some(t) => {
            if t.as_str().unicode_len() > 0 {
                return Some(t.clone());
            }
        },
        None => {},
    }
    if scene.files.len() > 0 {
        Some(scene.files[0].basename.clone())
    } else {
        None
    }
}

/// The first video whose Stash scene id is `scene_id`.
pub fn find_video_by_scene(scene_ids: &Vec<Option<i64>>, scene_id: i64) -> (r: Option<usize>)
    ensures
        r matches Some(i) ==> i < scene_ids@.len() && scene_ids@[i as int] == Some(scene_id) && forall|j: int|
            0 <= j < i ==> scene_ids@[j] != Some(scene_id),
        r is None ==> forall|j: int| 0 <= j < scene_ids@.len() ==> scene_ids@[j] != Some(scene_id),
{
    let n = scene_ids.len();
    let mut i: usize = 0;
    while i < n
        invariant
            n == scene_ids@.len(),
            0 <= i <= n,
            forall|j: int| 0 <= j < i ==> scene_ids@[j] != Some(scene_id),
        decreases n - i,
    {
        if scene_ids[i] == Some(scene_id) {
            return Some(i);
        }
        i = i + 1;
    }
    None
}

/// The new title when a video is merged with its Stash scene: the scene's
/// title if it is not empty and differs from the video's, else none (the
/// title is left as it is).
pub open spec fn merged_title(current: Option<String>, scene_title: Option<String>) -> Option<Seq<char>> {
    match scene_title {
        Some(t) => if t@.len() > 0 && !(current matches Some(c) && c@ == t@) {
            Some(t@)
        } else {
            None
        },
        None => None,
    }
}

/// The new title when a video is merged with its Stash scene.
pub fn merge_title(current: &Option<String>, scene_title: &Option<String>) -> (r: Option<String>)
    ensures
        match r {
            Some(t) => merged_title(*current, *scene_title) == Some(t@),
            None => merged_title(*current, *scene_title) is None,
        },
{
    match scene_title {
        Some(t) => {
            let same = match current {
                Some(c) => c.eq(t),
                None => false,
            };
            if t.as_str().unicode_len() > 0 && !same {
                Some(t.clone())
            } else {
                None
            }
        },
        None => None,
    }
}

/// What to do with a marker of the Stash scene when the video is merged.
#[derive(Debug, Clone, Copy, PartialEq, Eq, Structural)]
pub enum StashMarkerAction {
    /// Create it in the library.
    Create,
    /// Update the library's marker at this index from it.
    Update { db_index: usize },
}

/// Why a marker of the Stash scene cannot be merged.
#[derive(Debug, Clone, Copy, PartialEq, Eq, Structural)]
pub enum MergeError {
    /// Its id is not a number.
    InvalidMarkerId,
}

/// The library already stores the Stash marker with this id.
pub open spec fn is_stored(stored: Seq<Option<i64>>, id: i64) -> bool {
    exists|k: int| 0 <= k < stored.len() && #[trigger] stored[k] == Some(id)
}

/// The first library marker that carries the Stash id.
pub open spec fn first_stored(stored: Seq<Option<i64>>, id: i64, start: int) -> Option<int>
    decreases stored.len() - start,
{
    if start < 0 || start >= stored.len() {
        None
    } else if stored[start] == Some(id) {
        Some(start)
    } else {
        first_stored(stored, id, start + 1)
    }
}

/// The decision for a Stash marker, given the Stash ids that the library's
/// markers carry and whether the marker overlaps one of them: a new marker
/// that overlaps none is created; any other is updated in the first library
/// marker that carries its id.
pub open spec fn stash_marker_decision(stored: Seq<Option<i64>>, id: Seq<char>, overlaps: bool) -> Result<
    (i64, StashMarkerAction),
    MergeError,
> {
    match parsed_i64(id) {
        None => Err(MergeError::InvalidMarkerId),
        Some(sid) => if !is_stored(stored, sid) && !overlaps {
            Ok((sid, StashMarkerAction::Create))
        } else {
            Ok((sid, StashMarkerAction::Update { db_index: first_stored(stored, sid, 0)->0 as usize }))
        },
    }
}

/// A marker that is to be updated has a library marker to update: one that
/// overlaps a library marker carries an id that the library stores.
pub open spec fn has_marker_to_update(stored: Seq<Option<i64>>, id: Seq<char>, overlaps: bool) -> bool {
    match parsed_i64(id) {
        Some(sid) => overlaps ==> is_stored(stored, sid),
        None => true,
    }
}

proof fn lemma_first_stored(stored: Seq<Option<i64>>, id: i64, start: int)
    requires
        0 <= start <= stored.len(),
        forall|k: int| 0 <= k < start ==> stored[k] != Some(id),
    ensures
        first_stored(stored, id, start) is None <==> !is_stored(stored, id),
        first_stored(stored, id, start) matches Some(k) ==> 0 <= k < stored.len() && stored[k] == Some(id),
    decreases stored.len() - start,
{
    if start < stored.len() && stored[start] != Some(id) {
        lemma_first_stored(stored, id, start + 1);
    }
}

/// A Stash marker that the library already stores is never created a second
/// time: it is updated in a library marker that carries its id.
pub proof fn lemma_stored_markers_are_updated(stored: Seq<Option<i64>>, id: Seq<char>, sid: i64, overlaps: bool)
    requires
        stored.len() <= usize::MAX,
        parsed_i64(id) == Some(sid),
        is_stored(stored, sid),
    ensures
        stash_marker_decision(stored, id, overlaps) matches Ok((s, StashMarkerAction::Update { db_index }))
            && s == sid && db_index < stored.len() && stored[db_index as int] == Some(sid),
{
    lemma_first_stored(stored, sid, 0);
}

/// Decides what to do with one marker of the Stash scene. A marker that
/// overlaps a library marker must have its id stored in the library.
pub fn decide_stash_marker(stored: &Vec<Option<i64>>, id: &str, overlaps: bool) -> (r: Result<
    (i64, StashMarkerAction),
    MergeError,
>)
    requires
        has_marker_to_update(stored@, id@, overlaps),
    ensures
        r == stash_marker_decision(stored@, id@, overlaps),
{
    let sid = match parse_i64(id) {
        Some(v) => v,
        None => { return Err(MergeError::InvalidMarkerId); },
    };
    let n = stored.len();
    let mut i: usize = 0;
    while i < n
        invariant
            n == stored@.len(),
            0 <= i <= n,
            forall|k: int| 0 <= k < i ==> stored@[k] != Some(sid),
            parsed_i64(id@) == Some(sid),
            first_stored(stored@, sid, 0) == first_stored(stored@, sid, i as int),
        decreases n - i,
    {
        if stored[i] == Some(sid) {
            proof {
                assert(is_stored(stored@, sid));
                assert(first_stored(stored@, sid, i as int) == Some(i as int));
            }
            return Ok((sid, StashMarkerAction::Update { db_index: i }));
        }
        i = i + 1;
    }
    proof {
        lemma_first_stored(stored@, sid, n as int);
    }
    Ok((sid, StashMarkerAction::Create))
}

/// Whether the library holds a marker to update for a Stash marker, so that
/// [`decide_stash_marker`] may be asked.
pub fn can_decide_stash_marker(stored: &Vec<Option<i64>>, id: &str, overlaps: bool) -> (r: bool)
    ensures
        r == has_marker_to_update(stored@, id@, overlaps),
{
    match parse_i64(id) {
        None => true,
        Some(sid) => {
            if !overlaps {
                return true;
            }
            let n = stored.len();
            let mut i: usize = 0;
            while i < n
                invariant
                    n == stored@.len(),
                    0 <= i <= n,
                    parsed_i64(id@) == Some(sid),
                    overlaps,
                    forall|k: int| 0 <= k < i ==> stored@[k] != Some(sid),
                decreases n - i,
            {
                if stored[i] == Some(sid) {
                    assert(is_stored(stored@, sid));
                    return true;
                }
                i = i + 1;
            }
            false
        },
    }
}

/// How many of the decisions create a marker.
pub open spec fn created_count(actions: Seq<StashMarkerAction>) -> nat
    decreases actions.len(),
{
    if actions.len() == 0 {
        0
    } else {
        created_count(actions.drop_last()) + if actions.last() is Create { 1nat } else { 0nat }
    }
}

proof fn lemma_created_count_bound(actions: Seq<StashMarkerAction>)
    ensures
        created_count(actions) <= actions.len(),
    decreases actions.len(),
{
    if actions.len() > 0 {
        lemma_created_count_bound(actions.drop_last());
    }
}

/// The number of markers the video has after the merge: the ones the library
/// had, and one more for each Stash marker that is created.
pub fn merged_marker_count(stored_count: usize, actions: &Vec<StashMarkerAction>) -> (r: usize)
    requires
        stored_count + actions@.len() <= usize::MAX,
    ensures
        r == stored_count + created_count(actions@),
{
    let mut count = stored_count;
    let n = actions.len();
    let mut i: usize = 0;
    while i < n
        invariant
            n == actions@.len(),
            0 <= i <= n,
            stored_count + n <= usize::MAX,
            count == stored_count + created_count(actions@.take(i as int)),
        decreases n - i,
    {
        proof {
            assert(actions@.take(i as int + 1).drop_last() =~= actions@.take(i as int));
            lemma_created_count_bound(actions@.take(i as int));
        }
        if actions[i] == StashMarkerAction::Create {
            count = count + 1;
        }
        i = i + 1;
    }
    proof {
        assert(actions@.take(n as int) =~= actions@);
    }
    count
}

/// A library marker is copied to Stash when it carries no Stash id and
/// overlaps no marker of the scene.
pub fn copy_to_stash(stash_id: Option<i64>, overlaps: bool) -> (r: bool)
    ensures
        r == (stash_id is None && !overlaps),
{
    stash_id.is_none() && !overlaps
}

/// The Unix time, in whole seconds, of an RFC 3339 timestamp, or `None` when
/// the text is not one. Computed by the `time` crate.
pub uninterp spec fn rfc3339_unix_seconds(text: Seq<char>) -> Option<i64>;

/// `time::OffsetDateTime::parse` with the `Rfc3339` format, then
/// `unix_timestamp`; `None` when the text does not parse.
#[verifier::external_body]
fn parse_rfc3339_seconds(text: &str) -> (r: Option<i64>)
    ensures
        r == rfc3339_unix_seconds(text@),
{
    match OffsetDateTime::parse(text, &Rfc3339) {
        Ok(time) => Some(time.unix_timestamp()),
        Err(_) => None,
    }
}

/// When a Stash scene was created, in Unix seconds, if its timestamp reads as
/// RFC 3339.
pub fn stash_created_on(created_at: &str) -> (r: Option<i64>)
    ensures
        r == rfc3339_unix_seconds(created_at@),
{
    parse_rfc3339_seconds(created_at)
}

/// What the library stores of a video added from a Stash scene, besides its
/// generated id and the URLs of its stream and screenshot.
#[derive(Debug)]
pub struct StashVideoRecord<T> {
    pub title: Option<String>,
    pub tags: String,
    pub stash_scene_id: i64,
    pub duration: T,
    pub interactive: bool,
    pub created_on: Option<i64>,
}

/// The record of a video added from a Stash scene: the scene's title (else its
/// first file's name), its tags joined by `;`, its id read as a number, the
/// duration of its first file, whether it is interactive, and when it was
/// created. The id must be a number and the scene must have a file.
pub fn stash_video_record<T: Copy>(scene: &SceneRecord<T>) -> (r: StashVideoRecord<T>)
    requires
        parsed_i64(scene.id@) is Some,
        scene.files@.len() > 0,
    ensures
        match r.title {
            Some(t) => stash_title(*scene) == Some(t@),
            None => stash_title(*scene) is None,
        },
        r.tags@ == joined(string_texts(scene.tags@), ";"@),
        Some(r.stash_scene_id) == parsed_i64(scene.id@),
        r.duration == scene.files@[0].duration,
        r.interactive == scene.interactive,
        r.created_on == rfc3339_unix_seconds(scene.created_at@),
{
    let stash_scene_id = match parse_i64(scene.id.as_str()) {
        Some(id) => id,
        None => {
            proof {
                assert(false);
            }
            0
        },
    };
    StashVideoRecord {
        title: stash_video_title(scene),
        tags: join_tags(&scene.tags),
        stash_scene_id,
        duration: scene.files[0].duration,
        interactive: scene.interactive,
        created_on: stash_created_on(scene.created_at.as_str()),
    }
}

/// The title of a video added from a file: the file name's stem, if the path
/// has a file name. For a simple path (see `is_simple_path`) that is the stem
/// of the text after its last `/`.
pub fn video_title_from_path(path: &str) -> (r: Option<String>)
    ensures
        r matches Some(title) ==> occurs_in(title@, path@),
        is_simple_path(path@) ==> (r matches Some(title) && title@ == name_stem(last_segment(path@))),
{
    path_file_stem(path)
}

/// Where the script of a video file would be: the same path with the
/// extension `funscript`. For a simple path that is the path up to its file
/// name, the file name's stem, and `.funscript`.
pub fn funscript_path(video_path: &str) -> (r: String)
    ensures
        is_simple_path(video_path@) ==> r@ == parent_text(video_path@) + name_stem(last_segment(video_path@))
            + ".funscript"@,
{
    proof {
        reveal_strlit("funscript");
        assert(is_plain_segment("funscript"@));
    }
    let r = path_with_extension(video_path, "funscript");
    proof {
        reveal_strlit(".funscript");
        reveal_strlit(".");
        assert("."@ + "funscript"@ =~= ".funscript"@);
        if is_simple_path(video_path@) {
            assert(r@ =~= parent_text(video_path@) + name_stem(last_segment(video_path@)) + ".funscript"@);
        }
    }
    r
}

} // verus!
