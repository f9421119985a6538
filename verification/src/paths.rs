//! File paths, through the `camino` crate. How a path splits into components
//! depends on the platform: `\` separates components on Windows only, and a
//! Windows path may start with a prefix (a drive such as `C:`, or, after two
//! separators, a network share or a verbatim `\\?\` path, under which `.`
//! and `..` are resolved when joining). So the contracts here are exact only
//! on paths that every platform reads alike, and say nothing of the others.

use vstd::prelude::*;
use camino::Utf8Path;

verus! {

/// `text` occurs in `s` as a contiguous run of characters.
pub open spec fn occurs_in(text: Seq<char>, s: Seq<char>) -> bool {
    exists|i: int| 0 <= i && i + text.len() <= s.len() && #[trigger] s.subrange(i, i + text.len()) == text
}

/// `s` ends with `suffix`.
pub open spec fn ends_with(s: Seq<char>, suffix: Seq<char>) -> bool {
    suffix.len() <= s.len() && s.subrange(s.len() - suffix.len(), s.len() as int) == suffix
}

/// The position of the last `c` among the first `end` characters of `s`, or
/// -1 when there is none.
pub open spec fn last_index_before(s: Seq<char>, c: char, end: int) -> int
    decreases end,
{
    if end <= 0 {
        -1
    } else if s[end - 1] == c {
        end - 1
    } else {
        last_index_before(s, c, end - 1)
    }
}

/// The position of the last `c` in `s`, or -1 when there is none.
pub open spec fn last_index_of(s: Seq<char>, c: char) -> int {
    last_index_before(s, c, s.len() as int)
}

/// The text after the last `/` of a path (all of it when it has none).
pub open spec fn last_segment(path: Seq<char>) -> Seq<char> {
    path.skip(last_index_of(path, '/') + 1)
}

/// A path whose file name every platform reads alike: it holds no `\` and no
/// `:`, it does not start with `//` (which Windows may read as a network
/// share), and its text after the last `/` is a name (not empty, `.` or `..`).
pub open spec fn is_simple_path(path: Seq<char>) -> bool {
    &&& forall|i: int| 0 <= i < path.len() ==> #[trigger] path[i] != '\\' && path[i] != ':'
    &&& !(path.len() >= 2 && path[0] == '/' && path[1] == '/')
    &&& last_segment(path).len() > 0
    &&& last_segment(path) != "."@
    &&& last_segment(path) != ".."@
}

/// The stem of a file name: the part before its last `.`, or the whole name
/// when it has no `.` but at its start.
pub open spec fn name_stem(name: Seq<char>) -> Seq<char> {
    let dot = last_index_of(name, '.');
    if dot <= 0 {
        name
    } else {
        name.take(dot)
    }
}

/// The extension of a file name: the part after its last `.`, if it has a
/// `.` other than at its start.
pub open spec fn name_extension(name: Seq<char>) -> Option<Seq<char>> {
    let dot = last_index_of(name, '.');
    if dot <= 0 {
        None
    } else {
        Some(name.skip(dot + 1))
    }
}

/// `camino::Utf8Path::file_name`: the final component of the path, if it is
/// a name (not the root, a prefix, or `..`). It is a run of characters of the
/// path; for a simple path (see `is_simple_path`) it is the text after the
/// last `/`.
#[verifier::external_body]
pub(crate) fn path_file_name(path: &str) -> (r: Option<String>)
    ensures
        r matches Some(name) ==> occurs_in(name@, path@),
        is_simple_path(path@) ==> match r {
            Some(name) => name@ == last_segment(path@),
            None => false,
        },
{
    match Utf8Path::new(path).file_name() {
        Some(part) => Some(part.to_string()),
        None => None,
    }
}

/// `camino::Utf8Path::file_stem`: the final component without its extension,
/// if the path has a final component. It is a run of characters of the path;
/// for a simple path (see `is_simple_path`) the final component is the text
/// after the last `/`, and the stem is as its documentation gives it.
#[verifier::external_body]
pub(crate) fn path_file_stem(path: &str) -> (r: Option<String>)
    ensures
        r matches Some(stem) ==> occurs_in(stem@, path@),
        is_simple_path(path@) ==> match r {
            Some(stem) => stem@ == name_stem(last_segment(path@)),
            None => false,
        },
{
    match Utf8Path::new(path).file_stem() {
        Some(part) => Some(part.to_string()),
        None => None,
    }
}

/// `camino::Utf8Path::extension`: the extension of the final component, if it
/// has one. It is a run of characters of the path; for a simple path it is as
/// its documentation gives it.
#[verifier::external_body]
pub(crate) fn path_extension(path: &str) -> (r: Option<String>)
    ensures
        r matches Some(ext) ==> occurs_in(ext@, path@),
        is_simple_path(path@) ==> match r {
            Some(ext) => name_extension(last_segment(path@)) == Some(ext@),
            None => name_extension(last_segment(path@)) is None,
        },
{
    match Utf8Path::new(path).extension() {
        Some(part) => Some(part.to_string()),
        None => None,
    }
}

/// The text of a path up to and including its last `/` (none when it has no
/// `/`).
pub open spec fn parent_text(path: Seq<char>) -> Seq<char> {
    path.take(last_index_of(path, '/') + 1)
}

/// `camino::Utf8Path::with_extension`, which is std's `set_extension` on a
/// copy: the path with the extension of its file name added or replaced. For a
/// simple path (see `is_simple_path`) and a plain extension (see
/// `is_plain_segment`), that is the path up to its file name, then the file
/// name's stem, `.` and the extension. It is left unsaid for other paths.
#[verifier::external_body]
pub(crate) fn path_with_extension(path: &str, extension: &str) -> (r: String)
    ensures
        is_simple_path(path@) && is_plain_segment(extension@) ==> r@ == parent_text(path@) + name_stem(
            last_segment(path@),
        ) + "."@ + extension@,
{
    Utf8Path::new(path).with_extension(extension).into_string()
}

/// A character that separates path components on some platform.
pub open spec fn is_separator(c: char) -> bool {
    c == '/' || c == '\\'
}

/// A relative path of one component with no drive: no separator and no `:`.
pub open spec fn is_plain_segment(s: Seq<char>) -> bool {
    &&& s.len() > 0
    &&& forall|i: int| 0 <= i < s.len() ==> !is_separator(#[trigger] s[i]) && s[i] != ':'
}

/// A directory that joining treats the same way on every platform: it does not
/// start with two separators (as a Windows network share or verbatim `\\?\`
/// path does), and it is not a lone `\`.
pub open spec fn is_ordinary_base(base: Seq<char>) -> bool {
    &&& !(base.len() >= 2 && is_separator(base[0]) && is_separator(base[1]))
    &&& base != seq!['\\']
}

/// A bare Windows drive such as `C:`, after which Windows puts no separator.
pub open spec fn is_bare_drive(base: Seq<char>) -> bool {
    base.len() == 2 && base[1] == ':'
}

/// `path` is `base` followed by `segment`: directly when `base` is empty or
/// ends with `/`; after one separator when `base` ends with anything else but
/// `\` or is a bare drive; and in either of these two ways after a base that
/// ends with `\` (a separator on Windows only) or is a bare drive.
pub open spec fn child_of(path: Seq<char>, base: Seq<char>, segment: Seq<char>) -> bool {
    if base.len() == 0 || base.last() == '/' {
        path == base + segment
    } else if base.last() == '\\' || is_bare_drive(base) {
        ||| path == base + segment
        ||| exists|sep: char| is_separator(sep) && path == base + seq![sep] + segment
    } else {
        exists|sep: char| is_separator(sep) && path == base + seq![sep] + segment
    }
}

/// `camino::Utf8Path::join`, which is std's `PathBuf::push`: onto an ordinary
/// base (see `is_ordinary_base`), the segment replaces the path when it is
/// absolute or has a drive, and is appended otherwise, so the result ends with
/// it. A plain segment (see `is_plain_segment`) is appended: directly after an
/// empty base or one that ends with `/`, else after a separator, except that
/// Windows puts none after a base that ends with `\` or is a bare drive. Which
/// separator is left unsaid; so is what joining onto any other base gives.
#[verifier::external_body]
pub(crate) fn path_join(base: &str, segment: &str) -> (r: String)
    ensures
        is_ordinary_base(base@) ==> ends_with(r@, segment@),
        is_ordinary_base(base@) && is_plain_segment(segment@) ==> child_of(r@, base@, segment@),
{
    Utf8Path::new(base).join(segment).into_string()
}

/// Joining a plain segment onto an ordinary base gives an ordinary base.
pub proof fn lemma_child_is_ordinary(path: Seq<char>, base: Seq<char>, segment: Seq<char>)
    requires
        is_ordinary_base(base),
        is_plain_segment(segment),
        child_of(path, base, segment),
    ensures
        is_ordinary_base(path),
{
    if base.len() == 0 {
        assert(path == segment);
        assert(!is_separator(segment[0]));
    } else if base.len() == 1 {
        if base[0] == '/' {
            assert(path == base + segment);
            assert(path[1] == segment[0]);
            assert(!is_separator(path[1]));
        } else {
            assert(!is_separator(base[0])) by {
                if base[0] == '\\' {
                    assert(base =~= seq!['\\']);
                }
            }
            assert(path[0] == base[0]);
        }
        assert(path.len() >= 2);
    } else {
        assert(path[0] == base[0] && path[1] == base[1]);
        assert(path.len() >= 2);
    }
    assert(path != seq!['\\']) by {
        assert(path.len() != 1 || base.len() == 0);
        if base.len() == 0 {
            assert(!is_separator(path[0]));
        }
    }
}

} // verus!
