//! Whether a release is newer than the running version, by the `semver`
//! crate's reading and ordering of version numbers.

use vstd::prelude::*;
use vstd::string::*;
use semver::Version;

verus! {

#[verifier::external_type_specification]
#[verifier::external_body]
pub struct ExSemverError(semver::Error);

/// The text of a version as `semver` writes it after reading `text`, or
/// `None` when `text` is not a version. Computed by the `semver` crate.
pub uninterp spec fn semver_text(text: Seq<char>) -> Option<Seq<char>>;

/// The version read from `a` is greater than the one read from `b`, in
/// `semver`'s order of versions. Computed by the `semver` crate.
pub uninterp spec fn semver_newer(a: Seq<char>, b: Seq<char>) -> bool;

/// `semver::Version::parse`, then the version's `Display`: the version in its
/// normal form, or the crate's error when the text is not a version.
#[verifier::external_body]
fn normalize_version(text: &str) -> (r: Result<String, semver::Error>)
    ensures
        r is Ok <==> semver_text(text@) is Some,
        r matches Ok(s) ==> semver_text(text@) == Some(s@),
{
    match Version::parse(text) {
        Ok(version) => Ok(version.to_string()),
        Err(e) => Err(e),
    }
}

/// `>` on two `semver::Version`s read with `Version::parse`; both texts must
/// be versions.
#[verifier::external_body]
fn version_newer(a: &str, b: &str) -> (r: bool)
    requires
        semver_text(a@) is Some,
        semver_text(b@) is Some,
    ensures
        r == semver_newer(a@, b@),
{
    match (Version::parse(a), Version::parse(b)) {
        (Ok(a), Ok(b)) => a > b,
        _ => false,
    }
}

/// The latest release compared with the running version.
#[derive(Debug)]
pub struct AppVersion {
    pub new_version: String,
    pub current_version: String,
    pub needs_update: bool,
}

/// A version number that could not be read.
#[derive(Debug, Clone, Copy, PartialEq, Eq, Structural)]
pub enum VersionError {
    /// The release's tag, after its first character, is not a version.
    InvalidRelease,
    /// The running version is not a version.
    InvalidCurrent,
}

/// The version named by a release tag: the tag without its first character
/// (the `v` of `v1.2.3`).
pub open spec fn tag_version(tag_name: Seq<char>) -> Seq<char> {
    tag_name.skip(1)
}

/// Compares the release with tag `tag_name` with the running version
/// `current`. The tag's first character must be a single byte.
pub fn app_version(tag_name: &str, current: &str) -> (r: Result<AppVersion, VersionError>)
    requires
        tag_name@.len() > 0,
        (tag_name@[0] as int) < 128,
    ensures
        match r {
            Ok(v) => {
                &&& semver_text(tag_version(tag_name@)) == Some(v.new_version@)
                &&& semver_text(current@) == Some(v.current_version@)
                &&& v.needs_update == semver_newer(tag_version(tag_name@), current@)
            },
            Err(VersionError::InvalidRelease) => semver_text(tag_version(tag_name@)) is None,
            Err(VersionError::InvalidCurrent) => semver_text(tag_version(tag_name@)) is Some && semver_text(
                current@,
            ) is None,
        },
{
    let len = tag_name.unicode_len();
    let version = tag_name.substring_char(1, len);
    proof {
        assert(version@ =~= tag_version(tag_name@));
    }
    let new_version = match normalize_version(version) {
        Ok(s) => s,
        Err(_) => { return Err(VersionError::InvalidRelease); },
    };
    let current_version = match normalize_version(current) {
        Ok(s) => s,
        Err(_) => { return Err(VersionError::InvalidCurrent); },
    };
    let needs_update = version_newer(version, current);
    Ok(AppVersion { new_version, current_version, needs_update })
}

} // verus!
