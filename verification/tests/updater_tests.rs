use clip_mash::updater::{app_version, VersionError};

#[test]
fn newer_release_needs_update() {
    let v = app_version("v0.2.0", "0.1.0").unwrap();
    assert_eq!(v.new_version, "0.2.0");
    assert_eq!(v.current_version, "0.1.0");
    assert!(v.needs_update);
}

#[test]
fn same_or_older_release_needs_none() {
    assert!(!app_version("v0.1.0", "0.1.0").unwrap().needs_update);
    assert!(!app_version("v0.0.9", "0.1.0").unwrap().needs_update);
    // a release candidate comes before its release
    assert!(!app_version("v1.0.0-rc.1", "1.0.0").unwrap().needs_update);
    assert!(app_version("v1.0.0", "1.0.0-rc.1").unwrap().needs_update);
}

#[test]
fn versions_that_do_not_parse() {
    assert_eq!(app_version("vnext", "0.1.0").unwrap_err(), VersionError::InvalidRelease);
    assert_eq!(app_version("v01.0.0", "0.1.0").unwrap_err(), VersionError::InvalidRelease);
    assert_eq!(app_version("v1.0.0", "one").unwrap_err(), VersionError::InvalidCurrent);
    // the first character is dropped, whatever it is
    assert_eq!(app_version("x1.2.3", "1.2.3").unwrap().new_version, "1.2.3");
}
