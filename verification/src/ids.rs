//! Identifiers of videos and markers, and where a video comes from.

use vstd::prelude::*;

verus! {

/// Where a video was found.
#[derive(Debug, Clone, Copy, PartialEq, Eq, Structural)]
pub enum VideoSource {
    LocalFile,
    Stash,
}

/// Identifier of a video, tagged with its source.
#[derive(Debug)]
pub enum VideoId {
    LocalFile(String),
    Stash(String),
}

/// Identifier of a marker, tagged with its source.
#[derive(Debug, Clone, Copy, PartialEq, Eq, Structural)]
pub enum MarkerId {
    LocalFile(i64),
    Stash(i64),
}

/// The mathematical value of a video id: its source and its text.
pub struct VideoIdView {
    pub source: VideoSource,
    pub text: Seq<char>,
}

impl View for VideoId {
    type V = VideoIdView;

    open spec fn view(&self) -> VideoIdView {
        match self {
            VideoId::LocalFile(s) => VideoIdView { source: VideoSource::LocalFile, text: s@ },
            VideoId::Stash(s) => VideoIdView { source: VideoSource::Stash, text: s@ },
        }
    }
}

impl VideoId {
    /// The source that the id is tagged with.
    pub fn source(&self) -> (r: VideoSource)
        ensures
            r == self@.source,
    {
        match self {
            VideoId::LocalFile(_) => VideoSource::LocalFile,
            VideoId::Stash(_) => VideoSource::Stash,
        }
    }

    /// The id's text, whatever its source.
    pub fn as_str(&self) -> (r: &str)
        ensures
            r@ == self@.text,
    {
        match self {
            VideoId::LocalFile(s) => s.as_str(),
            VideoId::Stash(s) => s.as_str(),
        }
    }

    /// An identical copy of the id.
    pub fn copy(&self) -> (r: VideoId)
        ensures
            r == *self,
    {
        match self {
            VideoId::LocalFile(s) => VideoId::LocalFile(s.clone()),
            VideoId::Stash(s) => VideoId::Stash(s.clone()),
        }
    }

    /// Two ids are equal when they have the same source and the same text.
    pub fn same(&self, other: &VideoId) -> (r: bool)
        ensures
            r == (self@ == other@),
    {
        match self {
            VideoId::LocalFile(a) => match other {
                VideoId::LocalFile(b) => a.eq(b),
                VideoId::Stash(_) => false,
            },
            VideoId::Stash(a) => match other {
                VideoId::Stash(b) => a.eq(b),
                VideoId::LocalFile(_) => false,
            },
        }
    }
}

impl MarkerId {
    /// The numeric id, whatever its source.
    pub fn inner(&self) -> (r: i64)
        ensures
            r == (match self {
                MarkerId::LocalFile(n) => *n,
                MarkerId::Stash(n) => *n,
            }),
    {
        match self {
            MarkerId::LocalFile(n) => *n,
            MarkerId::Stash(n) => *n,
        }
    }
}

} // verus!
