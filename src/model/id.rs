//! Typed resource identifiers.
//!
//! Playlists have no `thumbnail` method: a playlist shows its first video's
//! thumbnail.
use vstd::prelude::*;

use super::thumbnail::{ImageFormat, Resolution, resolution_name};
use crate::text::concat;

verus! {

pub open spec fn channel_url(id: Seq<char>) -> Seq<char> {
    "https://www.youtube.com/channel/"@ + id
}

pub open spec fn playlist_url(id: Seq<char>) -> Seq<char> {
    "https://www.youtube.com/playlist?list="@ + id
}

pub open spec fn video_url(id: Seq<char>) -> Seq<char> {
    "https://youtu.be/"@ + id
}

/// The directory of thumbnails in a format, ending in a slash.
pub open spec fn thumbnail_dir(format: ImageFormat) -> Seq<char> {
    match format {
        ImageFormat::JPEG => "https://i.ytimg.com/vi/"@,
        ImageFormat::WebP => "https://i.ytimg.com/vi_webp/"@,
    }
}

/// The file extension of a format, with its dot.
pub open spec fn thumbnail_ext(format: ImageFormat) -> Seq<char> {
    match format {
        ImageFormat::JPEG => ".jpg"@,
        ImageFormat::WebP => ".webp"@,
    }
}

pub open spec fn thumbnail_url(id: Seq<char>, format: ImageFormat, res: Resolution) -> Seq<char> {
    thumbnail_dir(format) + id + "/"@ + resolution_name(res) + thumbnail_ext(format)
}

/// Channel identifier.
#[derive(Clone, Debug, PartialEq, Eq, PartialOrd, Ord, Hash)]
pub struct ChannelId(String);

impl View for ChannelId {
    type V = Seq<char>;

    closed spec fn view(&self) -> Seq<char> {
        self.0@
    }
}

impl ChannelId {
    /// An identifier holding `id`.
    pub fn new(id: &str) -> (r: Self)
        ensures
            r@ == id@,
    {
        ChannelId(id.to_owned())
    }

    /// The underlying string slice.
    pub fn as_str(&self) -> (r: &str)
        ensures
            r@ == self@,
    {
        self.0.as_str()
    }

    /// Consumes the id, returning the underlying string.
    pub fn into_string(self) -> (r: String)
        ensures
            r@ == self@,
    {
        self.0
    }

    /// The channel's page.
    pub fn url(&self) -> (r: String)
        ensures
            r@ == channel_url(self@),
    {
        concat("https://www.youtube.com/channel/", self.0.as_str())
    }
}

/// Playlist identifier.
#[derive(Clone, Debug, PartialEq, Eq, PartialOrd, Ord, Hash)]
pub struct PlaylistId(String);

impl View for PlaylistId {
    type V = Seq<char>;

    closed spec fn view(&self) -> Seq<char> {
        self.0@
    }
}

impl PlaylistId {
    /// An identifier holding `id`.
    pub fn new(id: &str) -> (r: Self)
        ensures
            r@ == id@,
    {
        PlaylistId(id.to_owned())
    }

    /// The underlying string slice.
    pub fn as_str(&self) -> (r: &str)
        ensures
            r@ == self@,
    {
        self.0.as_str()
    }

    /// Consumes the id, returning the underlying string.
    pub fn into_string(self) -> (r: String)
        ensures
            r@ == self@,
    {
        self.0
    }

    /// The playlist's page.
    pub fn url(&self) -> (r: String)
        ensures
            r@ == playlist_url(self@),
    {
        concat("https://www.youtube.com/playlist?list=", self.0.as_str())
    }
}

/// Video identifier.
#[derive(Clone, Debug, PartialEq, Eq, PartialOrd, Ord, Hash)]
pub struct VideoId(String);

impl View for VideoId {
    type V = Seq<char>;

    closed spec fn view(&self) -> Seq<char> {
        self.0@
    }
}

impl VideoId {
    /// An identifier holding `id`.
    pub fn new(id: &str) -> (r: Self)
        ensures
            r@ == id@,
    {
        VideoId(id.to_owned())
    }

    /// The underlying string slice.
    pub fn as_str(&self) -> (r: &str)
        ensures
            r@ == self@,
    {
        self.0.as_str()
    }

    /// Consumes the id, returning the underlying string.
    pub fn into_string(self) -> (r: String)
        ensures
            r@ == self@,
    {
        self.0
    }

    /// The thumbnail image in a format and resolution.
    pub fn thumbnail(&self, format: ImageFormat, res: Resolution) -> (r: String)
        ensures
            r@ == thumbnail_url(self@, format, res),
    {
        let (dir, ext) = match format {
            ImageFormat::JPEG => ("https://i.ytimg.com/vi/", ".jpg"),
            ImageFormat::WebP => ("https://i.ytimg.com/vi_webp/", ".webp"),
        };
        let a = concat(dir, self.0.as_str());
        let b = concat(a.as_str(), "/");
        let c = concat(b.as_str(), res.as_str());
        let r = concat(c.as_str(), ext);
        r
    }

    /// The video's short link.
    pub fn url(&self) -> (r: String)
        ensures
            r@ == video_url(self@),
    {
        concat("https://youtu.be/", self.0.as_str())
    }
}

} // verus!
