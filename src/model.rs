//! The models that parsing produces.
//!
//! Use the resources' ids to get thumbnails or urls.
use core::time::Duration;
use vstd::prelude::*;

use self::id::{ChannelId, PlaylistId, VideoId};
use self::search::{PartialPlaylist, PartialPlaylistVideo, PartialPlaylistView, TrackView};

pub mod id;
pub mod search;
pub mod thumbnail;

verus! {

/// What a [`Channel`] holds.
pub struct ChannelView {
    pub id: Seq<char>,
    pub name: Seq<char>,
}

/// What a [`Video`] holds.
pub struct VideoView {
    pub id: Seq<char>,
    pub length: Duration,
    pub title: Seq<char>,
    pub uploader: ChannelView,
}

/// What a [`Playlist`] holds.
pub struct PlaylistView {
    pub id: Seq<char>,
    pub tracks: Seq<VideoView>,
    pub title: Seq<char>,
    pub uploader: ChannelView,
}

/// Information about a channel.
///
/// This is a channel, not a user: its link has the form `/channel/ID`. Both
/// forms lead to the same page.
#[derive(Clone, Debug, PartialEq, Eq, PartialOrd, Ord, Hash)]
pub struct Channel {
    /// The channel's unique id.
    pub id: ChannelId,
    /// The channel's name.
    pub name: String,
}

impl View for Channel {
    type V = ChannelView;

    open spec fn view(&self) -> ChannelView {
        ChannelView { id: self.id@, name: self.name@ }
    }
}

/// Information about a playlist. Searches never yield one: they yield
/// [`PartialPlaylist`]s.
#[derive(Clone, Debug, PartialEq, Eq, PartialOrd, Ord, Hash)]
pub struct Playlist {
    /// The playlist's unique id.
    pub id: PlaylistId,
    /// The playlist's tracks.
    pub tracks: Vec<Video>,
    /// The playlist's title.
    pub title: String,
    /// The playlist's uploader.
    pub uploader: Channel,
}

impl View for Playlist {
    type V = PlaylistView;

    open spec fn view(&self) -> PlaylistView {
        PlaylistView {
            id: self.id@,
            tracks: self.tracks@.map_values(|v: Video| v@),
            title: self.title@,
            uploader: self.uploader@,
        }
    }
}

/// Resource types.
#[derive(Clone, Debug, PartialEq, Eq, PartialOrd, Ord, Hash)]
pub enum Resource {
    /// Playlist type; never produced, since full playlists are not fetched.
    Playlist(Playlist),
    /// Video type.
    Video(Video),
}

/// Information about a video.
#[derive(Clone, Debug, PartialEq, Eq, PartialOrd, Ord, Hash)]
pub struct Video {
    /// The video's unique id.
    pub id: VideoId,
    /// The video's length.
    pub length: Duration,
    /// The video's title.
    pub title: String,
    /// The video's uploader.
    pub uploader: Channel,
}

impl View for Video {
    type V = VideoView;

    open spec fn view(&self) -> VideoView {
        VideoView { id: self.id@, length: self.length, title: self.title@, uploader: self.uploader@ }
    }
}

/// A video without its uploader, as a playlist lists it.
pub open spec fn track_of(v: VideoView) -> TrackView {
    TrackView { id: v.id, length: v.length, title: v.title }
}

/// A playlist cut to its first two tracks, counting all of them.
pub open spec fn partial_of(p: PlaylistView) -> PartialPlaylistView {
    PartialPlaylistView {
        id: p.id,
        tracks: p.tracks.take(if p.tracks.len() < 2 { p.tracks.len() as int } else { 2 }).map_values(
            |v: VideoView| track_of(v),
        ),
        tracks_total: if p.tracks.len() <= u32::MAX {
            p.tracks.len() as u32
        } else {
            u32::MAX
        },
        title: p.title,
        uploader: p.uploader,
    }
}

impl PartialPlaylistVideo {
    /// The video without its uploader.
    pub fn from_video(v: Video) -> (r: Self)
        ensures
            r@ == track_of(v@),
    {
        PartialPlaylistVideo { id: v.id, length: v.length, title: v.title }
    }
}

impl From<Video> for PartialPlaylistVideo {
    fn from(v: Video) -> (r: Self) {
        PartialPlaylistVideo { id: v.id, length: v.length, title: v.title }
    }
}

impl vstd::std_specs::convert::FromSpecImpl<Video> for PartialPlaylistVideo {
    open spec fn obeys_from_spec() -> bool {
        true
    }

    open spec fn from_spec(v: Video) -> PartialPlaylistVideo {
        PartialPlaylistVideo { id: v.id, length: v.length, title: v.title }
    }
}

impl PartialPlaylist {
    /// The summary a search shows of a playlist: its first two tracks, and
    /// the number of all of them (at most `u32::MAX`).
    pub fn from_playlist(p: Playlist) -> (r: Self)
        ensures
            r@ == partial_of(p@),
            r.tracks@.len() <= 2,
            r.tracks@.len() <= r.tracks_total,
    {
        let n = p.tracks.len();
        let tracks_total: u32 = if n <= u32::MAX as usize {
            n as u32
        } else {
            u32::MAX
        };
        let keep: usize = if n < 2 {
            n
        } else {
            2
        };
        let ghost orig = p.tracks@;
        let mut rest = p.tracks;
        rest.truncate(keep);
        let mut tracks: Vec<PartialPlaylistVideo> = Vec::new();
        let mut i: usize = 0;
        while i < keep
            invariant
                keep <= n == orig.len(),
                i <= keep <= 2,
                tracks@.len() == i,
                rest@ == orig.subrange(i as int, keep as int),
                forall|j: int| 0 <= j < i ==> #[trigger] tracks@[j]@ == track_of(orig[j]@),
            decreases keep - i,
        {
            let v = rest.remove(0);
            tracks.push(PartialPlaylistVideo::from_video(v));
            i = i + 1;
        }
        let r = PartialPlaylist {
            id: p.id,
            tracks: tracks,
            tracks_total: tracks_total,
            title: p.title,
            uploader: p.uploader,
        };
        assert(r@.tracks == partial_of(p@).tracks);
        r
    }
}

impl From<Playlist> for PartialPlaylist {
    /// See [`PartialPlaylist::from_playlist`].
    fn from(p: Playlist) -> (r: Self)
        ensures
            r@ == partial_of(p@),
            r.tracks@.len() <= 2,
            r.tracks@.len() <= r.tracks_total,
    {
        PartialPlaylist::from_playlist(p)
    }
}

/// A summary's tracks are a `Vec`, which a spec function cannot build, so
/// the conversion is stated by the `ensures` of `from` itself.
impl vstd::std_specs::convert::FromSpecImpl<Playlist> for PartialPlaylist {
    open spec fn obeys_from_spec() -> bool {
        false
    }

    open spec fn from_spec(p: Playlist) -> PartialPlaylist {
        arbitrary()
    }
}

} // verus!
