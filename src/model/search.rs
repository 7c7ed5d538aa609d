//! Search results.
use core::time::Duration;
use vstd::prelude::*;

use super::id::{PlaylistId, VideoId};
use super::{Channel, ChannelView, Video, VideoView};

verus! {

/// What a [`PartialPlaylistVideo`] holds.
pub struct TrackView {
    pub id: Seq<char>,
    pub length: Duration,
    pub title: Seq<char>,
}

/// What a [`PartialPlaylist`] holds.
pub struct PartialPlaylistView {
    pub id: Seq<char>,
    pub tracks: Seq<TrackView>,
    pub tracks_total: u32,
    pub title: Seq<char>,
    pub uploader: ChannelView,
}

/// What a [`SearchItem`] holds.
pub enum ItemView {
    Playlist(PartialPlaylistView),
    Video(VideoView),
}

/// The videos among `items`, in order.
pub open spec fn videos_of(items: Seq<ItemView>) -> Seq<VideoView>
    decreases items.len(),
{
    if items.len() == 0 {
        seq![]
    } else {
        let rest = videos_of(items.drop_last());
        match items.last() {
            ItemView::Video(v) => rest.push(v),
            ItemView::Playlist(_) => rest,
        }
    }
}

/// The playlists among `items`, in order.
pub open spec fn playlists_of(items: Seq<ItemView>) -> Seq<PartialPlaylistView>
    decreases items.len(),
{
    if items.len() == 0 {
        seq![]
    } else {
        let rest = playlists_of(items.drop_last());
        match items.last() {
            ItemView::Playlist(p) => rest.push(p),
            ItemView::Video(_) => rest,
        }
    }
}

/// Search result contents.
#[derive(Clone, Debug, PartialEq, Eq, PartialOrd, Ord, Hash)]
pub struct SearchResult {
    /// The result items, in page order.
    pub items: Vec<SearchItem>,
}

impl View for SearchResult {
    type V = Seq<ItemView>;

    open spec fn view(&self) -> Seq<ItemView> {
        self.items@.map_values(|i: SearchItem| i@)
    }
}

impl SearchResult {
    /// The videos among the results, in order.
    pub fn videos(self) -> (r: Vec<Video>)
        ensures
            r@.map_values(|v: Video| v@) == videos_of(self@),
    {
        let ghost all = self@;
        let mut out: Vec<Video> = Vec::new();
        let mut rest = self.items;
        let mut i: usize = 0;
        let n = rest.len();
        while rest.len() > 0
            invariant
                n == all.len(),
                i + rest@.len() == n,
                rest@.map_values(|x: SearchItem| x@) == all.skip(i as int),
                out@.map_values(|v: Video| v@) == videos_of(all.take(i as int)),
            decreases rest@.len(),
        {
            let ghost before = rest@;
            let item = rest.remove(0);
            assert(all.take(i + 1).drop_last() == all.take(i as int));
            assert(before.map_values(|x: SearchItem| x@)[0] == item@);
            assert forall|k: int| 0 <= k < rest@.len() implies #[trigger] rest@[k]@ == all.skip(i + 1)[k] by {
                assert(rest@[k] == before[k + 1]);
                assert(before.map_values(|x: SearchItem| x@)[k + 1] == before[k + 1]@);
            }
            assert(rest@.map_values(|x: SearchItem| x@) =~= all.skip(i + 1));
            match item {
                SearchItem::Video(v) => {
                    out.push(v);
                },
                SearchItem::Playlist(_) => {},
            }
            i = i + 1;
        }
        assert(all.take(n as int) == all);
        out
    }

    /// The playlists among the results, in order.
    pub fn playlists(self) -> (r: Vec<PartialPlaylist>)
        ensures
            r@.map_values(|p: PartialPlaylist| p@) == playlists_of(self@),
    {
        let ghost all = self@;
        let mut out: Vec<PartialPlaylist> = Vec::new();
        let mut rest = self.items;
        let mut i: usize = 0;
        let n = rest.len();
        while rest.len() > 0
            invariant
                n == all.len(),
                i + rest@.len() == n,
                rest@.map_values(|x: SearchItem| x@) == all.skip(i as int),
                out@.map_values(|p: PartialPlaylist| p@) == playlists_of(all.take(i as int)),
            decreases rest@.len(),
        {
            let ghost before = rest@;
            let item = rest.remove(0);
            assert(all.take(i + 1).drop_last() == all.take(i as int));
            assert(before.map_values(|x: SearchItem| x@)[0] == item@);
            assert forall|k: int| 0 <= k < rest@.len() implies #[trigger] rest@[k]@ == all.skip(i + 1)[k] by {
                assert(rest@[k] == before[k + 1]);
                assert(before.map_values(|x: SearchItem| x@)[k + 1] == before[k + 1]@);
            }
            assert(rest@.map_values(|x: SearchItem| x@) =~= all.skip(i + 1));
            match item {
                SearchItem::Playlist(p) => {
                    out.push(p);
                },
                SearchItem::Video(_) => {},
            }
            i = i + 1;
        }
        assert(all.take(n as int) == all);
        out
    }
}

/// An item of a search.
#[derive(Clone, Debug, PartialEq, Eq, PartialOrd, Ord, Hash)]
pub enum SearchItem {
    /// Playlist item.
    ///
    /// It lists [`PartialPlaylistVideo`]s, which have no uploader, and only
    /// the first two of them: the full list takes another query by the
    /// playlist's id.
    Playlist(PartialPlaylist),
    /// Video item.
    Video(Video),
}

impl View for SearchItem {
    type V = ItemView;

    open spec fn view(&self) -> ItemView {
        match self {
            SearchItem::Playlist(p) => ItemView::Playlist(p@),
            SearchItem::Video(v) => ItemView::Video(v@),
        }
    }
}

impl SearchItem {
    /// The title of the item.
    pub fn title(&self) -> (r: &str)
        ensures
            r@ == (match self@ {
                ItemView::Playlist(p) => p.title,
                ItemView::Video(v) => v.title,
            }),
    {
        match self {
            SearchItem::Playlist(p) => p.title.as_str(),
            SearchItem::Video(v) => v.title.as_str(),
        }
    }

    /// The uploader of the item.
    pub fn uploader(&self) -> (r: &Channel)
        ensures
            r@ == (match self@ {
                ItemView::Playlist(p) => p.uploader,
                ItemView::Video(v) => v.uploader,
            }),
    {
        match self {
            SearchItem::Playlist(p) => &p.uploader,
            SearchItem::Video(v) => &v.uploader,
        }
    }
}

/// A playlist as a search shows it.
#[derive(Clone, Debug, PartialEq, Eq, PartialOrd, Ord, Hash)]
pub struct PartialPlaylist {
    /// The playlist's unique id.
    pub id: PlaylistId,
    /// Up to the first two tracks of the playlist.
    pub tracks: Vec<PartialPlaylistVideo>,
    /// The number of tracks in the playlist.
    pub tracks_total: u32,
    /// The playlist's title.
    pub title: String,
    /// The playlist's uploader.
    pub uploader: Channel,
}

impl View for PartialPlaylist {
    type V = PartialPlaylistView;

    open spec fn view(&self) -> PartialPlaylistView {
        PartialPlaylistView {
            id: self.id@,
            tracks: self.tracks@.map_values(|t: PartialPlaylistVideo| t@),
            tracks_total: self.tracks_total,
            title: self.title@,
            uploader: self.uploader@,
        }
    }
}

/// A video in a [`PartialPlaylist`].
#[derive(Clone, Debug, PartialEq, Eq, PartialOrd, Ord, Hash)]
pub struct PartialPlaylistVideo {
    /// The video's unique id.
    pub id: VideoId,
    /// The video's length.
    pub length: Duration,
    /// The video's title.
    pub title: String,
}

impl View for PartialPlaylistVideo {
    type V = TrackView;

    open spec fn view(&self) -> TrackView {
        TrackView { id: self.id@, length: self.length, title: self.title@ }
    }
}

} // verus!
