//! Search result pages.
use vstd::prelude::*;
use vstd::utf8::encode_utf8;

use crate::duration::{colon_millis, colon_to_duration, duration_of_millis};
use crate::error::{outcome, ParseFailure, Parsing};
use crate::extract::{embedded_json, embedded_value, INITIAL_DATA};
use crate::json::{at, need, pointer, str_at, string_at, Json};
use crate::model::id::{ChannelId, PlaylistId, VideoId};
use crate::model::search::{
    videos_of, ItemView, PartialPlaylist, PartialPlaylistVideo, PartialPlaylistView, SearchItem, SearchResult,
    TrackView,
};
use crate::model::{Channel, ChannelView, Video, VideoView};
use crate::text::decimal_u64;

verus! {

/// The style of a badge that marks a stream as live.
pub open spec fn badge_is_live(b: Json) -> bool {
    str_at(b, "/metadataBadgeRenderer/style"@) == Some("BADGE_STYLE_TYPE_LIVE_NOW"@)
}

/// The video entry carries a live badge.
pub open spec fn is_live(v: Json) -> bool {
    match at(v, "/badges"@) {
        Some(Json::Array(bs)) => exists|i: int| 0 <= i < bs@.len() && badge_is_live(#[trigger] bs@[i]),
        _ => false,
    }
}

/// What a video entry of a search yields: a video, nothing for a live stream
/// or an entry without a length, or the first failure.
pub open spec fn video_entry(v: Json) -> Result<Option<VideoView>, ParseFailure> {
    match need(v, "/videoId"@) {
        Err(e) => Err(e),
        Ok(id) => if is_live(v) {
            Ok(None)
        } else {
            match str_at(v, "/lengthText/simpleText"@) {
                None => Ok(None),
                Some(text) => match colon_millis(encode_utf8(text)) {
                    None => Err(ParseFailure::NumericFormat("/lengthText/simpleText"@)),
                    Some(ms) => match need(v, "/title/runs/0/text"@) {
                        Err(e) => Err(e),
                        Ok(title) => match need(
                            v,
                            "/ownerText/runs/0/navigationEndpoint/browseEndpoint/browseId"@,
                        ) {
                            Err(e) => Err(e),
                            Ok(cid) => match need(v, "/ownerText/runs/0/text"@) {
                                Err(e) => Err(e),
                                Ok(name) => Ok(
                                    Some(
                                        VideoView {
                                            id,
                                            length: duration_of_millis(ms),
                                            title,
                                            uploader: ChannelView { id: cid, name },
                                        },
                                    ),
                                ),
                            },
                        },
                    },
                },
            }
        },
    }
}

/// What one listed track of a playlist entry yields.
pub open spec fn track_entry(c: Json) -> Result<TrackView, ParseFailure> {
    match need(c, "/childVideoRenderer/videoId"@) {
        Err(e) => Err(e),
        Ok(id) => match need(c, "/childVideoRenderer/lengthText/simpleText"@) {
            Err(e) => Err(e),
            Ok(text) => match colon_millis(encode_utf8(text)) {
                None => Err(ParseFailure::NumericFormat("/childVideoRenderer/lengthText/simpleText"@)),
                Some(ms) => match need(c, "/childVideoRenderer/title/simpleText"@) {
                    Err(e) => Err(e),
                    Ok(title) => Ok(TrackView { id, length: duration_of_millis(ms), title }),
                },
            },
        },
    }
}

/// The listed tracks in order, or the failure of the first bad one.
pub open spec fn tracks_of(children: Seq<Json>) -> Result<Seq<TrackView>, ParseFailure>
    decreases children.len(),
{
    if children.len() == 0 {
        Ok(seq![])
    } else {
        match tracks_of(children.drop_last()) {
            Err(e) => Err(e),
            Ok(ts) => match track_entry(children.last()) {
                Err(e) => Err(e),
                Ok(t) => Ok(ts.push(t)),
            },
        }
    }
}

/// The ASCII `+` sign.
pub const PLUS: u8 = 43;

/// The digits of a count text: what follows one leading `+`, if any.
pub open spec fn count_digits(b: Seq<u8>) -> Seq<u8> {
    if b.len() > 0 && b[0] == PLUS {
        b.drop_first()
    } else {
        b
    }
}

/// The number of tracks a playlist entry states: an optional `+` and then
/// decimal digits, as `u32::from_str` reads them, when it fits in 32 bits.
pub open spec fn count_of(text: Seq<char>) -> Option<u32> {
    match decimal_u64(count_digits(encode_utf8(text))) {
        Some(n) => if n <= u32::MAX {
            Some(n as u32)
        } else {
            None
        },
        None => None,
    }
}

/// How many listed tracks a summary keeps: at most two, and no more than
/// the playlist has.
pub open spec fn kept(listed: nat, total: u32) -> int {
    let bound: int = if total < 2 {
        total as int
    } else {
        2
    };
    if listed < bound {
        listed as int
    } else {
        bound
    }
}

/// What a playlist entry of a search yields.
pub open spec fn playlist_entry(p: Json) -> Result<PartialPlaylistView, ParseFailure> {
    match need(p, "/playlistId"@) {
        Err(e) => Err(e),
        Ok(id) => match at(p, "/videos"@) {
            Some(Json::Array(children)) => match tracks_of(children@) {
                Err(e) => Err(e),
                Ok(tracks) => match need(p, "/videoCountText/runs/0/text"@) {
                    Err(e) => Err(e),
                    Ok(count) => match count_of(count) {
                        None => Err(ParseFailure::NumericFormat("/videoCountText/runs/0/text"@)),
                        Some(total) => match need(p, "/title/simpleText"@) {
                            Err(e) => Err(e),
                            Ok(title) => match need(
                                p,
                                "/shortBylineText/runs/0/navigationEndpoint/browseEndpoint/browseId"@,
                            ) {
                                Err(e) => Err(e),
                                Ok(cid) => match need(p, "/shortBylineText/runs/0/text"@) {
                                    Err(e) => Err(e),
                                    Ok(name) => Ok(
                                        PartialPlaylistView {
                                            id,
                                            tracks: tracks.take(kept(tracks.len(), total)),
                                            tracks_total: total,
                                            title,
                                            uploader: ChannelView { id: cid, name },
                                        },
                                    ),
                                },
                            },
                        },
                    },
                },
            },
            _ => Err(ParseFailure::MissingElement("/videos"@)),
        },
    }
}

/// What one entry of the results yields: a video or playlist item, nothing
/// (a skipped stream, a shelf or another kind), or the first failure.
pub open spec fn entry_item(e: Json) -> Result<Option<ItemView>, ParseFailure> {
    match at(e, "/videoRenderer"@) {
        Some(v) => match video_entry(v) {
            Err(x) => Err(x),
            Ok(None) => Ok(None),
            Ok(Some(vv)) => Ok(Some(ItemView::Video(vv))),
        },
        None => match at(e, "/playlistRenderer"@) {
            Some(p) => match playlist_entry(p) {
                Err(x) => Err(x),
                Ok(pp) => Ok(Some(ItemView::Playlist(pp))),
            },
            None => Ok(None),
        },
    }
}

/// The items of all entries in order, or the first failure.
pub open spec fn search_items(entries: Seq<Json>) -> Result<Seq<ItemView>, ParseFailure>
    decreases entries.len(),
{
    if entries.len() == 0 {
        Ok(seq![])
    } else {
        match search_items(entries.drop_last()) {
            Err(e) => Err(e),
            Ok(items) => match entry_item(entries.last()) {
                Err(e) => Err(e),
                Ok(None) => Ok(items),
                Ok(Some(it)) => Ok(items.push(it)),
            },
        }
    }
}

/// Where a search page lists its results.
pub open spec fn results_path() -> Seq<char> {
    "/contents/twoColumnSearchResultsRenderer/primaryContents/sectionListRenderer/contents/0/itemSectionRenderer/contents"@
}

/// What the initial data of a search page yields.
pub open spec fn search_of_tree(data: Json) -> Result<Seq<ItemView>, ParseFailure> {
    match at(data, results_path()) {
        Some(Json::Array(entries)) => search_items(entries@),
        _ => Err(ParseFailure::MissingElement(results_path())),
    }
}

/// What a search page yields.
pub open spec fn search_view(html: Seq<char>) -> Result<Seq<ItemView>, ParseFailure> {
    match embedded_value(html, INITIAL_DATA@) {
        None => Err(ParseFailure::ExtractionFailure),
        Some(data) => search_of_tree(data),
    }
}

/// A video entry carries a live badge.
pub fn video_is_live(v: &Json) -> (r: bool)
    ensures
        r == is_live(*v),
{
    match pointer(v, "/badges") {
        Some(Json::Array(bs)) => {
            let mut i: usize = 0;
            while i < bs.len()
                invariant
                    at(*v, "/badges"@) == Some(Json::Array(*bs)),
                    i <= bs@.len(),
                    forall|j: int| 0 <= j < i ==> !badge_is_live(#[trigger] bs@[j]),
                decreases bs@.len() - i,
            {
                let live = "BADGE_STYLE_TYPE_LIVE_NOW".to_owned();
                match string_at(&bs[i], "/metadataBadgeRenderer/style") {
                    Ok(style) => {
                        if style == live {
                            assert(badge_is_live(bs@[i as int]));
                            assert(exists|k: int| 0 <= k < bs@.len() && badge_is_live(#[trigger] bs@[k]));
                            assert(at(*v, "/badges"@) == Some(Json::Array(*bs)));
                            assert(match at(*v, "/badges"@) { Some(Json::Array(b2)) => b2@ == bs@, _ => false });
                            assert(is_live(*v));
                            return true;
                        }
                    },
                    Err(_) => {},
                }
                i = i + 1;
            }
            false
        },
        _ => false,
    }
}

/// Reads a video entry of a search.
pub fn parse_video(video: &Json) -> (r: Result<Option<Video>, Parsing>)
    ensures
        match r {
            Ok(None) => video_entry(*video) == Ok::<Option<VideoView>, ParseFailure>(None),
            Ok(Some(v)) => video_entry(*video) == Ok::<Option<VideoView>, ParseFailure>(Some(v@)),
            Err(e) => video_entry(*video) == Err::<Option<VideoView>, ParseFailure>(e@),
        },
{
    let id = string_at(video, "/videoId")?;
    if video_is_live(video) {
        return Ok(None);
    }
    let text = match pointer(video, "/lengthText/simpleText") {
        Some(Json::Str(s)) => s,
        _ => return Ok(None),
    };
    let length = match colon_to_duration(text.as_str()) {
        Some(d) => d,
        None => return Err(Parsing::NumericFormat("/lengthText/simpleText".to_owned())),
    };
    let title = string_at(video, "/title/runs/0/text")?;
    let cid = string_at(video, "/ownerText/runs/0/navigationEndpoint/browseEndpoint/browseId")?;
    let name = string_at(video, "/ownerText/runs/0/text")?;
    Ok(
        Some(
            Video {
                id: VideoId::new(id.as_str()),
                length: length,
                title: title,
                uploader: Channel { id: ChannelId::new(cid.as_str()), name: name },
            },
        ),
    )
}

/// Reads one listed track of a playlist entry.
pub fn parse_track(c: &Json) -> (r: Result<PartialPlaylistVideo, Parsing>)
    ensures
        match r {
            Ok(t) => track_entry(*c) == Ok::<TrackView, ParseFailure>(t@),
            Err(e) => track_entry(*c) == Err::<TrackView, ParseFailure>(e@),
        },
{
    let id = string_at(c, "/childVideoRenderer/videoId")?;
    let text = string_at(c, "/childVideoRenderer/lengthText/simpleText")?;
    let length = match colon_to_duration(text.as_str()) {
        Some(d) => d,
        None => {
            return Err(
                Parsing::NumericFormat("/childVideoRenderer/lengthText/simpleText".to_owned()),
            )
        },
    };
    let title = string_at(c, "/childVideoRenderer/title/simpleText")?;
    Ok(PartialPlaylistVideo { id: VideoId::new(id.as_str()), length: length, title: title })
}

/// Reads the listed tracks of a playlist entry, in order.
pub fn parse_tracks(children: &Vec<Json>) -> (r: Result<Vec<PartialPlaylistVideo>, Parsing>)
    ensures
        match r {
            Ok(ts) => tracks_of(children@) == Ok::<Seq<TrackView>, ParseFailure>(
                ts@.map_values(|t: PartialPlaylistVideo| t@),
            ),
            Err(e) => tracks_of(children@) == Err::<Seq<TrackView>, ParseFailure>(e@),
        },
{
    let mut tracks: Vec<PartialPlaylistVideo> = Vec::new();
    let mut i: usize = 0;
    assert(children@.take(0) =~= Seq::<Json>::empty());
    assert(tracks@.map_values(|t: PartialPlaylistVideo| t@) =~= Seq::<TrackView>::empty());
    while i < children.len()
        invariant
            i <= children@.len(),
            tracks_of(children@.take(i as int)) == Ok::<Seq<TrackView>, ParseFailure>(
                tracks@.map_values(|t: PartialPlaylistVideo| t@),
            ),
        decreases children@.len() - i,
    {
        assert(children@.take(i + 1).drop_last() == children@.take(i as int));
        assert(children@.take(i + 1).last() == children@[i as int]);
        let track = match parse_track(&children[i]) {
            Ok(t) => t,
            Err(e) => {
                proof {
                    lemma_tracks_of_prefix_err(children@, i as int);
                }
                return Err(e);
            },
        };
        let ghost before = tracks@;
        tracks.push(track);
        assert(tracks@.map_values(|t: PartialPlaylistVideo| t@) =~= before.map_values(
            |t: PartialPlaylistVideo| t@,
        ).push(track@));
        i = i + 1;
    }
    assert(children@.take(children@.len() as int) == children@);
    Ok(tracks)
}

/// Reads a playlist entry of a search.
///
/// The summary keeps at most the first two listed tracks, and never more than
/// the playlist's stated count.
pub fn parse_playlist(playlist: &Json) -> (r: Result<PartialPlaylist, Parsing>)
    ensures
        match r {
            Ok(p) => playlist_entry(*playlist) == Ok::<PartialPlaylistView, ParseFailure>(p@),
            Err(e) => playlist_entry(*playlist) == Err::<PartialPlaylistView, ParseFailure>(e@),
        },
        r matches Ok(p) ==> p.tracks@.len() <= 2 && p.tracks@.len() <= p.tracks_total,
{
    let id = string_at(playlist, "/playlistId")?;
    let children = match pointer(playlist, "/videos") {
        Some(Json::Array(children)) => children,
        _ => return Err(Parsing::MissingElement("/videos".to_owned())),
    };
    let mut tracks = parse_tracks(children)?;
    let count = string_at(playlist, "/videoCountText/runs/0/text")?;
    let cb = count.as_str().as_bytes();
    let first: usize = if cb.len() > 0 && cb[0] == PLUS {
        1
    } else {
        0
    };
    assert(cb@.subrange(first as int, cb@.len() as int) == count_digits(cb@));
    let total: u32 = match crate::text::parse_decimal(cb, first, cb.len()) {
        Some(n) => {
            if n <= u32::MAX as u64 {
                n as u32
            } else {
                return Err(Parsing::NumericFormat("/videoCountText/runs/0/text".to_owned()));
            }
        },
        None => return Err(Parsing::NumericFormat("/videoCountText/runs/0/text".to_owned())),
    };
    let title = string_at(playlist, "/title/simpleText")?;
    let cid = string_at(
        playlist,
        "/shortBylineText/runs/0/navigationEndpoint/browseEndpoint/browseId",
    )?;
    let name = string_at(playlist, "/shortBylineText/runs/0/text")?;
    let bound: usize = if total < 2 {
        total as usize
    } else {
        2
    };
    let ghost all = tracks@;
    if tracks.len() > bound {
        tracks.truncate(bound);
    }
    assert(tracks@.map_values(|t: PartialPlaylistVideo| t@) =~= all.map_values(
        |t: PartialPlaylistVideo| t@,
    ).take(kept(all.len(), total)));
    Ok(
        PartialPlaylist {
            id: PlaylistId::new(id.as_str()),
            tracks: tracks,
            tracks_total: total,
            title: title,
            uploader: Channel { id: ChannelId::new(cid.as_str()), name: name },
        },
    )
}

/// Reads one entry of the results.
pub fn parse_entry(entry: &Json) -> (r: Result<Option<SearchItem>, Parsing>)
    ensures
        match r {
            Ok(None) => entry_item(*entry) == Ok::<Option<ItemView>, ParseFailure>(None),
            Ok(Some(it)) => entry_item(*entry) == Ok::<Option<ItemView>, ParseFailure>(Some(it@)),
            Err(e) => entry_item(*entry) == Err::<Option<ItemView>, ParseFailure>(e@),
        },
{
    if let Some(video) = pointer(entry, "/videoRenderer") {
        match parse_video(video)? {
            Some(v) => Ok(Some(SearchItem::Video(v))),
            None => Ok(None),
        }
    } else if let Some(playlist) = pointer(entry, "/playlistRenderer") {
        let p = parse_playlist(playlist)?;
        Ok(Some(SearchItem::Playlist(p)))
    } else {
        Ok(None)
    }
}

/// Parses a search page into its video and playlist items, in page order.
///
/// Live streams and videos without a length are left out, as are shelves
/// and entries of other kinds. A video or playlist entry that lacks a field
/// fails the whole search with the first failure.
pub fn search_information(html: &str) -> (r: Result<SearchResult, Parsing>)
    ensures
        outcome(r) == search_view(html@),
{
    let data = embedded_json(html, INITIAL_DATA)?;
    search_from_tree(&data)
}

/// Builds the search result from the initial data of a search page.
pub fn search_from_tree(data: &Json) -> (r: Result<SearchResult, Parsing>)
    ensures
        outcome(r) == search_of_tree(*data),
{
    let entries = match pointer(
        data,
        "/contents/twoColumnSearchResultsRenderer/primaryContents/sectionListRenderer/contents/0/itemSectionRenderer/contents",
    ) {
        Some(Json::Array(entries)) => entries,
        _ => {
            return Err(
                Parsing::MissingElement(
                    "/contents/twoColumnSearchResultsRenderer/primaryContents/sectionListRenderer/contents/0/itemSectionRenderer/contents".to_owned(),
                ),
            )
        },
    };
    let items = parse_entries(entries)?;
    Ok(SearchResult { items })
}

/// Reads the entries of the results in order.
pub fn parse_entries(entries: &Vec<Json>) -> (r: Result<Vec<SearchItem>, Parsing>)
    ensures
        match r {
            Ok(items) => search_items(entries@) == Ok::<Seq<ItemView>, ParseFailure>(
                items@.map_values(|x: SearchItem| x@),
            ),
            Err(e) => search_items(entries@) == Err::<Seq<ItemView>, ParseFailure>(e@),
        },
{
    let mut items: Vec<SearchItem> = Vec::new();
    let mut i: usize = 0;
    assert(entries@.take(0) =~= Seq::<Json>::empty());
    assert(items@.map_values(|x: SearchItem| x@) =~= Seq::<ItemView>::empty());
    while i < entries.len()
        invariant
            i <= entries@.len(),
            search_items(entries@.take(i as int)) == Ok::<Seq<ItemView>, ParseFailure>(
                items@.map_values(|x: SearchItem| x@),
            ),
        decreases entries@.len() - i,
    {
        assert(entries@.take(i + 1).drop_last() == entries@.take(i as int));
        assert(entries@.take(i + 1).last() == entries@[i as int]);
        let item = match parse_entry(&entries[i]) {
            Ok(item) => item,
            Err(e) => {
                proof {
                    lemma_search_items_err_extends(entries@, i + 1);
                }
                return Err(e);
            },
        };
        match item {
            Some(it) => {
                let ghost before = items@;
                items.push(it);
                assert(items@.map_values(|x: SearchItem| x@) =~= before.map_values(
                    |x: SearchItem| x@,
                ).push(it@));
            },
            None => {},
        }
        i = i + 1;
    }
    assert(entries@.take(entries@.len() as int) == entries@);
    Ok(items)
}

/// An entry whose video carries a live badge adds nothing to a search,
/// wherever it stands among the entries, even when the video has every
/// other field.
pub proof fn lemma_live_entry_excluded(before: Seq<Json>, entry: Json, after: Seq<Json>)
    requires
        at(entry, "/videoRenderer"@) is Some,
        is_live(at(entry, "/videoRenderer"@)->0),
        str_at(at(entry, "/videoRenderer"@)->0, "/videoId"@) is Some,
    ensures
        search_items(before + seq![entry] + after) == search_items(before + after),
    decreases after.len(),
{
    assert(entry_item(entry) == Ok::<Option<ItemView>, ParseFailure>(None));
    if after.len() == 0 {
        assert(before + seq![entry] + after == before.push(entry));
        assert(before.push(entry).drop_last() == before);
        assert(before + after == before);
    } else {
        lemma_live_entry_excluded(before, entry, after.drop_last());
        assert((before + seq![entry] + after).drop_last() == before + seq![entry]
            + after.drop_last());
        assert((before + after).drop_last() == before + after.drop_last());
    }
}

/// A search whose entries are two complete video or playlist entries, with a
/// live video entry anywhere among them, yields exactly the items of the two,
/// in page order; when the first is a video and the second a playlist, or
/// the other way round, that video is the only one among the results.
pub proof fn lemma_two_entries_and_live(before: Seq<Json>, live: Json, after: Seq<Json>)
    requires
        at(live, "/videoRenderer"@) is Some,
        is_live(at(live, "/videoRenderer"@)->0),
        str_at(at(live, "/videoRenderer"@)->0, "/videoId"@) is Some,
        (before + after).len() == 2,
        entry_item((before + after)[0]) matches Ok(Some(_)),
        entry_item((before + after)[1]) matches Ok(Some(_)),
    ensures
        search_items(before + seq![live] + after) == Ok::<Seq<ItemView>, ParseFailure>(
            seq![
                entry_item((before + after)[0])->Ok_0->0,
                entry_item((before + after)[1])->Ok_0->0,
            ],
        ),
        entry_item((before + after)[0])->Ok_0->0 matches ItemView::Video(v)
            ==> entry_item((before + after)[1])->Ok_0->0 is Playlist ==> videos_of(
            search_items(before + seq![live] + after)->Ok_0,
        ) == seq![v],
        entry_item((before + after)[1])->Ok_0->0 matches ItemView::Video(v)
            ==> entry_item((before + after)[0])->Ok_0->0 is Playlist ==> videos_of(
            search_items(before + seq![live] + after)->Ok_0,
        ) == seq![v],
{
    let rest = before + after;
    lemma_live_entry_excluded(before, live, after);
    lemma_search_two_entries(rest);
    lemma_videos_of_two(entry_item(rest[0])->Ok_0->0, entry_item(rest[1])->Ok_0->0);
}

proof fn lemma_search_items_push(es: Seq<Json>, e: Json)
    ensures
        search_items(es.push(e)) == (match search_items(es) {
            Err(x) => Err(x),
            Ok(items) => match entry_item(e) {
                Err(x) => Err(x),
                Ok(None) => Ok(items),
                Ok(Some(it)) => Ok(items.push(it)),
            },
        }),
{
    assert(es.push(e).drop_last() == es);
}

proof fn lemma_search_two_entries(rest: Seq<Json>)
    requires
        rest.len() == 2,
        entry_item(rest[0]) matches Ok(Some(_)),
        entry_item(rest[1]) matches Ok(Some(_)),
    ensures
        search_items(rest) == Ok::<Seq<ItemView>, ParseFailure>(
            seq![entry_item(rest[0])->Ok_0->0, entry_item(rest[1])->Ok_0->0],
        ),
{
    let x = entry_item(rest[0])->Ok_0->0;
    let y = entry_item(rest[1])->Ok_0->0;
    let empty = Seq::<Json>::empty();
    assert(search_items(empty) == Ok::<Seq<ItemView>, ParseFailure>(Seq::<ItemView>::empty()));
    lemma_search_items_push(empty, rest[0]);
    assert(empty.push(rest[0]) == seq![rest[0]]);
    assert(Seq::<ItemView>::empty().push(x) == seq![x]);
    lemma_search_items_push(seq![rest[0]], rest[1]);
    assert(seq![rest[0]].push(rest[1]) == rest);
    assert(seq![x].push(y) == seq![x, y]);
}

proof fn lemma_videos_of_two(x: ItemView, y: ItemView)
    ensures
        x matches ItemView::Video(v) ==> y is Playlist ==> videos_of(seq![x, y]) == seq![v],
        y matches ItemView::Video(v) ==> x is Playlist ==> videos_of(seq![x, y]) == seq![v],
{
    assert(seq![x, y].drop_last() == seq![x]);
    assert(seq![x].drop_last() == Seq::<ItemView>::empty());
    assert(videos_of(Seq::<ItemView>::empty()) == Seq::<VideoView>::empty());
    assert(seq![x].last() == x);
    assert(seq![x, y].last() == y);
    if let ItemView::Video(v) = x {
        assert(videos_of(seq![x]) == Seq::<VideoView>::empty().push(v));
        assert(Seq::<VideoView>::empty().push(v) == seq![v]);
    }
    if let ItemView::Video(v) = y {
        if x is Playlist {
            assert(videos_of(seq![x]) == Seq::<VideoView>::empty());
            assert(Seq::<VideoView>::empty().push(v) == seq![v]);
        }
    }
}

/// Entry `j` of `entries` is a video entry without a live badge whose id is
/// `id`.
pub open spec fn plain_video_entry(entries: Seq<Json>, j: int, id: Seq<char>) -> bool {
    0 <= j < entries.len() && at(entries[j], "/videoRenderer"@) is Some && !is_live(
        at(entries[j], "/videoRenderer"@)->0,
    ) && str_at(at(entries[j], "/videoRenderer"@)->0, "/videoId"@) == Some(id)
}

proof fn lemma_video_item_source(e: Json)
    ensures
        entry_item(e) matches Ok(Some(ItemView::Video(v))) ==> plain_video_entry(seq![e], 0, v.id),
{
    if entry_item(e) matches Ok(Some(ItemView::Video(v))) {
        assert(seq![e][0] == e);
    }
}

/// Every video that a search yields comes from a video entry without a live
/// badge that carries the video's id.
pub proof fn lemma_search_video_source(entries: Seq<Json>)
    ensures
        search_items(entries) is Ok ==> forall|k: int|
            0 <= k < search_items(entries)->Ok_0.len() ==> (
            #[trigger] search_items(entries)->Ok_0[k] matches ItemView::Video(v) ==> exists|j: int|
                plain_video_entry(entries, j, v.id)),
    decreases entries.len(),
{
    if entries.len() > 0 && search_items(entries) is Ok {
        let es = entries.drop_last();
        let e = entries.last();
        lemma_search_video_source(es);
        lemma_video_item_source(e);
        assert(es.push(e) == entries);
        lemma_search_items_push(es, e);
        let items = search_items(entries)->Ok_0;
        let prev = search_items(es)->Ok_0;
        assert forall|k: int| 0 <= k < items.len() implies (#[trigger] items[k] matches ItemView::Video(
            v,
        ) ==> exists|j: int| plain_video_entry(entries, j, v.id)) by {
            if let ItemView::Video(v) = items[k] {
                if k < prev.len() {
                    assert(items[k] == prev[k]);
                    let j = choose|j: int| plain_video_entry(es, j, v.id);
                    assert(entries[j] == es[j]);
                    assert(plain_video_entry(entries, j, v.id));
                } else {
                    assert(seq![e][0] == entries[entries.len() - 1]);
                    assert(plain_video_entry(entries, entries.len() - 1, v.id));
                }
            }
        }
    }
}

/// Every video among `items` stands among them as an item.
proof fn lemma_videos_of_source(items: Seq<ItemView>)
    ensures
        forall|m: int|
            0 <= m < videos_of(items).len() ==> exists|k: int|
                0 <= k < items.len() && items[k] == ItemView::Video(#[trigger] videos_of(items)[m]),
    decreases items.len(),
{
    if items.len() > 0 {
        let prev = items.drop_last();
        lemma_videos_of_source(prev);
        assert forall|m: int| 0 <= m < videos_of(items).len() implies exists|k: int|
            0 <= k < items.len() && items[k] == ItemView::Video(
                #[trigger] videos_of(items)[m],
            ) by {
            if m < videos_of(prev).len() {
                let k = choose|k: int|
                    0 <= k < prev.len() && prev[k] == ItemView::Video(videos_of(prev)[m]);
                assert(items[k] == prev[k]);
            } else {
                assert(items[items.len() - 1] == items.last());
            }
        }
    }
}

/// A video entry with a live badge yields no video: when no other video
/// entry carries its id, no video that the search yields has that id.
pub proof fn lemma_live_id_not_among_videos(entries: Seq<Json>, l: int)
    requires
        0 <= l < entries.len(),
        at(entries[l], "/videoRenderer"@) is Some,
        is_live(at(entries[l], "/videoRenderer"@)->0),
        forall|j: int|
            0 <= j < entries.len() && j != l && at(entries[j], "/videoRenderer"@) is Some ==> str_at(
                at(entries[j], "/videoRenderer"@)->0,
                "/videoId"@,
            ) != str_at(at(entries[l], "/videoRenderer"@)->0, "/videoId"@),
    ensures
        search_items(entries) is Ok ==> forall|m: int|
            0 <= m < videos_of(search_items(entries)->Ok_0).len() ==> Some(
                (#[trigger] videos_of(search_items(entries)->Ok_0)[m]).id,
            ) != str_at(at(entries[l], "/videoRenderer"@)->0, "/videoId"@),
{
    if search_items(entries) is Ok {
        let items = search_items(entries)->Ok_0;
        lemma_search_video_source(entries);
        lemma_videos_of_source(items);
        assert forall|m: int| 0 <= m < videos_of(items).len() implies Some(
            (#[trigger] videos_of(items)[m]).id,
        ) != str_at(at(entries[l], "/videoRenderer"@)->0, "/videoId"@) by {
            let v = videos_of(items)[m];
            let k = choose|k: int| 0 <= k < items.len() && items[k] == ItemView::Video(v);
            assert(items[k] matches ItemView::Video(w) && w == v);
            let j = choose|j: int| plain_video_entry(entries, j, v.id);
        }
    }
}

/// A playlist summary keeps at most two tracks, and no more than the count
/// of tracks that the playlist states.
pub open spec fn summary_bounded(it: ItemView) -> bool {
    match it {
        ItemView::Playlist(p) => p.tracks.len() <= 2 && p.tracks.len() <= p.tracks_total,
        ItemView::Video(_) => true,
    }
}

/// Every playlist entry that parses is a summary of at most two tracks,
/// and of no more than its stated count.
pub proof fn lemma_playlist_tracks_bounded(p: Json)
    ensures
        playlist_entry(p) is Ok ==> summary_bounded(ItemView::Playlist(playlist_entry(p)->Ok_0)),
{
}

/// Every playlist item of a search is a summary of at most two tracks, and
/// of no more than its stated count.
pub proof fn lemma_search_playlists_bounded(entries: Seq<Json>)
    ensures
        search_items(entries) is Ok ==> forall|i: int|
            0 <= i < search_items(entries)->Ok_0.len() ==> summary_bounded(
                #[trigger] search_items(entries)->Ok_0[i],
            ),
    decreases entries.len(),
{
    if entries.len() > 0 {
        lemma_search_playlists_bounded(entries.drop_last());
        let e = entries.last();
        if let Some(p) = at(e, "/videoRenderer"@) {
        } else if let Some(p) = at(e, "/playlistRenderer"@) {
            lemma_playlist_tracks_bounded(p);
        }
    }
}

/// Searching one page twice gives equal results.
pub proof fn lemma_search_deterministic(
    html: Seq<char>,
    first: Result<SearchResult, Parsing>,
    second: Result<SearchResult, Parsing>,
)
    requires
        outcome(first) == search_view(html),
        outcome(second) == search_view(html),
    ensures
        outcome(first) == outcome(second),
{
}

proof fn lemma_search_items_err_extends(entries: Seq<Json>, k: int)
    requires
        0 <= k <= entries.len(),
    ensures
        search_items(entries.take(k)) is Err ==> search_items(entries) == search_items(
            entries.take(k),
        ),
    decreases entries.len() - k,
{
    if k < entries.len() {
        lemma_search_items_err_extends(entries, k + 1);
        assert(entries.take(k + 1).drop_last() == entries.take(k));
    } else {
        assert(entries.take(k) == entries);
    }
}

proof fn lemma_tracks_of_prefix_err(children: Seq<Json>, i: int)
    requires
        0 <= i < children.len(),
        tracks_of(children.take(i)) is Ok,
        track_entry(children[i]) is Err,
    ensures
        tracks_of(children) == Err::<Seq<TrackView>, ParseFailure>(track_entry(children[i])->Err_0),
{
    lemma_tracks_of_err_extends(children, i + 1);
    assert(children.take(i + 1).drop_last() == children.take(i));
}

proof fn lemma_tracks_of_err_extends(children: Seq<Json>, k: int)
    requires
        0 <= k <= children.len(),
    ensures
        tracks_of(children.take(k)) is Err ==> tracks_of(children) == tracks_of(children.take(k)),
    decreases children.len() - k,
{
    if k < children.len() {
        lemma_tracks_of_err_extends(children, k + 1);
        assert(children.take(k + 1).drop_last() == children.take(k));
    } else {
        assert(children.take(k) == children);
    }
}

} // verus!
