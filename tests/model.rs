use std::time::Duration;

use youtube_metadata::duration::{colon_to_duration, ms_to_duration};
use youtube_metadata::error::Parsing;
use youtube_metadata::model::id::{ChannelId, PlaylistId, VideoId};
use youtube_metadata::model::search::{
    PartialPlaylist, PartialPlaylistVideo, SearchItem, SearchResult,
};
use youtube_metadata::model::thumbnail::{ImageFormat, Resolution};
use youtube_metadata::model::{Channel, Playlist, Video};

fn video(id: &str, secs: u64) -> Video {
    Video {
        id: VideoId::new(id),
        length: Duration::from_secs(secs),
        title: format!("Video {}", id),
        uploader: Channel { id: ChannelId::new("UCx"), name: "Uploader".to_string() },
    }
}

#[test]
fn colon_notation_durations() {
    assert_eq!(colon_to_duration("3:33"), Some(Duration::from_secs(213)));
    assert_eq!(colon_to_duration("1:00:00"), Some(Duration::from_secs(3600)));
    assert_eq!(colon_to_duration("42"), Some(Duration::from_secs(42)));
    assert_eq!(colon_to_duration("0:00"), Some(Duration::ZERO));
}

#[test]
fn colon_notation_rejects_malformed() {
    assert_eq!(colon_to_duration(""), None);
    assert_eq!(colon_to_duration("1:2:3:4"), None);
    assert_eq!(colon_to_duration("a:33"), None);
    assert_eq!(colon_to_duration("3:"), None);
    assert_eq!(colon_to_duration(":3"), None);
    assert_eq!(colon_to_duration("99999999999999999999"), None);
}

#[test]
fn millisecond_notation() {
    assert_eq!(ms_to_duration("212091"), Some(Duration::from_millis(212091)));
    assert_eq!(ms_to_duration("18446744073709551615"), Some(Duration::from_millis(u64::MAX)));
    assert_eq!(ms_to_duration("18446744073709551616"), None);
    assert_eq!(ms_to_duration("12.5"), None);
    assert_eq!(ms_to_duration(""), None);
}

#[test]
fn identifier_urls() {
    assert_eq!(ChannelId::new("UCabc").url(), "https://www.youtube.com/channel/UCabc");
    assert_eq!(PlaylistId::new("PLabc").url(), "https://www.youtube.com/playlist?list=PLabc");
    assert_eq!(VideoId::new("dQw4w9WgXcQ").url(), "https://youtu.be/dQw4w9WgXcQ");
    assert_eq!(VideoId::new("abc").as_str(), "abc");
    assert_eq!(PlaylistId::new("p").into_string(), "p");
    assert_eq!(ChannelId::new("c").as_str(), "c");
}

#[test]
fn thumbnail_urls() {
    let id = VideoId::new("dQw4w9WgXcQ");
    assert_eq!(
        id.thumbnail(ImageFormat::JPEG, Resolution::Maxres),
        "https://i.ytimg.com/vi/dQw4w9WgXcQ/maxresdefault.jpg"
    );
    assert_eq!(
        id.thumbnail(ImageFormat::WebP, Resolution::Default),
        "https://i.ytimg.com/vi_webp/dQw4w9WgXcQ/default.webp"
    );
    assert_eq!(
        id.thumbnail(ImageFormat::JPEG, Resolution::High),
        "https://i.ytimg.com/vi/dQw4w9WgXcQ/hqdefault.jpg"
    );
    assert_eq!(Resolution::Medium.as_str(), "mqdefault");
    assert_eq!(Resolution::Standard.as_str(), "sddefault");
}

#[test]
fn result_filters_keep_order() {
    let playlist = PartialPlaylist::from_playlist(Playlist {
        id: PlaylistId::new("PL"),
        tracks: vec![video("a", 1)],
        title: "List".to_string(),
        uploader: Channel { id: ChannelId::new("UCy"), name: "Other".to_string() },
    });
    let result = SearchResult {
        items: vec![
            SearchItem::Video(video("first", 1)),
            SearchItem::Playlist(playlist),
            SearchItem::Video(video("second", 2)),
        ],
    };
    assert_eq!(result.items[1].title(), "List");
    assert_eq!(result.items[1].uploader().name, "Other");
    assert_eq!(result.items[0].uploader().name, "Uploader");
    let ids: Vec<String> = result.clone().videos().into_iter().map(|v| v.id.into_string()).collect();
    assert_eq!(ids, vec!["first".to_string(), "second".to_string()]);
    assert_eq!(result.playlists().len(), 1);
}

#[test]
fn partial_playlist_from_playlist() {
    let p = Playlist {
        id: PlaylistId::new("PL"),
        tracks: vec![video("a", 1), video("b", 2), video("c", 3)],
        title: "Three".to_string(),
        uploader: Channel { id: ChannelId::new("UC"), name: "U".to_string() },
    };
    let partial = PartialPlaylist::from_playlist(p);
    assert_eq!(partial.tracks_total, 3);
    assert_eq!(partial.tracks.len(), 2);
    assert_eq!(partial.tracks[1].id.as_str(), "b");
    assert_eq!(partial.tracks[1].length, Duration::from_secs(2));
    let converted = PartialPlaylist::from(Playlist {
        id: PlaylistId::new("PL1"),
        tracks: vec![video("x", 4)],
        title: "One".to_string(),
        uploader: Channel { id: ChannelId::new("UC"), name: "U".to_string() },
    });
    assert_eq!(converted.tracks_total, 1);
    assert_eq!(converted.tracks.len(), 1);
    assert_eq!(converted.tracks[0].title, "Video x");
    let short = PartialPlaylistVideo::from(video("z", 9));
    assert_eq!(short.title, "Video z");
}

#[test]
fn parse_errors_describe_themselves() {
    assert_eq!(Parsing::MissingElement("/a".to_string()).describe(), "missing element: /a");
    assert_eq!(Parsing::MissingAttribute("href".to_string()).describe(), "missing attribute: href");
    assert_eq!(Parsing::NumericFormat("/n".to_string()).describe(), "not a number: /n");
    assert_eq!(Parsing::ExtractionFailure.describe(), "embedded data not found");
}
