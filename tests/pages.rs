use std::time::Duration;

use youtube_metadata::error::Parsing;
use youtube_metadata::extract::{embedded_json, INITIAL_DATA};
use youtube_metadata::json::{pointer, string_at, Json};
use youtube_metadata::parsing::search::{search_from_tree, search_information};
use youtube_metadata::parsing::video::parse_video;
use youtube_metadata::parsing::video_information::parse_video_information;

fn page(data: &str, player: &str) -> String {
    format!(
        "<html><head><script>var ytInitialData = {};</script><script>var ytInitialPlayerResponse = {};</script></head></html>",
        data, player
    )
}

fn watch_data(id: &str, title: &str, owner: &str, channel: &str) -> String {
    format!(
        r#"{{"currentVideoEndpoint":{{"watchEndpoint":{{"videoId":"{}"}}}},"contents":{{"twoColumnWatchNextResults":{{"results":{{"results":{{"contents":[{{"videoPrimaryInfoRenderer":{{"title":{{"runs":[{{"text":"{}"}}]}}}}}},{{"videoSecondaryInfoRenderer":{{"owner":{{"videoOwnerRenderer":{{"title":{{"runs":[{{"text":"{}","navigationEndpoint":{{"browseEndpoint":{{"browseId":"{}"}}}}}}]}}}}}}}}}}]}}}}}}}}}}"#,
        id, title, owner, channel
    )
}

fn player(ms: &str) -> String {
    format!(r#"{{"streamingData":{{"formats":[{{"approxDurationMs":"{}"}}]}}}}"#, ms)
}

fn video_entry(id: &str, length: Option<&str>, live: bool) -> String {
    let length = match length {
        Some(l) => format!(r#""lengthText":{{"simpleText":"{}"}},"#, l),
        None => String::new(),
    };
    let badges = if live {
        r#""badges":[{"metadataBadgeRenderer":{"style":"BADGE_STYLE_TYPE_LIVE_NOW","label":"LIVE"}}],"#
    } else {
        ""
    };
    format!(
        r#"{{"videoRenderer":{{"videoId":"{}",{}{}"title":{{"runs":[{{"text":"Title {}"}}]}},"ownerText":{{"runs":[{{"text":"Owner","navigationEndpoint":{{"browseEndpoint":{{"browseId":"UCowner"}}}}}}]}}}}}}"#,
        id, length, badges, id
    )
}

fn child(id: &str, length: &str) -> String {
    format!(
        r#"{{"childVideoRenderer":{{"videoId":"{}","lengthText":{{"simpleText":"{}"}},"title":{{"simpleText":"Track {}"}}}}}}"#,
        id, length, id
    )
}

fn playlist_entry(children: &[String], count: &str) -> String {
    format!(
        r#"{{"playlistRenderer":{{"playlistId":"PLabc","videos":[{}],"videoCountText":{{"runs":[{{"text":"{}"}}]}},"title":{{"simpleText":"Mix"}},"shortBylineText":{{"runs":[{{"text":"Curator","navigationEndpoint":{{"browseEndpoint":{{"browseId":"UCcurator"}}}}}}]}}}}}}"#,
        children.join(","),
        count
    )
}

fn search_page(entries: &[String]) -> String {
    let data = format!(
        r#"{{"contents":{{"twoColumnSearchResultsRenderer":{{"primaryContents":{{"sectionListRenderer":{{"contents":[{{"itemSectionRenderer":{{"contents":[{}]}}}}]}}}}}}}}}}"#,
        entries.join(",")
    );
    page(&data, "{}")
}

#[test]
fn watch_page_fixture_yields_video() {
    let html = page(
        &watch_data(
            "dQw4w9WgXcQ",
            "Rick Astley - Never Gonna Give You Up (Video)",
            "RickAstleyVEVO",
            "UCuAXFkgsw1L7xaCfnd5JJOw",
        ),
        &player("212091"),
    );
    let video = parse_video(&html).unwrap();
    assert_eq!(video.id.as_str(), "dQw4w9WgXcQ");
    assert_eq!(video.title, "Rick Astley - Never Gonna Give You Up (Video)");
    assert_eq!(video.uploader.name, "RickAstleyVEVO");
    assert_eq!(video.uploader.id.as_str(), "UCuAXFkgsw1L7xaCfnd5JJOw");
    assert_eq!(video.length, Duration::from_millis(212091));
}

#[test]
fn invalid_video_page_is_err() {
    let html = page(
        r#"{"contents":{"twoColumnWatchNextResults":{"results":{"results":{"contents":[]}}}}}"#,
        r#"{"playabilityStatus":{"status":"ERROR","reason":"Video unavailable"}}"#,
    );
    match parse_video(&html) {
        Err(Parsing::MissingElement(p)) => {
            assert_eq!(p, "/currentVideoEndpoint/watchEndpoint/videoId")
        }
        other => panic!("unexpected {:?}", other),
    }
}

#[test]
fn watch_page_without_blob_is_extraction_failure() {
    assert_eq!(parse_video("<html></html>").unwrap_err(), Parsing::ExtractionFailure);
    let html = "<script>var ytInitialData = {not json};</script>";
    assert_eq!(parse_video(html).unwrap_err(), Parsing::ExtractionFailure);
}

#[test]
fn watch_page_with_bad_duration_is_numeric_error() {
    let html = page(&watch_data("id", "t", "o", "c"), &player("12x"));
    assert_eq!(
        parse_video(&html).unwrap_err(),
        Parsing::NumericFormat("/streamingData/formats/0/approxDurationMs".to_string())
    );
}

#[test]
fn watch_page_missing_title_names_path() {
    let data = r#"{"currentVideoEndpoint":{"watchEndpoint":{"videoId":"x"}}}"#;
    let html = page(data, &player("1000"));
    match parse_video(&html) {
        Err(Parsing::MissingElement(p)) => assert!(p.contains("videoPrimaryInfoRenderer")),
        other => panic!("unexpected {:?}", other),
    }
}

#[test]
fn search_fixture_drops_live_entry() {
    let html = search_page(&[
        video_entry("ordinary01", Some("3:33"), false),
        video_entry("livestream", Some("1:00"), true),
        playlist_entry(&[child("t1", "1:00"), child("t2", "2:00")], "12"),
    ]);
    let result = search_information(&html).unwrap();
    assert_eq!(result.items.len(), 2);
    assert_eq!(result.items[0].title(), "Title ordinary01");
    assert_eq!(result.items[1].title(), "Mix");
    let videos = result.clone().videos();
    assert_eq!(videos.len(), 1);
    assert_eq!(videos[0].id.as_str(), "ordinary01");
    assert_eq!(videos[0].length, Duration::from_secs(213));
    let playlists = result.playlists();
    assert_eq!(playlists.len(), 1);
    assert_eq!(playlists[0].tracks_total, 12);
    assert_eq!(playlists[0].tracks.len(), 2);
    assert_eq!(playlists[0].uploader.name, "Curator");
    assert_eq!(playlists[0].id.as_str(), "PLabc");
}

#[test]
fn live_badge_excludes_complete_video() {
    let html = search_page(&[video_entry("livestream", Some("4:00"), true)]);
    let result = search_information(&html).unwrap();
    assert!(result.videos().is_empty());
}

#[test]
fn video_without_length_is_skipped() {
    let html = search_page(&[video_entry("nolength01", None, false)]);
    assert!(search_information(&html).unwrap().items.is_empty());
}

#[test]
fn shelf_entries_are_ignored() {
    let html = search_page(&[
        r#"{"shelfRenderer":{"title":{"simpleText":"Shelf"}}}"#.to_string(),
        r#"{"radioRenderer":{}}"#.to_string(),
        video_entry("ordinary01", Some("10"), false),
    ]);
    let result = search_information(&html).unwrap();
    assert_eq!(result.items.len(), 1);
    assert_eq!(result.videos()[0].length, Duration::from_secs(10));
}

#[test]
fn malformed_video_entry_fails_search() {
    let entry = r#"{"videoRenderer":{"videoId":"x","lengthText":{"simpleText":"1:00"}}}"#;
    let html = search_page(&[entry.to_string()]);
    assert_eq!(
        search_information(&html).unwrap_err(),
        Parsing::MissingElement("/title/runs/0/text".to_string())
    );
    let no_id = r#"{"videoRenderer":{"title":{}}}"#;
    let html = search_page(&[no_id.to_string()]);
    assert_eq!(
        search_information(&html).unwrap_err(),
        Parsing::MissingElement("/videoId".to_string())
    );
}

#[test]
fn malformed_length_fails_search() {
    let html = search_page(&[video_entry("x", Some("1:xx"), false)]);
    assert_eq!(
        search_information(&html).unwrap_err(),
        Parsing::NumericFormat("/lengthText/simpleText".to_string())
    );
}

#[test]
fn playlist_keeps_two_tracks() {
    let html = search_page(&[playlist_entry(
        &[child("a", "1:00"), child("b", "2:00"), child("c", "3:00")],
        "40",
    )]);
    let p = &search_information(&html).unwrap().playlists()[0];
    assert_eq!(p.tracks.len(), 2);
    assert_eq!(p.tracks[0].id.as_str(), "a");
    assert_eq!(p.tracks[1].title, "Track b");
    assert_eq!(p.tracks[1].length, Duration::from_secs(120));
    assert_eq!(p.tracks_total, 40);
}

#[test]
fn playlist_tracks_never_exceed_count() {
    let html = search_page(&[playlist_entry(&[child("a", "1:00"), child("b", "2:00")], "1")]);
    let p = &search_information(&html).unwrap().playlists()[0];
    assert_eq!(p.tracks_total, 1);
    assert_eq!(p.tracks.len(), 1);
}

#[test]
fn playlist_count_accepts_leading_plus() {
    let html = search_page(&[playlist_entry(&[child("a", "1:00")], "+5")]);
    let p = &search_information(&html).unwrap().playlists()[0];
    assert_eq!(p.tracks_total, 5);
    for bad in ["+", "++5", "-5", " 5", "4294967296"] {
        let html = search_page(&[playlist_entry(&[child("a", "1:00")], bad)]);
        assert_eq!(
            search_information(&html).unwrap_err(),
            Parsing::NumericFormat("/videoCountText/runs/0/text".to_string())
        );
    }
    let html = search_page(&[playlist_entry(&[child("a", "1:00")], "4294967295")]);
    assert_eq!(search_information(&html).unwrap().playlists()[0].tracks_total, u32::MAX);
}

#[test]
fn playlist_count_must_be_numeric() {
    let html = search_page(&[playlist_entry(&[child("a", "1:00")], "many")]);
    assert_eq!(
        search_information(&html).unwrap_err(),
        Parsing::NumericFormat("/videoCountText/runs/0/text".to_string())
    );
}

#[test]
fn playlist_bad_track_fails_whole_entry() {
    let bad = r#"{"childVideoRenderer":{"videoId":"z"}}"#.to_string();
    let html = search_page(&[playlist_entry(&[child("a", "1:00"), bad], "2")]);
    assert_eq!(
        search_information(&html).unwrap_err(),
        Parsing::MissingElement("/childVideoRenderer/lengthText/simpleText".to_string())
    );
}

#[test]
fn playlist_without_videos_is_missing_element() {
    let entry = r#"{"playlistRenderer":{"playlistId":"PL"}}"#;
    let html = search_page(&[entry.to_string()]);
    assert_eq!(
        search_information(&html).unwrap_err(),
        Parsing::MissingElement("/videos".to_string())
    );
}

#[test]
fn search_without_results_path_is_missing_element() {
    let html = page(r#"{"contents":{}}"#, "{}");
    match search_information(&html) {
        Err(Parsing::MissingElement(p)) => assert!(p.ends_with("itemSectionRenderer/contents")),
        other => panic!("unexpected {:?}", other),
    }
    assert_eq!(search_information("no blob here").unwrap_err(), Parsing::ExtractionFailure);
}

#[test]
fn parsing_twice_gives_equal_results() {
    let html = search_page(&[
        video_entry("ordinary01", Some("1:02:03"), false),
        playlist_entry(&[child("a", "0:05")], "3"),
    ]);
    assert_eq!(search_information(&html), search_information(&html));
    let watch = page(&watch_data("v", "t", "o", "c"), &player("5"));
    assert_eq!(parse_video(&watch), parse_video(&watch));
}

#[test]
fn search_from_tree_reads_parsed_data() {
    let html = r#"var ytInitialData = {"contents":{"twoColumnSearchResultsRenderer":{"primaryContents":{"sectionListRenderer":{"contents":[{"itemSectionRenderer":{"contents":[]}}]}}}}};</script>"#;
    let data = embedded_json(html, INITIAL_DATA).unwrap();
    assert!(search_from_tree(&data).unwrap().items.is_empty());
    let empty = Json::Object(vec![]);
    assert_eq!(
        search_from_tree(&empty).unwrap_err(),
        Parsing::MissingElement(
            "/contents/twoColumnSearchResultsRenderer/primaryContents/sectionListRenderer/contents/0/itemSectionRenderer/contents".to_string()
        )
    );
}

#[test]
fn embedded_json_takes_first_blob() {
    let html = "x var ytInitialData = {\"a\":1};</script> var ytInitialData = {\"a\":2};</script>";
    let data = embedded_json(html, INITIAL_DATA).unwrap();
    assert_eq!(pointer(&data, "/a"), Some(&Json::Number("1".to_string())));
    let unterminated = "var ytInitialData = {\"a\":1}";
    assert_eq!(embedded_json(unterminated, INITIAL_DATA).unwrap_err(), Parsing::ExtractionFailure);
}

#[test]
fn json_navigation_by_path() {
    let html = r#"var ytInitialData = {"a":{"b":[10,"x",{"c":"deep"}]},"s":"top"};</script>"#;
    let v = embedded_json(html, INITIAL_DATA).unwrap();
    assert_eq!(string_at(&v, "/a/b/2/c").unwrap(), "deep");
    assert_eq!(string_at(&v, "/s").unwrap(), "top");
    assert_eq!(pointer(&v, "/a/b/1"), Some(&Json::Str("x".to_string())));
    assert_eq!(pointer(&v, "/a/b/3"), None);
    assert_eq!(pointer(&v, "/a/x"), None);
    assert_eq!(pointer(&v, "/s/0"), None);
    assert_eq!(pointer(&v, "a"), None);
    assert_eq!(pointer(&v, "/a/b/01"), None);
    assert_eq!(pointer(&v, "/a/b/+1"), None);
    assert!(pointer(&v, "").is_some());
    assert_eq!(
        string_at(&v, "/a/b/0").unwrap_err(),
        Parsing::MissingElement("/a/b/0".to_string())
    );
    let broken = "var ytInitialData = [1,;</script>";
    assert_eq!(embedded_json(broken, INITIAL_DATA).unwrap_err(), Parsing::ExtractionFailure);
}

fn markup(canonical: bool, thumbnail: bool) -> String {
    let mut s = String::from("<html><head>");
    if canonical {
        s.push_str(r#"<link rel="canonical" href="https://www.youtube.com/watch?v=dQw4w9WgXcQ">"#);
    }
    s.push_str(r#"<meta property="og:title" content="Rick Astley - Never Gonna Give You Up (Video)">"#);
    if thumbnail {
        s.push_str(r#"<meta property="og:image" content="https://i.ytimg.com/vi/dQw4w9WgXcQ/maxresdefault.jpg">"#);
    }
    s.push_str(r#"<meta itemprop="videoId" content="dQw4w9WgXcQ">"#);
    s.push_str(r#"</head><body><span itemprop="author"><link itemprop="name" content="RickAstleyVEVO"></span></body></html>"#);
    s
}

#[test]
fn markup_page_yields_information() {
    let info = parse_video_information(&markup(true, true)).unwrap();
    assert_eq!(info.url, "https://www.youtube.com/watch?v=dQw4w9WgXcQ");
    assert_eq!(info.title, "Rick Astley - Never Gonna Give You Up (Video)");
    assert_eq!(info.id, "dQw4w9WgXcQ");
    assert_eq!(info.uploader, "RickAstleyVEVO");
    assert_eq!(
        info.thumbnail,
        Some("https://i.ytimg.com/vi/dQw4w9WgXcQ/maxresdefault.jpg".to_string())
    );
}

#[test]
fn markup_without_thumbnail_still_parses() {
    let info = parse_video_information(&markup(true, false)).unwrap();
    assert_eq!(info.thumbnail, None);
}

#[test]
fn markup_without_canonical_link_names_selector() {
    assert_eq!(
        parse_video_information(&markup(false, true)).unwrap_err(),
        Parsing::MissingElement(r#"link[rel="canonical"]"#.to_string())
    );
    assert_eq!(
        parse_video_information("").unwrap_err(),
        Parsing::MissingElement(r#"link[rel="canonical"]"#.to_string())
    );
}

#[test]
fn markup_without_attribute_names_it() {
    let html = r#"<html><head><link rel="canonical"></head></html>"#;
    assert_eq!(
        parse_video_information(html).unwrap_err(),
        Parsing::MissingAttribute("href".to_string())
    );
}
