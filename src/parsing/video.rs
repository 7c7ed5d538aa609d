//! Watch pages, read from their embedded JSON.
use vstd::prelude::*;
use vstd::utf8::encode_utf8;

use crate::duration::{duration_of_millis, ms_to_duration};
use crate::error::{outcome, ParseFailure, Parsing};
use crate::extract::{embedded_json, embedded_value, INITIAL_DATA, INITIAL_PLAYER_RESPONSE};
use crate::json::{need, string_at, Json};
use crate::model::id::{ChannelId, VideoId};
use crate::model::{Channel, ChannelView, Video, VideoView};
use crate::text::decimal_u64;

verus! {

pub open spec fn title_path() -> Seq<char> {
    "/contents/twoColumnWatchNextResults/results/results/contents/0/videoPrimaryInfoRenderer/title/runs/0/text"@
}

pub open spec fn owner_name_path() -> Seq<char> {
    "/contents/twoColumnWatchNextResults/results/results/contents/1/videoSecondaryInfoRenderer/owner/videoOwnerRenderer/title/runs/0/text"@
}

pub open spec fn owner_id_path() -> Seq<char> {
    "/contents/twoColumnWatchNextResults/results/results/contents/1/videoSecondaryInfoRenderer/owner/videoOwnerRenderer/title/runs/0/navigationEndpoint/browseEndpoint/browseId"@
}

/// What the two blobs of a watch page yield: the video, or the first failure.
pub open spec fn video_of_trees(data: Json, player: Json) -> Result<VideoView, ParseFailure> {
    let id = need(data, "/currentVideoEndpoint/watchEndpoint/videoId"@);
    let ms = need(player, "/streamingData/formats/0/approxDurationMs"@);
    let title = need(data, title_path());
    let name = need(data, owner_name_path());
    let cid = need(data, owner_id_path());
    if id is Err {
        Err(id->Err_0)
    } else if ms is Err {
        Err(ms->Err_0)
    } else if decimal_u64(encode_utf8(ms->Ok_0)) is None {
        Err(ParseFailure::NumericFormat("/streamingData/formats/0/approxDurationMs"@))
    } else if title is Err {
        Err(title->Err_0)
    } else if name is Err {
        Err(name->Err_0)
    } else if cid is Err {
        Err(cid->Err_0)
    } else {
        Ok(
            VideoView {
                id: id->Ok_0,
                length: duration_of_millis(decimal_u64(encode_utf8(ms->Ok_0))->0),
                title: title->Ok_0,
                uploader: ChannelView { id: cid->Ok_0, name: name->Ok_0 },
            },
        )
    }
}

/// What a watch page yields: the video, or the first failure.
pub open spec fn video_view(html: Seq<char>) -> Result<VideoView, ParseFailure> {
    match embedded_value(html, INITIAL_DATA@) {
        None => Err(ParseFailure::ExtractionFailure),
        Some(data) => match embedded_value(html, INITIAL_PLAYER_RESPONSE@) {
            None => Err(ParseFailure::ExtractionFailure),
            Some(player) => video_of_trees(data, player),
        },
    }
}

/// Parses a watch page from its two embedded blobs: the initial data gives
/// the id, title and uploader, the player response the length.
pub fn parse_video(html: &str) -> (r: Result<Video, Parsing>)
    ensures
        outcome(r) == video_view(html@),
{
    let data = embedded_json(html, INITIAL_DATA)?;
    let player = embedded_json(html, INITIAL_PLAYER_RESPONSE)?;
    video_from_trees(&data, &player)
}

/// Builds the video from the initial data and the player response of a
/// watch page.
pub fn video_from_trees(data: &Json, player: &Json) -> (r: Result<Video, Parsing>)
    ensures
        outcome(r) == video_of_trees(*data, *player),
{
    let id = string_at(data, "/currentVideoEndpoint/watchEndpoint/videoId")?;
    let ms = string_at(player, "/streamingData/formats/0/approxDurationMs")?;
    let length = match ms_to_duration(ms.as_str()) {
        Some(d) => d,
        None => {
            return Err(
                Parsing::NumericFormat("/streamingData/formats/0/approxDurationMs".to_owned()),
            )
        },
    };
    let title = string_at(
        data,
        "/contents/twoColumnWatchNextResults/results/results/contents/0/videoPrimaryInfoRenderer/title/runs/0/text",
    )?;
    let name = string_at(
        data,
        "/contents/twoColumnWatchNextResults/results/results/contents/1/videoSecondaryInfoRenderer/owner/videoOwnerRenderer/title/runs/0/text",
    )?;
    let cid = string_at(
        data,
        "/contents/twoColumnWatchNextResults/results/results/contents/1/videoSecondaryInfoRenderer/owner/videoOwnerRenderer/title/runs/0/navigationEndpoint/browseEndpoint/browseId",
    )?;
    Ok(
        Video {
            id: VideoId::new(id.as_str()),
            length: length,
            title: title,
            uploader: Channel { id: ChannelId::new(cid.as_str()), name: name },
        },
    )
}

/// Parsing one watch page twice gives equal results.
pub proof fn lemma_video_deterministic(
    html: Seq<char>,
    first: Result<Video, Parsing>,
    second: Result<Video, Parsing>,
)
    requires
        outcome(first) == video_view(html),
        outcome(second) == video_view(html),
    ensures
        outcome(first) == outcome(second),
{
}

} // verus!
