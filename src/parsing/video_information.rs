//! Watch pages, read from their markup.
use vstd::prelude::*;

use crate::error::{outcome, ParseFailure, Parsing};
use crate::types::{VideoInformation, VideoInformationView};

verus! {

/// The value of the attribute `attribute` on the first element of the
/// document `html` that `selector` selects: `None` when no element is
/// selected, `Some(None)` when that element lacks the attribute.
pub uninterp spec fn selected_attribute(
    html: Seq<char>,
    selector: Seq<char>,
    attribute: Seq<char>,
) -> Option<Option<Seq<char>>>;

/// Relies on scraper: `Html::parse_document` reads the document once; then,
/// for each (selector, attribute) query, `Selector::parse` reads the selector
/// (one that does not parse selects nothing), `Html::select` yields the
/// matches in the order of the tree's nodes and `Element::attr` reads the
/// attribute of the first. Each answer depends on the three texts alone.
#[verifier::external_body]
fn select_attributes(html: &str, queries: &[(&str, &str)]) -> (r: Vec<Option<Option<String>>>)
    ensures
        r@.len() == queries@.len(),
        forall|i: int|
            0 <= i < queries@.len() ==> found_view(#[trigger] r@[i]) == selected_attribute(
                html@,
                queries@[i].0@,
                queries@[i].1@,
            ),
{
    let document = scraper::Html::parse_document(html);
    queries.iter().map(|(selector, attribute)| {
        let selector = scraper::Selector::parse(selector).ok()?;
        let element = document.select(&selector).next()?;
        Some(element.value().attr(attribute).map(str::to_owned))
    }).collect()
}

/// What a lookup found, as plain text.
pub open spec fn found_view(found: Option<Option<String>>) -> Option<Option<Seq<char>>> {
    match found {
        None => None,
        Some(None) => Some(None),
        Some(Some(s)) => Some(Some(s@)),
    }
}

/// The attribute that a lookup found, or which of the two was missing.
pub open spec fn attribute_result(
    found: Option<Option<Seq<char>>>,
    selector: Seq<char>,
    attribute: Seq<char>,
) -> Result<Seq<char>, ParseFailure> {
    match found {
        None => Err(ParseFailure::MissingElement(selector)),
        Some(None) => Err(ParseFailure::MissingAttribute(attribute)),
        Some(Some(s)) => Ok(s),
    }
}

/// The attribute that a lookup found, or which of the two was missing.
pub fn try_select_attribute(found: Option<Option<String>>, selector: &str, attribute: &str) -> (r:
    Result<String, Parsing>)
    ensures
        outcome(r) == attribute_result(found_view(found), selector@, attribute@),
{
    match found {
        None => Err(Parsing::MissingElement(selector.to_owned())),
        Some(None) => Err(Parsing::MissingAttribute(attribute.to_owned())),
        Some(Some(s)) => Ok(s),
    }
}

pub open spec fn url_selector() -> Seq<char> {
    "link[rel=\"canonical\"]"@
}

pub open spec fn title_selector() -> Seq<char> {
    "meta[property=\"og:title\"]"@
}

pub open spec fn channel_selector() -> Seq<char> {
    "link[itemprop=\"name\"]"@
}

pub open spec fn id_selector() -> Seq<char> {
    "meta[itemprop=\"videoId\"]"@
}

pub open spec fn thumbnail_selector() -> Seq<char> {
    "meta[property=\"og:image\"]"@
}

/// What the lookups of a watch page's markup yield: the canonical url,
/// title, uploader and id are needed, in that order; the thumbnail is
/// optional.
pub open spec fn information_of(
    url: Option<Option<Seq<char>>>,
    title: Option<Option<Seq<char>>>,
    uploader: Option<Option<Seq<char>>>,
    id: Option<Option<Seq<char>>>,
    thumbnail: Option<Option<Seq<char>>>,
) -> Result<VideoInformationView, ParseFailure> {
    let url = attribute_result(url, url_selector(), "href"@);
    let title = attribute_result(title, title_selector(), "content"@);
    let uploader = attribute_result(uploader, channel_selector(), "content"@);
    let id = attribute_result(id, id_selector(), "content"@);
    let thumbnail = attribute_result(thumbnail, thumbnail_selector(), "content"@);
    if url is Err {
        Err(url->Err_0)
    } else if title is Err {
        Err(title->Err_0)
    } else if uploader is Err {
        Err(uploader->Err_0)
    } else if id is Err {
        Err(id->Err_0)
    } else {
        Ok(
            VideoInformationView {
                id: id->Ok_0,
                url: url->Ok_0,
                title: title->Ok_0,
                uploader: uploader->Ok_0,
                thumbnail: match thumbnail {
                    Ok(t) => Some(t),
                    Err(_) => None,
                },
            },
        )
    }
}

/// What the markup of a watch page yields.
pub open spec fn information_view(html: Seq<char>) -> Result<VideoInformationView, ParseFailure> {
    information_of(
        selected_attribute(html, url_selector(), "href"@),
        selected_attribute(html, title_selector(), "content"@),
        selected_attribute(html, channel_selector(), "content"@),
        selected_attribute(html, id_selector(), "content"@),
        selected_attribute(html, thumbnail_selector(), "content"@),
    )
}

/// Parses information about a video from the markup of its page.
pub fn parse_video_information(html: &str) -> (r: Result<VideoInformation, Parsing>)
    ensures
        outcome(r) == information_view(html@),
        selected_attribute(html@, url_selector(), "href"@) is None ==> (r matches Err(e)
            && e@ == ParseFailure::MissingElement(url_selector())),
{
    let queries = vec![
        ("link[rel=\"canonical\"]", "href"),
        ("meta[property=\"og:title\"]", "content"),
        ("link[itemprop=\"name\"]", "content"),
        ("meta[itemprop=\"videoId\"]", "content"),
        ("meta[property=\"og:image\"]", "content"),
    ];
    let mut found = select_attributes(html, queries.as_slice());
    assert(found_view(found@[0]) == selected_attribute(html@, url_selector(), "href"@));
    assert(found_view(found@[1]) == selected_attribute(html@, title_selector(), "content"@));
    assert(found_view(found@[2]) == selected_attribute(html@, channel_selector(), "content"@));
    assert(found_view(found@[3]) == selected_attribute(html@, id_selector(), "content"@));
    assert(found_view(found@[4]) == selected_attribute(html@, thumbnail_selector(), "content"@));
    let thumbnail = found.pop().unwrap();
    let id = found.pop().unwrap();
    let uploader = found.pop().unwrap();
    let title = found.pop().unwrap();
    let url = found.pop().unwrap();
    information_from_lookups(url, title, uploader, id, thumbnail)
}

/// Builds the information from what each selector found on the page:
/// `None` when nothing was selected, `Some(None)` when the selected element
/// lacked the attribute.
pub fn information_from_lookups(
    url: Option<Option<String>>,
    title: Option<Option<String>>,
    uploader: Option<Option<String>>,
    id: Option<Option<String>>,
    thumbnail: Option<Option<String>>,
) -> (r: Result<VideoInformation, Parsing>)
    ensures
        outcome(r) == information_of(
            found_view(url),
            found_view(title),
            found_view(uploader),
            found_view(id),
            found_view(thumbnail),
        ),
{
    let url = try_select_attribute(url, "link[rel=\"canonical\"]", "href")?;
    let title = try_select_attribute(title, "meta[property=\"og:title\"]", "content")?;
    let uploader = try_select_attribute(uploader, "link[itemprop=\"name\"]", "content")?;
    let id = try_select_attribute(id, "meta[itemprop=\"videoId\"]", "content")?;
    let thumbnail = match try_select_attribute(
        thumbnail,
        "meta[property=\"og:image\"]",
        "content",
    ) {
        Ok(t) => Some(t),
        Err(_) => None,
    };
    Ok(VideoInformation { id, url, title, uploader, thumbnail })
}

/// Reading the markup of one watch page twice gives equal results.
pub proof fn lemma_information_deterministic(
    html: Seq<char>,
    first: Result<VideoInformation, Parsing>,
    second: Result<VideoInformation, Parsing>,
)
    requires
        outcome(first) == information_view(html),
        outcome(second) == information_view(html),
    ensures
        outcome(first) == outcome(second),
{
}

} // verus!
