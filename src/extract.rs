//! The JSON blobs that a page assigns to script variables.
use vstd::prelude::*;
use vstd::utf8::encode_utf8;

use crate::error::{ParseFailure, Parsing};
use crate::json::{json_of_bytes, parse_json, Json};
use crate::text::{find_from, find_pattern};

verus! {

/// Introduces the blob of the page's initial data.
pub const INITIAL_DATA: &'static str = "var ytInitialData = ";

/// Introduces the blob of the player's initial response.
pub const INITIAL_PLAYER_RESPONSE: &'static str = "var ytInitialPlayerResponse = ";

/// Ends a blob.
pub const BLOB_END: &'static str = ";</script>";

/// The bytes between the first `marker` and the first end marker after it.
///
/// The end marker is found by plain search, so a blob that holds it as data
/// is cut short there.
pub open spec fn blob_of(html: Seq<u8>, marker: Seq<u8>) -> Option<Seq<u8>> {
    match find_from(html, marker, 0) {
        Some(i) => {
            let start = i + marker.len();
            match find_from(html, encode_utf8(BLOB_END@), start) {
                Some(j) => Some(html.subrange(start, j)),
                None => None,
            }
        },
        None => None,
    }
}

/// The tree of the blob introduced by `marker`, when there is one and it is
/// JSON.
pub open spec fn embedded_value(html: Seq<char>, marker: Seq<char>) -> Option<Json> {
    match blob_of(encode_utf8(html), encode_utf8(marker)) {
        Some(b) => json_of_bytes(b),
        None => None,
    }
}

/// Parses the blob that `marker` introduces in `html`.
pub fn embedded_json(html: &str, marker: &str) -> (r: Result<Json, Parsing>)
    ensures
        match embedded_value(html@, marker@) {
            Some(j) => r == Ok::<Json, Parsing>(j),
            None => r matches Err(e) && e@ == ParseFailure::ExtractionFailure,
        },
{
    let h = html.as_bytes();
    let m = marker.as_bytes();
    let end = BLOB_END.as_bytes();
    let i = match find_pattern(h, m, 0) {
        Some(i) => i,
        None => return Err(Parsing::ExtractionFailure),
    };
    proof {
        crate::text::lemma_find_from_in_bounds(h@, m@, 0, i as int);
    }
    let hl = h.len();
    assert(i + m@.len() <= hl);
    let start = i + m.len();
    let j = match find_pattern(h, end, start) {
        Some(j) => j,
        None => return Err(Parsing::ExtractionFailure),
    };
    proof {
        crate::text::lemma_find_from_in_bounds(h@, end@, start as int, j as int);
    }
    let blob = &h[start..j];
    match parse_json(blob) {
        Some(v) => Ok(v),
        None => Err(Parsing::ExtractionFailure),
    }
}

} // verus!
