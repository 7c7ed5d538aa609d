//! Extraction of video, channel, search and playlist metadata from the HTML
//! of a video site's pages.
//!
//! The pages carry their data either as `<meta>`/`<link>` markup or as JSON
//! blobs assigned to script variables. The library locates those blobs,
//! navigates the parsed trees by slash-delimited paths and builds typed
//! models, failing with a precise [`error::Parsing`] when something is absent.
pub mod text;
pub mod duration;
pub mod error;
pub mod json;
pub mod model;
pub mod extract;
pub mod parsing;
pub mod types;
