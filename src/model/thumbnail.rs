//! Thumbnail formats and resolutions.
//!
//! An unavailable thumbnail resolves to a placeholder image.
use vstd::prelude::*;

verus! {

/// The image formats thumbnails come in.
///
/// [`ImageFormat::WebP`] keeps the same or better quality at a smaller size.
#[derive(Clone, Copy, Debug)]
#[non_exhaustive]
pub enum ImageFormat {
    /// Older, better supported format.
    JPEG,
    /// Newer and more efficient format.
    WebP,
}

/// The resolutions thumbnails come in.
///
/// [`Resolution::Maxres`] and [`Resolution::Standard`] are not available for
/// every resource.
#[derive(Clone, Copy, Debug)]
pub enum Resolution {
    /// 120 x 90px
    Default,
    /// 480 x 360px
    High,
    /// 1280 x 720px
    Maxres,
    /// 320 x 180px
    Medium,
    /// 640 x 480px
    Standard,
}

/// The file name of a thumbnail in a resolution, without extension.
pub open spec fn resolution_name(res: Resolution) -> Seq<char> {
    match res {
        Resolution::Default => "default"@,
        Resolution::High => "hqdefault"@,
        Resolution::Maxres => "maxresdefault"@,
        Resolution::Medium => "mqdefault"@,
        Resolution::Standard => "sddefault"@,
    }
}

impl Resolution {
    /// The file name of a thumbnail in this resolution, without extension.
    pub fn as_str(&self) -> (r: &'static str)
        ensures
            r@ == resolution_name(*self),
    {
        match self {
            Resolution::Default => "default",
            Resolution::High => "hqdefault",
            Resolution::Maxres => "maxresdefault",
            Resolution::Medium => "mqdefault",
            Resolution::Standard => "sddefault",
        }
    }
}

} // verus!
