//! What the markup of a watch page tells about its video.
use vstd::prelude::*;

verus! {

/// What a [`VideoInformation`] holds.
pub struct VideoInformationView {
    pub id: Seq<char>,
    pub url: Seq<char>,
    pub title: Seq<char>,
    pub uploader: Seq<char>,
    pub thumbnail: Option<Seq<char>>,
}

/// A video as the `<meta>` and `<link>` tags of its page describe it.
#[derive(Clone, Debug)]
pub struct VideoInformation {
    /// The video's id.
    pub id: String,
    /// The page's canonical url.
    pub url: String,
    /// The video's title.
    pub title: String,
    /// The uploader's name.
    pub uploader: String,
    /// The thumbnail image, when the page names one.
    pub thumbnail: Option<String>,
}

impl View for VideoInformation {
    type V = VideoInformationView;

    open spec fn view(&self) -> VideoInformationView {
        VideoInformationView {
            id: self.id@,
            url: self.url@,
            title: self.title@,
            uploader: self.uploader@,
            thumbnail: match self.thumbnail {
                Some(t) => Some(t@),
                None => None,
            },
        }
    }
}

} // verus!
