//! Turning pages into models.
pub mod search;
pub mod video;
pub mod video_information;
