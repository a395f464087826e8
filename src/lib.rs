//! A crawler for a federation of video-hosting instances: it walks the
//! follow graph from seed instances, claims each instance once, and pages
//! through each instance's listings.
pub mod crawl;
pub mod fetch;
pub mod json;
pub mod paging;
pub mod peer;
pub mod peertube_api;
pub mod video_storage;
