//! The records a peer's content listing describes.
use vstd::prelude::*;

verus! {

/// A value a peer gives both as an identifier and as a readable label
/// (a category, a licence, a language, a privacy setting, a state).
#[derive(Clone, Debug)]
pub struct Labeled<I> {
    pub id: Option<I>,
    pub label: String,
}

pub type Category = Labeled<i64>;

pub type Licence = Labeled<i64>;

pub type Language = Labeled<String>;

pub type Privacy = Labeled<i64>;

pub type State = Labeled<i64>;

#[derive(Clone, Debug)]
pub struct Avatar {
    pub path: String,
    pub created_at: String,
    pub updated_at: String,
}

/// An instance as the bootstrap directory describes it.
#[derive(Clone, Debug)]
pub struct Instance {
    pub id: Option<u64>,
    pub uuid: String,
    pub url: String,
    pub name: String,
    pub following_count: u64,
    pub followers_count: u64,
    pub created_at: String,
    pub updated_at: String,
    pub avatar: Option<Avatar>,
}

#[derive(Clone, Debug)]
pub struct Account {
    pub id: Option<i64>,
    pub name: String,
    pub display_name: String,
    pub url: String,
    pub host: String,
    pub avatar: Option<Avatar>,
}

#[derive(Clone, Debug)]
pub struct Channel {
    pub id: Option<i64>,
    pub name: String,
    pub display_name: String,
    pub url: String,
    pub host: String,
    pub avatar: Option<Avatar>,
}

/// One harvested content item; `uuid` identifies it across the federation.
#[derive(Clone, Debug)]
pub struct Video {
    pub id: Option<i64>,
    pub uuid: String,
    pub created_at: String,
    pub published_at: String,
    pub updated_at: String,
    pub originally_published_at: Option<String>,
    pub category: Category,
    pub licence: Licence,
    pub language: Language,
    pub privacy: Privacy,
    pub description: Option<String>,
    pub duration: i64,
    pub is_local: bool,
    pub thumbnail_path: String,
    pub preview_path: String,
    pub embed_path: String,
    pub views: i64,
    pub likes: i64,
    pub dislikes: i64,
    pub nsfw: bool,
    pub wait_transcoding: Option<bool>,
    pub state: Option<State>,
    pub blacklisted: Option<bool>,
    pub blacklisted_reason: Option<String>,
    pub account: Account,
    pub channel: Channel,
    pub name: String,
}

} // verus!
