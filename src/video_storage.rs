//! Storing harvested videos in the search index, a document store keyed by
//! each video's `uuid`.
use crate::json::Json;
use crate::peertube_api::Video;
use vstd::prelude::*;

verus! {

/// A search index reached through the client `C`.
pub struct Database<C> {
    elastic_client: C,
}

/// The request to send for a video, given how the previous one went.
#[derive(Clone, Copy, PartialEq, Eq, Structural, Debug)]
pub enum IndexStep {
    /// Update the stored document of the video.
    Update,
    /// Index the video as a new document.
    Index,
    /// Nothing more to send.
    Done,
}

/// A video is upserted: an update first, and an insertion only when the
/// update failed.
pub fn next_index_step(last: Option<(IndexStep, bool)>) -> (r: IndexStep)
    ensures
        last is None ==> r == IndexStep::Update,
        last == Some((IndexStep::Update, false)) ==> r == IndexStep::Index,
        last is Some && last != Some((IndexStep::Update, false)) ==> r == IndexStep::Done,
{
    match last {
        None => IndexStep::Update,
        Some((IndexStep::Update, false)) => IndexStep::Index,
        Some(_) => IndexStep::Done,
    }
}

/// Whether the index's answer to a lookup of the index itself says that it
/// does not exist: its member `code` is `404`.
pub fn index_is_missing(answer: &Json) -> (r: bool)
    ensures
        r == match answer.member("code"@) {
            Some(c) => c.as_u64_spec() == Some(404u64),
            None => false,
        },
{
    match answer.get("code") {
        Some(c) => match c.as_u64() {
            Some(code) => code == 404,
            None => false,
        },
        None => false,
    }
}

/// Whether the index's answer to the creation of the mappings refuses it:
/// its member `acknowledged` is `false`. An answer without that member is
/// not taken as a refusal.
pub fn mapping_refused(answer: &Json) -> (r: bool)
    ensures
        r == (answer.member("acknowledged"@) == Some(Json::Bool(false))),
{
    match answer.get("acknowledged") {
        Some(Json::Bool(acknowledged)) => !*acknowledged,
        _ => false,
    }
}

impl<C> Database<C> {
    /// The client this index is reached through.
    pub closed spec fn client_spec(&self) -> C {
        self.elastic_client
    }

    /// An index reached through `elastic_client`.
    pub fn new(elastic_client: C) -> (r: Database<C>)
        ensures
            r.client_spec() == elastic_client,
    {
        Database { elastic_client }
    }

    /// The client this index is reached through.
    pub fn client(&self) -> (r: &C)
        ensures
            *r == self.client_spec(),
    {
        &self.elastic_client
    }

    /// The identifier of the document that stores `video`: its `uuid`, so
    /// that a video harvested again replaces its earlier copy.
    pub fn document_id(&self, video: &Video) -> (r: String)
        ensures
            r@ == video.uuid@,
    {
        video.uuid.clone()
    }
}

} // verus!
