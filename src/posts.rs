use vstd::prelude::*;

use crate::api::{Reply, ReplyBody, Status};

verus! {

/// Declares hyper's `Error`, the failure of a request or its transport; it is
/// carried through opaque, nothing is read from it.
#[verifier::external_type_specification]
#[verifier::external_body]
pub struct ExHyperError(hyper::Error);

/// Declares serde_json's `Error`, the failure to decode a body; it is carried
/// through opaque, nothing is read from it.
#[verifier::external_type_specification]
#[verifier::external_body]
pub struct ExJsonError(serde_json::Error);

/// A record of the upstream service, relayed as it came.
pub struct Post {
    pub user_id: i32,
    pub id: i32,
    pub title: String,
    pub body: String,
}

/// Why fetching the upstream records failed.
pub enum FetchError {
    /// The request or its transport failed.
    Http(hyper::Error),
    /// The reply was not a JSON list of posts.
    Json(serde_json::Error),
}

impl From<hyper::Error> for FetchError {
    fn from(err: hyper::Error) -> (r: FetchError)
        ensures
            r is Http,
    {
        FetchError::Http(err)
    }
}

impl vstd::std_specs::convert::FromSpecImpl<hyper::Error> for FetchError {
    open spec fn obeys_from_spec() -> bool {
        true
    }

    open spec fn from_spec(err: hyper::Error) -> FetchError {
        FetchError::Http(err)
    }
}

impl From<serde_json::Error> for FetchError {
    fn from(err: serde_json::Error) -> (r: FetchError)
        ensures
            r is Json,
    {
        FetchError::Json(err)
    }
}

impl vstd::std_specs::convert::FromSpecImpl<serde_json::Error> for FetchError {
    open spec fn obeys_from_spec() -> bool {
        true
    }

    open spec fn from_spec(err: serde_json::Error) -> FetchError {
        FetchError::Json(err)
    }
}

/// `GET /posts`: the fetched records with `200`, or `404` where the fetch
/// failed in either way.
pub fn posts_reply(fetched: Result<Vec<Post>, FetchError>) -> (r: Reply)
    ensures
        fetched is Ok ==> r.status == Status::Success && r.body == ReplyBody::Posts(fetched->Ok_0),
        fetched is Err ==> r.status == Status::NotFound && r.body is Empty,
{
    match fetched {
        Ok(posts) => Reply { status: Status::Success, body: ReplyBody::Posts(posts) },
        Err(_) => Reply { status: Status::NotFound, body: ReplyBody::Empty },
    }
}

} // verus!
