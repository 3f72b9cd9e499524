//! One conditional retrieval: the validators a feed carries from one request
//! to the next, and what a response means for them.

use vstd::prelude::*;
use crate::error::{Error, HttpFailure};

verus! {

/// The status by which a server says that the resource has not changed.
pub const NOT_MODIFIED: u16 = 304;

/// The validators reported by the last response that carried content.
///
/// Both are absent until the first such response. A response without content
/// ("not modified", or any failure) leaves them as they are.
#[derive(Debug, Clone, PartialEq, Eq)]
pub struct FetchState {
    pub etag: Option<String>,
    pub last_modified: Option<String>,
}

/// The conditional headers of one request: `If-None-Match` and
/// `If-Modified-Since`, each sent only where it is present.
#[derive(Debug, Clone, PartialEq, Eq)]
pub struct ConditionalHeaders {
    pub if_none_match: Option<String>,
    pub if_modified_since: Option<String>,
}

/// What a response status means to a feed.
#[derive(Debug, Clone, Copy, PartialEq, Eq, Structural)]
pub enum Disposition {
    /// The resource is unchanged; the response carries nothing to read.
    NotModified,
    /// The response carries new content.
    Success,
    /// The retrieval failed.
    Failure,
}

/// What the transport reports of one exchange.
#[derive(Debug)]
pub enum Reply {
    /// No complete response arrived.
    Broken(String),
    /// A response arrived. `body` is its content where the status calls for
    /// reading it (see [`FetchState::disposition`]), and empty elsewhere.
    Answered { status: u16, etag: Option<String>, last_modified: Option<String>, body: Vec<u8> },
}

/// The result of one retrieval.
#[derive(Debug)]
pub enum Outcome {
    /// The remote resource is unchanged since the last success.
    Unchanged,
    /// New content was retrieved.
    Fresh(Vec<u8>),
    /// The retrieval failed.
    Failed(Error),
}

/// A status in the range that HTTP reserves for success.
pub open spec fn is_success(status: u16) -> bool {
    200 <= status <= 299
}

/// The meaning of `status` in answer to a request that did (`conditional`) or
/// did not carry a validator. "Not modified" counts only in answer to a
/// conditional request; apart from it, everything but a success is a failure.
pub open spec fn disposition_of(conditional: bool, status: u16) -> Disposition {
    if conditional && status == NOT_MODIFIED {
        Disposition::NotModified
    } else if is_success(status) {
        Disposition::Success
    } else {
        Disposition::Failure
    }
}

/// The validators after an exchange that began with `state` and ended with
/// `reply`, and the result of that retrieval.
pub open spec fn settled(state: FetchState, reply: Reply) -> (FetchState, Outcome) {
    match reply {
        Reply::Broken(detail) => (
            state,
            Outcome::Failed(Error::Http(HttpFailure::Transport(detail))),
        ),
        Reply::Answered { status, etag, last_modified, body } => match disposition_of(
            state.has_validator(),
            status,
        ) {
            Disposition::NotModified => (state, Outcome::Unchanged),
            Disposition::Success => (FetchState { etag, last_modified }, Outcome::Fresh(body)),
            Disposition::Failure => (
                state,
                Outcome::Failed(Error::Http(HttpFailure::Status(status))),
            ),
        },
    }
}

impl Default for FetchState {
    /// The state of a feed that has not retrieved anything yet.
    fn default() -> (state: Self)
        ensures
            state.etag is None,
            state.last_modified is None,
    {
        FetchState { etag: None, last_modified: None }
    }
}

impl FetchState {
    /// Whether a request made in this state is conditional.
    pub open spec fn has_validator(&self) -> bool {
        self.etag is Some || self.last_modified is Some
    }

    /// The state of a feed that has not retrieved anything yet.
    pub fn new() -> (state: Self)
        ensures
            state.etag is None,
            state.last_modified is None,
    {
        FetchState { etag: None, last_modified: None }
    }

    /// The conditional headers of the next request: each validator that is
    /// present, and nothing for one that is absent.
    pub fn request_headers(&self) -> (headers: ConditionalHeaders)
        ensures
            headers.if_none_match == self.etag,
            headers.if_modified_since == self.last_modified,
    {
        let if_none_match = match &self.etag {
            Some(tag) => Some(tag.clone()),
            None => None,
        };
        let if_modified_since = match &self.last_modified {
            Some(date) => Some(date.clone()),
            None => None,
        };
        ConditionalHeaders { if_none_match, if_modified_since }
    }

    /// What `status` means in answer to a request made in this state. Only
    /// [`Disposition::Success`] calls for reading the body.
    pub fn disposition(&self, status: u16) -> (d: Disposition)
        ensures
            d == disposition_of(self.has_validator(), status),
    {
        let conditional = self.etag.is_some() || self.last_modified.is_some();
        if conditional && status == NOT_MODIFIED {
            Disposition::NotModified
        } else if 200 <= status && status <= 299 {
            Disposition::Success
        } else {
            Disposition::Failure
        }
    }

    /// Concludes one retrieval. Only a response with content replaces the
    /// validators, each by what that response reported, present or absent.
    pub fn settle(&mut self, reply: Reply) -> (outcome: Outcome)
        ensures
            (*final(self), outcome) == settled(*old(self), reply),
    {
        match reply {
            Reply::Broken(detail) => Outcome::Failed(Error::Http(HttpFailure::Transport(detail))),
            Reply::Answered { status, etag, last_modified, body } => {
                match self.disposition(status) {
                    Disposition::NotModified => Outcome::Unchanged,
                    Disposition::Success => {
                        self.etag = etag;
                        self.last_modified = last_modified;
                        Outcome::Fresh(body)
                    },
                    Disposition::Failure => Outcome::Failed(
                        Error::Http(HttpFailure::Status(status)),
                    ),
                }
            },
        }
    }
}

} // verus!
