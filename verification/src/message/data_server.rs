//! Messages exchanged between a cache server and the data server.
//!
//! A request names its variant on the wire. A response does not: the reader of a
//! response has to know which request it answers.

use vstd::prelude::*;

pub mod request;
pub mod response;

verus! {

/// What a cache server asks of the data server.
#[derive(Debug, Clone, PartialEq, Eq)]
pub enum Request {
    Load(request::Load),
    Store(request::Store),
}

/// What the data server answers. A `Load` request is answered by a `Load`
/// response, a `Store` request by a `Store` response.
#[derive(Debug, Clone, PartialEq, Eq)]
pub enum Response {
    Load(response::Load),
    Store(response::Store),
}

/// The mathematical content of a [`Request`].
pub enum RequestView {
    Load(Seq<char>),
    Store(Seq<char>, Seq<u8>),
}

/// The mathematical content of a [`Response`].
pub enum ResponseView {
    Load(Option<Seq<u8>>),
    Store(bool),
}

impl View for Request {
    type V = RequestView;

    open spec fn view(&self) -> RequestView {
        match self {
            Request::Load(load) => RequestView::Load(load@),
            Request::Store(store) => RequestView::Store(store@.0, store@.1),
        }
    }
}

impl View for Response {
    type V = ResponseView;

    open spec fn view(&self) -> ResponseView {
        match self {
            Response::Load(load) => ResponseView::Load(load@),
            Response::Store(store) => ResponseView::Store(store@),
        }
    }
}

impl RequestView {
    /// Whether a response of this content answers a request of this content:
    /// the variants agree.
    pub open spec fn answered_by(self, response: ResponseView) -> bool {
        match self {
            RequestView::Load(_) => response is Load,
            RequestView::Store(_, _) => response is Store,
        }
    }
}

} // verus!
