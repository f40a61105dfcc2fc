//! The connection handler: what one connection does with each event.
//!
//! A connection awaits a frame, decodes it, dispatches the request to the
//! store, encodes the response and has it written, and then awaits the next
//! frame. Reading and writing are left to the caller: [`step`] takes what
//! happened on the connection and returns what to do next. Decoding and
//! dispatching need no wait, so one step passes through both.

use crate::fault::Fault;
use crate::frame::bytes_of;
use crate::frame::decode_request;
use crate::frame::encode_response;
use crate::frame::frame_of;
use crate::frame::request_of_frame;
use crate::message::data_server::response;
use crate::message::data_server::Request;
use crate::message::data_server::RequestView;
use crate::message::data_server::Response;
use crate::message::data_server::ResponseView;
use crate::storage::get;
use crate::storage::put;
use crate::wire::response_payload;
use vstd::prelude::*;

verus! {

/// Where a connection stands between two events.
#[derive(Debug, Clone, Copy, PartialEq, Eq, Structural)]
pub enum State {
    /// No request is in progress: a frame is being waited for.
    AwaitingFrame,
    /// A response has been encoded and is being written.
    EncodingResponse,
    /// The peer has disconnected between two frames.
    Closed,
    /// The connection was given up, for the reason held.
    Faulted(Fault),
}

/// What happened on a connection.
#[derive(Debug, Clone, PartialEq, Eq)]
pub enum Event {
    /// The bytes read up to and including a delimiter, or up to the end of the
    /// stream: none where the stream ended at once.
    Received(Vec<u8>),
    /// The frame that was to be written has been written in full.
    Written,
    /// Reading or writing failed.
    Failed,
}

/// What the caller is to do next on a connection.
#[derive(Debug, Clone, PartialEq, Eq)]
pub enum Action {
    /// Read up to and including the next delimiter and report what came.
    Read,
    /// Write these bytes and report that it was done.
    Write(Vec<u8>),
    /// Drop the connection.
    Stop,
}

/// The mathematical content of an [`Event`].
pub enum EventView {
    Received(Seq<u8>),
    Written,
    Failed,
}

/// The mathematical content of an [`Action`].
pub enum ActionView {
    Read,
    Write(Seq<u8>),
    Stop,
}

impl View for Event {
    type V = EventView;

    open spec fn view(&self) -> EventView {
        match self {
            Event::Received(bytes) => EventView::Received(bytes@),
            Event::Written => EventView::Written,
            Event::Failed => EventView::Failed,
        }
    }
}

impl View for Action {
    type V = ActionView;

    open spec fn view(&self) -> ActionView {
        match self {
            Action::Read => ActionView::Read,
            Action::Write(bytes) => ActionView::Write(bytes@),
            Action::Stop => ActionView::Stop,
        }
    }
}

/// The content of a result that holds a response.
pub open spec fn reply_of(reply: Result<Response, Fault>) -> Result<ResponseView, Fault> {
    match reply {
        Ok(response) => Ok(response@),
        Err(fault) => Err(fault),
    }
}

/// The reply to a load request, given what the store returned: the hash that
/// was found or its absence, and a fault where the store failed.
pub open spec fn load_reply(found: Result<Option<Seq<u8>>, Fault>) -> Result<ResponseView, Fault> {
    match found {
        Ok(hash) => Ok(ResponseView::Load(hash)),
        Err(_) => Err(Fault::StoreRead),
    }
}

/// The reply to a store request, given what the store returned: success or
/// not. A failed write is no fault of the connection.
pub open spec fn store_reply(done: Result<(), Fault>) -> ResponseView {
    ResponseView::Store(done is Ok)
}

/// The replies that a request may get, whatever the store does: a response of
/// the request's own variant, or, for a load, the fault of a failed read.
pub open spec fn reply_permitted(request: RequestView, reply: Result<ResponseView, Fault>) -> bool {
    match reply {
        Ok(response) => request.answered_by(response),
        Err(fault) => request is Load && fault == Fault::StoreRead,
    }
}

/// What follows a reply: the frame of the response, or the fault.
pub open spec fn frame_of_reply(reply: Result<ResponseView, Fault>) -> Result<Seq<u8>, Fault> {
    match reply {
        Ok(response) => frame_of(response_payload(response)),
        Err(fault) => Err(fault),
    }
}

/// What a frame may be answered with, whatever the store does: the fault
/// where the frame holds no request, else what follows a permitted reply.
pub open spec fn answer_permitted(bytes: Seq<u8>, answer: Result<Seq<u8>, Fault>) -> bool {
    match request_of_frame(bytes) {
        Ok(request) => exists|reply: Result<ResponseView, Fault>|
            #[trigger] reply_permitted(request, reply) && answer == frame_of_reply(reply),
        Err(fault) => answer == Err::<Seq<u8>, Fault>(fault),
    }
}

/// State and action after an answer: the response is to be written, or the
/// connection is given up.
pub open spec fn after_answer(answer: Result<Seq<u8>, Fault>) -> (State, ActionView) {
    match answer {
        Ok(frame) => (State::EncodingResponse, ActionView::Write(frame)),
        Err(fault) => (State::Faulted(fault), ActionView::Stop),
    }
}

/// The steps that a connection may take, whatever the store does.
///
/// Awaiting a frame: no bytes mean that the peer has left, and close the
/// connection; bytes are answered; a failure faults. While a response is
/// written: its completion leads back to awaiting a frame; a failure faults.
/// An event that the state does not expect faults. A closed or faulted
/// connection stays as it is.
pub open spec fn step_permitted(
    state: State,
    event: EventView,
    next: State,
    action: ActionView,
) -> bool {
    match state {
        State::AwaitingFrame => match event {
            EventView::Received(bytes) => if bytes.len() == 0 {
                next == State::Closed && action == ActionView::Stop
            } else {
                exists|answer: Result<Seq<u8>, Fault>|
                    #[trigger] answer_permitted(bytes, answer) && (next, action) == after_answer(
                        answer,
                    )
            },
            EventView::Written => next == State::Faulted(Fault::OutOfTurn) && action
                == ActionView::Stop,
            EventView::Failed => next == State::Faulted(Fault::Io) && action == ActionView::Stop,
        },
        State::EncodingResponse => match event {
            EventView::Received(_) => next == State::Faulted(Fault::OutOfTurn) && action
                == ActionView::Stop,
            EventView::Written => next == State::AwaitingFrame && action == ActionView::Read,
            EventView::Failed => next == State::Faulted(Fault::Io) && action == ActionView::Stop,
        },
        State::Closed => next == State::Closed && action == ActionView::Stop,
        State::Faulted(fault) => next == State::Faulted(fault) && action == ActionView::Stop,
    }
}

/// The reply to a load request, from what the store returned.
pub fn reply_to_load(found: Result<Option<Vec<u8>>, Fault>) -> (reply: Result<Response, Fault>)
    ensures
        reply_of(reply) == load_reply(
            match found {
                Ok(Some(hash)) => Ok(Some(hash@)),
                Ok(None) => Ok(None),
                Err(fault) => Err(fault),
            },
        ),
{
    match found {
        Ok(hash) => Ok(Response::Load(response::Load { hash })),
        Err(_) => Err(Fault::StoreRead),
    }
}

/// The reply to a store request, from what the store returned.
pub fn reply_to_store(done: Result<(), Fault>) -> (reply: Response)
    ensures
        reply@ == store_reply(done),
{
    match done {
        Ok(()) => Response::Store(response::Store { success: true }),
        Err(_) => Response::Store(response::Store { success: false }),
    }
}

/// Routes a request to the store and builds the reply. A load reads the key
/// and replies with what was found; where the read fails, the reply is
/// [`Fault::StoreRead`]. A store writes the hash under the key and replies
/// whether that succeeded. The response is of the request's own variant.
pub fn dispatch(db: &sled::Db, request: Request) -> (reply: Result<Response, Fault>)
    ensures
        reply_permitted(request@, reply_of(reply)),
{
    match request {
        Request::Load(load) => reply_to_load(get(db, load.key.as_str())),
        Request::Store(store) => Ok(reply_to_store(put(db, store.key.as_str(), store.hash))),
    }
}

/// Answers one frame: decodes the request, dispatches it and encodes the
/// response. Fails with [`Fault::Framing`] or [`Fault::Decode`] where the
/// frame holds no request, with [`Fault::StoreRead`] where a load could not be
/// read, and with [`Fault::Framing`] where the response could not be framed.
pub fn answer(db: &sled::Db, bytes: Vec<u8>) -> (frame: Result<Vec<u8>, Fault>)
    ensures
        answer_permitted(bytes@, bytes_of(frame)),
{
    match decode_request(bytes) {
        Ok(request) => {
            let reply = dispatch(db, request);
            let frame = match reply {
                Ok(response) => encode_response(&response),
                Err(fault) => Err(fault),
            };
            proof {
                assert(reply_permitted(request@, reply_of(reply)) && bytes_of(frame)
                    == frame_of_reply(reply_of(reply)));
            }
            frame
        },
        Err(fault) => Err(fault),
    }
}

/// The state and the action that a connection starts with: it awaits its
/// first frame.
pub fn open() -> (start: (State, Action))
    ensures
        start.0 == State::AwaitingFrame,
        start.1@ == ActionView::Read,
{
    (State::AwaitingFrame, Action::Read)
}

/// Takes one step: from the state of a connection and what happened on it to
/// its next state and what to do next.
pub fn step(state: State, event: Event, db: &sled::Db) -> (next: (State, Action))
    ensures
        step_permitted(state, event@, next.0, next.1@),
{
    match state {
        State::AwaitingFrame => match event {
            Event::Received(bytes) => {
                if bytes.len() == 0 {
                    (State::Closed, Action::Stop)
                } else {
                    let ghost received = bytes@;
                    let outcome = answer(db, bytes);
                    proof {
                        assert(answer_permitted(received, bytes_of(outcome)));
                    }
                    match outcome {
                        Ok(frame) => (State::EncodingResponse, Action::Write(frame)),
                        Err(fault) => (State::Faulted(fault), Action::Stop),
                    }
                }
            },
            Event::Written => (State::Faulted(Fault::OutOfTurn), Action::Stop),
            Event::Failed => (State::Faulted(Fault::Io), Action::Stop),
        },
        State::EncodingResponse => match event {
            Event::Received(_) => (State::Faulted(Fault::OutOfTurn), Action::Stop),
            Event::Written => (State::AwaitingFrame, Action::Read),
            Event::Failed => (State::Faulted(Fault::Io), Action::Stop),
        },
        State::Closed => (State::Closed, Action::Stop),
        State::Faulted(fault) => (State::Faulted(fault), Action::Stop),
    }
}

/// One request at a time: a frame is asked for only when the response before
/// it has been written in full, and a response is written only in answer to a
/// frame. A connection awaits a frame exactly when it has been told to read,
/// writes exactly when it has been told to write, and has ended exactly when
/// it has been told to stop.
pub proof fn lemma_one_request_at_a_time(
    state: State,
    event: EventView,
    next: State,
    action: ActionView,
)
    requires
        step_permitted(state, event, next, action),
    ensures
        action is Read ==> state == State::EncodingResponse && event is Written,
        action is Write ==> state == State::AwaitingFrame && event is Received,
        action is Read <==> next == State::AwaitingFrame,
        action is Write <==> next == State::EncodingResponse,
        action is Stop <==> next is Closed || next is Faulted,
{
}

/// A frame that holds no request gives up the connection on which it came,
/// with the reason, and nothing is written in answer.
pub proof fn lemma_malformed_frame_faults(bytes: Seq<u8>, next: State, action: ActionView)
    requires
        bytes.len() > 0,
        request_of_frame(bytes) is Err,
        step_permitted(State::AwaitingFrame, EventView::Received(bytes), next, action),
    ensures
        next == State::Faulted(request_of_frame(bytes)->Err_0),
        action == ActionView::Stop,
{
}

/// The response matches the request: whatever is written in answer to a frame
/// is the frame of a response of the variant of the request in that frame.
pub proof fn lemma_response_matches_request(bytes: Seq<u8>, next: State, action: ActionView)
    requires
        bytes.len() > 0,
        step_permitted(State::AwaitingFrame, EventView::Received(bytes), next, action),
        action is Write,
    ensures
        request_of_frame(bytes) is Ok,
        exists|response: ResponseView|
            #[trigger] request_of_frame(bytes)->Ok_0.answered_by(response) && Ok::<Seq<u8>, Fault>(
                action->Write_0,
            ) == frame_of(response_payload(response)),
{
    let answer = choose|answer: Result<Seq<u8>, Fault>|
        #[trigger] answer_permitted(bytes, answer) && (next, action) == after_answer(answer);
    let request = request_of_frame(bytes)->Ok_0;
    let reply = choose|reply: Result<ResponseView, Fault>|
        #[trigger] reply_permitted(request, reply) && answer == frame_of_reply(reply);
    assert(request.answered_by(reply->Ok_0));
}

} // verus!
