//! The frame codec: one message to a frame, one frame to a message.
//!
//! A frame is the stuffed encoding of one message and then the delimiter. The
//! stuffing is consistent overhead byte stuffing (COBS), which rewrites a
//! payload so that the delimiter does not occur in it. Stuffing and un-stuffing
//! are done by the `postcard` and `cobs` crates; this module names what they
//! return and proves the rest against those names.

use crate::fault::Fault;
use crate::message::data_server::Request;
use crate::message::data_server::RequestView;
use crate::message::data_server::Response;
use crate::message::data_server::ResponseView;
use crate::wire::lemma_request_round_trip;
use crate::wire::lemma_response_round_trip;
use crate::wire::parse_request;
use crate::wire::parse_response;
use crate::wire::read_request;
use crate::wire::read_response;
use crate::wire::request_fits;
use crate::wire::request_payload;
use crate::wire::response_fits;
use crate::wire::response_payload;
use crate::wire::write_request;
use crate::wire::write_response;
use vstd::prelude::*;

verus! {

/// The byte that ends a frame.
pub const DELIMITER: u8 = 0;

/// The frame that the COBS flavor of `postcard` makes of a payload, delimiter
/// included; `None` where it reports an error.
pub uninterp spec fn stuffed(payload: Seq<u8>) -> Option<Seq<u8>>;

/// The payload that `cobs::decode_in_place` finds in bytes; `None` where it
/// reports an error.
pub uninterp spec fn unstuffed(bytes: Seq<u8>) -> Option<Seq<u8>>;

/// The error of `postcard`, carried through and never looked into.
#[verifier::external_type_specification]
#[verifier::external_body]
pub struct ExPostcardError(postcard::Error);

/// The error of `cobs::decode_in_place`, carried through and never looked
/// into.
#[verifier::external_type_specification]
#[verifier::external_body]
pub struct ExDecodeError(cobs::DecodeError);

/// Whether bytes end with the delimiter and hold it nowhere else.
pub open spec fn delimited(bytes: Seq<u8>) -> bool {
    &&& bytes.len() > 0
    &&& bytes[bytes.len() - 1] == DELIMITER
    &&& forall|i: int| 0 <= i < bytes.len() - 1 ==> bytes[i] != DELIMITER
}

/// The payload of a frame: bytes that are not delimited are no frame, and
/// those that are hold what un-stuffing finds in them.
pub open spec fn frame_payload(bytes: Seq<u8>) -> Option<Seq<u8>> {
    if delimited(bytes) {
        unstuffed(bytes)
    } else {
        None
    }
}

/// The request in a frame, or why there is none.
pub open spec fn request_of_frame(bytes: Seq<u8>) -> Result<RequestView, Fault> {
    match frame_payload(bytes) {
        Some(payload) => match parse_request(payload) {
            Some(request) => Ok(request),
            None => Err(Fault::Decode),
        },
        None => Err(Fault::Framing),
    }
}

/// The response in a frame, read as the answer to `answering`, or why there
/// is none.
pub open spec fn response_of_frame(answering: RequestView, bytes: Seq<u8>) -> Result<
    ResponseView,
    Fault,
> {
    match frame_payload(bytes) {
        Some(payload) => match parse_response(answering, payload) {
            Some(response) => Ok(response),
            None => Err(Fault::Decode),
        },
        None => Err(Fault::Framing),
    }
}

/// The frame of a payload, or the error where none can be built.
pub open spec fn frame_of(payload: Seq<u8>) -> Result<Seq<u8>, Fault> {
    match stuffed(payload) {
        Some(frame) => Ok(frame),
        None => Err(Fault::Framing),
    }
}

/// The bytes of a result that holds bytes.
pub open spec fn bytes_of(outcome: Result<Vec<u8>, Fault>) -> Result<Seq<u8>, Fault> {
    match outcome {
        Ok(bytes) => Ok(bytes@),
        Err(error) => Err(error),
    }
}

/// The COBS flavor of `postcard` over a vector (`ser_flavors::Cobs` around
/// `ser_flavors::StdVec`), fed the payload byte by byte and then finalized, as
/// `postcard::to_stdvec_cobs` feeds it the encoding of a value. What it
/// returns is named [`stuffed`]. Its last step appends the delimiter, and no
/// byte that it writes before that is the delimiter: a code byte counts from
/// one, and a payload byte is copied only where it is not zero.
#[verifier::external_body]
fn stuff(payload: &[u8]) -> (frame: Result<Vec<u8>, postcard::Error>)
    ensures
        match stuffed(payload@) {
            Some(bytes) => frame matches Ok(made) && made@ == bytes,
            None => frame is Err,
        },
        frame matches Ok(made) ==> delimited(made@),
{
    let mut flavor = postcard::ser_flavors::Cobs::try_new(postcard::ser_flavors::StdVec::new())?;
    postcard::ser_flavors::Flavor::try_extend(&mut flavor, payload)?;
    postcard::ser_flavors::Flavor::finalize(flavor)
}

/// `cobs::decode_in_place`, which `postcard::from_bytes_cobs` calls before it
/// reads a value: it un-stuffs the bytes within their own buffer and returns
/// the length of the payload, which is here cut to that length. What it
/// returns is named [`unstuffed`].
#[verifier::external_body]
fn unstuff(bytes: Vec<u8>) -> (payload: Result<Vec<u8>, cobs::DecodeError>)
    ensures
        match unstuffed(bytes@) {
            Some(found) => payload matches Ok(made) && made@ == found,
            None => payload is Err,
        },
{
    let mut buffer = bytes;
    let len = cobs::decode_in_place(&mut buffer)?;
    buffer.truncate(len);
    Ok(buffer)
}

/// Whether `bytes` end with the delimiter and hold it nowhere else.
pub fn is_delimited(bytes: &[u8]) -> (yes: bool)
    ensures
        yes == delimited(bytes@),
{
    let len: usize = bytes.len();
    if len == 0 {
        return false;
    }
    let mut i: usize = 0;
    while i < len - 1
        invariant
            len == bytes@.len(),
            0 < len,
            i <= len - 1,
            forall|j: int| 0 <= j < i ==> bytes@[j] != DELIMITER,
        decreases len - i,
    {
        if bytes[i] == DELIMITER {
            return false;
        }
        i = i + 1;
    }
    bytes[len - 1] == DELIMITER
}

/// Builds the frame of a payload: the stuffed payload and the delimiter. Fails
/// with [`Fault::Framing`], and only where the stuffing reports an error.
pub fn encode_frame(payload: &[u8]) -> (frame: Result<Vec<u8>, Fault>)
    ensures
        bytes_of(frame) == frame_of(payload@),
        frame matches Ok(made) ==> delimited(made@),
{
    match stuff(payload) {
        Ok(made) => Ok(made),
        Err(_) => Err(Fault::Framing),
    }
}

/// Takes the payload out of the bytes that were read up to and including a
/// delimiter. Fails with [`Fault::Framing`], and only where the bytes are not
/// delimited (the stream ended within a frame) or cannot be un-stuffed.
pub fn decode_frame(bytes: Vec<u8>) -> (payload: Result<Vec<u8>, Fault>)
    ensures
        match frame_payload(bytes@) {
            Some(found) => payload matches Ok(made) && made@ == found,
            None => payload == Err::<Vec<u8>, Fault>(Fault::Framing),
        },
{
    if !is_delimited(bytes.as_slice()) {
        return Err(Fault::Framing);
    }
    match unstuff(bytes) {
        Ok(made) => Ok(made),
        Err(_) => Err(Fault::Framing),
    }
}

/// Encodes a request and frames it.
pub fn encode_request(request: &Request) -> (frame: Result<Vec<u8>, Fault>)
    ensures
        bytes_of(frame) == frame_of(request_payload(request@)),
        frame matches Ok(made) ==> delimited(made@),
        request_fits(request@),
{
    let payload = write_request(request);
    encode_frame(payload.as_slice())
}

/// Takes the request out of a frame. Fails with [`Fault::Framing`] where the
/// bytes are no frame, with [`Fault::Decode`] where the frame holds no
/// request, and not otherwise.
pub fn decode_request(bytes: Vec<u8>) -> (request: Result<Request, Fault>)
    ensures
        match request_of_frame(bytes@) {
            Ok(content) => request matches Ok(read) && read@ == content,
            Err(error) => request == Err::<Request, Fault>(error),
        },
{
    match decode_frame(bytes) {
        Ok(payload) => read_request(payload.as_slice()),
        Err(error) => Err(error),
    }
}

/// Encodes a response and frames it.
pub fn encode_response(response: &Response) -> (frame: Result<Vec<u8>, Fault>)
    ensures
        bytes_of(frame) == frame_of(response_payload(response@)),
        frame matches Ok(made) ==> delimited(made@),
        response_fits(response@),
{
    let payload = write_response(response);
    encode_frame(payload.as_slice())
}

/// Takes the response out of a frame, as the answer to `answering`: the
/// encoding does not say which variant it holds. Fails with
/// [`Fault::Framing`] where the bytes are no frame, with [`Fault::Decode`]
/// where the frame holds no such response, and not otherwise.
pub fn decode_response(answering: &Request, bytes: Vec<u8>) -> (response: Result<Response, Fault>)
    ensures
        match response_of_frame(answering@, bytes@) {
            Ok(content) => response matches Ok(read) && read@ == content,
            Err(error) => response == Err::<Response, Fault>(error),
        },
        response matches Ok(read) ==> answering@.answered_by(read@),
{
    match decode_frame(bytes) {
        Ok(payload) => read_response(answering, payload.as_slice()),
        Err(error) => Err(error),
    }
}

/// Frame boundaries are unambiguous: in a stream that starts with a frame, the
/// first delimiter is the one that ends that frame, so what is read up to and
/// including the first delimiter is the frame, whatever follows it.
pub proof fn lemma_first_delimiter_ends_frame(frame: Seq<u8>, rest: Seq<u8>)
    requires
        delimited(frame),
    ensures
        forall|i: int| 0 <= i < frame.len() - 1 ==> (frame + rest)[i] != DELIMITER,
        (frame + rest)[frame.len() - 1] == DELIMITER,
        (frame + rest).subrange(0, frame.len() as int) == frame,
{
    assert((frame + rest).subrange(0, frame.len() as int) =~= frame);
}

/// Framing keeps a request, as far as un-stuffing inverts stuffing: where the
/// frame of a request's encoding is delimited and is un-stuffed to that
/// encoding, the request is read back from the frame. That the un-stuffing
/// inverts the stuffing is a matter of the two crates and is not proved here.
pub proof fn lemma_request_survives_framing(request: RequestView)
    requires
        request_fits(request),
    ensures
        stuffed(request_payload(request)) matches Some(frame) ==> (delimited(frame) && unstuffed(
            frame,
        ) == Some(request_payload(request)) ==> request_of_frame(frame) == Ok::<
            RequestView,
            Fault,
        >(request)),
{
    lemma_request_round_trip(request);
}

/// Framing keeps a response, as far as un-stuffing inverts stuffing: where the
/// frame of a response's encoding is delimited and is un-stuffed to that
/// encoding, the response is read back from the frame by one who knows which
/// request it answers.
pub proof fn lemma_response_survives_framing(answering: RequestView, response: ResponseView)
    requires
        answering.answered_by(response),
        response_fits(response),
    ensures
        stuffed(response_payload(response)) matches Some(frame) ==> (delimited(frame)
            && unstuffed(frame) == Some(response_payload(response)) ==> response_of_frame(
            answering,
            frame,
        ) == Ok::<ResponseView, Fault>(response)),
{
    lemma_response_round_trip(answering, response);
}

} // verus!
