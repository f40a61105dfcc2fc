//! The binary encoding of messages: what stands inside a frame.
//!
//! A length or a variant index is a varint: seven bits to a byte, the least
//! significant group first, the high bit set on every byte but the last. A key
//! is the varint of its length in bytes and then its UTF-8 bytes; a hash is the
//! varint of its length and then its bytes. A request starts with the index of
//! its variant. A response carries no index.

use crate::fault::Fault;
use crate::message::data_server::request;
use crate::message::data_server::response;
use crate::message::data_server::Request;
use crate::message::data_server::RequestView;
use crate::message::data_server::Response;
use crate::message::data_server::ResponseView;
use vstd::prelude::*;
use vstd::slice::slice_subrange;
use vstd::slice::slice_to_vec;
use vstd::utf8::decode_utf8;
use vstd::utf8::encode_utf8;
use vstd::utf8::encode_utf8_decode_utf8;
use vstd::utf8::encode_utf8_valid_utf8;
use vstd::utf8::valid_utf8;

verus! {

/// The varint of `n`.
pub open spec fn varint(n: nat) -> Seq<u8>
    decreases n,
{
    if n < 128 {
        seq![n as u8]
    } else {
        seq![(128 + n % 128) as u8] + varint(n / 128)
    }
}

/// Reads a varint from the front of `bytes`: the number and how many bytes it
/// took. At most `max_len` bytes are read, and where all of them are used the
/// last may not exceed `last_max`. A number need not be written in the fewest
/// bytes to be read.
pub open spec fn parse_varint(bytes: Seq<u8>, max_len: nat, last_max: nat) -> Option<(nat, nat)>
    decreases max_len,
{
    if max_len == 0 || bytes.len() == 0 {
        None
    } else if bytes[0] < 128 {
        if max_len == 1 && bytes[0] > last_max {
            None
        } else {
            Some((bytes[0] as nat, 1nat))
        }
    } else {
        match parse_varint(bytes.skip(1), (max_len - 1) as nat, last_max) {
            Some((rest, used)) => Some(((bytes[0] - 128 + 128 * rest) as nat, used + 1)),
            None => None,
        }
    }
}

/// One more than the largest number that [`parse_varint`] reads within
/// `max_len` bytes.
pub open spec fn varint_bound(max_len: nat, last_max: nat) -> nat
    decreases max_len,
{
    if max_len == 0 {
        0
    } else if max_len == 1 {
        if last_max < 128 {
            last_max + 1
        } else {
            128
        }
    } else {
        128 * varint_bound((max_len - 1) as nat, last_max)
    }
}

/// A variant index is a 32-bit number: five bytes at most.
pub const INDEX_MAX_LEN: usize = 5;

/// The fifth byte of a variant index holds its four highest bits.
pub const INDEX_LAST_MAX: u8 = 15;

/// A length is a 64-bit number: ten bytes at most.
pub const LENGTH_MAX_LEN: usize = 10;

/// The tenth byte of a length holds its highest bit.
pub const LENGTH_LAST_MAX: u8 = 1;

/// What [`parse_varint`] reads is below [`varint_bound`] and took at least one
/// byte, at most `max_len`, and no more than there are.
pub proof fn lemma_parse_varint_bounds(bytes: Seq<u8>, max_len: nat, last_max: nat)
    ensures
        parse_varint(bytes, max_len, last_max) matches Some((n, used)) ==> n < varint_bound(
            max_len,
            last_max,
        ) && 1 <= used <= max_len && used <= bytes.len(),
    decreases max_len,
{
    if max_len > 0 && bytes.len() > 0 && bytes[0] >= 128 {
        lemma_parse_varint_bounds(bytes.skip(1), (max_len - 1) as nat, last_max);
        if max_len >= 2 {
            lemma_varint_bound_positive((max_len - 1) as nat, last_max);
        }
    } else if max_len >= 2 {
        lemma_varint_bound_positive((max_len - 1) as nat, last_max);
    }
}

/// Within a byte or more, some number can be read.
proof fn lemma_varint_bound_positive(max_len: nat, last_max: nat)
    requires
        max_len >= 1,
    ensures
        varint_bound(max_len, last_max) >= 1,
    decreases max_len,
{
    if max_len > 1 {
        lemma_varint_bound_positive((max_len - 1) as nat, last_max);
    }
}

/// The two bounds in use: a variant index is below 2^32, a length below 2^64.
pub proof fn lemma_varint_bounds_in_use()
    ensures
        varint_bound(INDEX_MAX_LEN as nat, INDEX_LAST_MAX as nat) == 0x1_0000_0000,
        varint_bound(LENGTH_MAX_LEN as nat, LENGTH_LAST_MAX as nat) == 0x1_0000_0000_0000_0000,
{
    reveal_with_fuel(varint_bound, 11);
}

/// Reading inverts writing: a varint that is followed by anything is read back
/// as the number it was written from, where the number is within the bound.
pub proof fn lemma_parse_varint_of_varint(n: nat, rest: Seq<u8>, max_len: nat, last_max: nat)
    requires
        n < varint_bound(max_len, last_max),
    ensures
        parse_varint(varint(n) + rest, max_len, last_max) == Some((n, varint(n).len())),
    decreases n,
{
    let bytes = varint(n) + rest;
    if n < 128 {
        assert(bytes[0] == n);
    } else {
        assert(bytes[0] == 128 + n % 128);
        assert(max_len >= 2);
        assert(bytes.skip(1) =~= varint(n / 128) + rest);
        lemma_parse_varint_of_varint(n / 128, rest, (max_len - 1) as nat, last_max);
    }
}

/// Bytes behind the varint of their number.
pub open spec fn length_prefixed(bytes: Seq<u8>) -> Seq<u8> {
    varint(bytes.len()) + bytes
}

/// Reads length-prefixed bytes from the front of `bytes`: the content, and how
/// many bytes prefix and content took together.
pub open spec fn parse_length_prefixed(bytes: Seq<u8>) -> Option<(Seq<u8>, nat)> {
    match parse_varint(bytes, LENGTH_MAX_LEN as nat, LENGTH_LAST_MAX as nat) {
        Some((len, used)) => if used + len <= bytes.len() {
            Some((bytes.subrange(used as int, (used + len) as int), used + len))
        } else {
            None
        },
        None => None,
    }
}

/// Reads a key from the front of `bytes`: length-prefixed bytes that are valid
/// UTF-8.
pub open spec fn parse_key(bytes: Seq<u8>) -> Option<(Seq<char>, nat)> {
    match parse_length_prefixed(bytes) {
        Some((content, used)) => if valid_utf8(content) {
            Some((decode_utf8(content), used))
        } else {
            None
        },
        None => None,
    }
}

/// The index of the `Load` variant of a request.
pub const LOAD_INDEX: u32 = 0;

/// The index of the `Store` variant of a request.
pub const STORE_INDEX: u32 = 1;

/// The encoding of a request: the index of its variant, then its fields in
/// order.
pub open spec fn request_payload(request: RequestView) -> Seq<u8> {
    match request {
        RequestView::Load(key) => varint(LOAD_INDEX as nat) + length_prefixed(encode_utf8(key)),
        RequestView::Store(key, hash) => varint(STORE_INDEX as nat) + length_prefixed(
            encode_utf8(key),
        ) + length_prefixed(hash),
    }
}

/// The request that `bytes` start with, if any. Bytes behind it are ignored.
pub open spec fn parse_request(bytes: Seq<u8>) -> Option<RequestView> {
    match parse_varint(bytes, INDEX_MAX_LEN as nat, INDEX_LAST_MAX as nat) {
        Some((index, used)) => if index == LOAD_INDEX {
            match parse_key(bytes.skip(used as int)) {
                Some((key, _)) => Some(RequestView::Load(key)),
                None => None,
            }
        } else if index == STORE_INDEX {
            match parse_key(bytes.skip(used as int)) {
                Some((key, key_used)) => match parse_length_prefixed(
                    bytes.skip((used + key_used) as int),
                ) {
                    Some((hash, _)) => Some(RequestView::Store(key, hash)),
                    None => None,
                },
                None => None,
            }
        } else {
            None
        },
        None => None,
    }
}

/// The encoding of a response: the fields of its variant, with nothing that
/// tells the variants apart. An absent hash is the byte 0, a present one the
/// byte 1 and the hash; a flag is the byte 0 or 1.
pub open spec fn response_payload(response: ResponseView) -> Seq<u8> {
    match response {
        ResponseView::Load(None) => seq![0u8],
        ResponseView::Load(Some(hash)) => seq![1u8] + length_prefixed(hash),
        ResponseView::Store(success) => seq![if success { 1u8 } else { 0u8 }],
    }
}

/// The response that `bytes` start with, read as the answer to `answering`.
/// Bytes behind it are ignored.
pub open spec fn parse_response(answering: RequestView, bytes: Seq<u8>) -> Option<ResponseView> {
    if bytes.len() == 0 {
        None
    } else {
        match answering {
            RequestView::Load(_) => if bytes[0] == 0 {
                Some(ResponseView::Load(None))
            } else if bytes[0] == 1 {
                match parse_length_prefixed(bytes.skip(1)) {
                    Some((hash, _)) => Some(ResponseView::Load(Some(hash))),
                    None => None,
                }
            } else {
                None
            },
            RequestView::Store(_, _) => if bytes[0] == 0 {
                Some(ResponseView::Store(false))
            } else if bytes[0] == 1 {
                Some(ResponseView::Store(true))
            } else {
                None
            },
        }
    }
}

/// Whether the lengths in a request can be written: the key in UTF-8 and the
/// hash are each shorter than 2^64 bytes. Every [`Request`] in memory is.
pub open spec fn request_fits(request: RequestView) -> bool {
    match request {
        RequestView::Load(key) => encode_utf8(key).len() <= u64::MAX,
        RequestView::Store(key, hash) => encode_utf8(key).len() <= u64::MAX && hash.len()
            <= u64::MAX,
    }
}

/// Whether the length in a response can be written: the hash, if there is one,
/// is shorter than 2^64 bytes. Every [`Response`] in memory is.
pub open spec fn response_fits(response: ResponseView) -> bool {
    match response {
        ResponseView::Load(Some(hash)) => hash.len() <= u64::MAX,
        _ => true,
    }
}

/// Length-prefixed bytes that are followed by anything are read back as they
/// were written.
pub proof fn lemma_parse_length_prefixed(content: Seq<u8>, rest: Seq<u8>)
    requires
        content.len() <= u64::MAX,
    ensures
        parse_length_prefixed(length_prefixed(content) + rest) == Some(
            (content, length_prefixed(content).len()),
        ),
{
    let prefix = varint(content.len());
    let bytes = length_prefixed(content) + rest;
    lemma_varint_bounds_in_use();
    assert(bytes =~= prefix + (content + rest));
    lemma_parse_varint_of_varint(
        content.len(),
        content + rest,
        LENGTH_MAX_LEN as nat,
        LENGTH_LAST_MAX as nat,
    );
    assert(bytes.subrange(prefix.len() as int, (prefix.len() + content.len()) as int) =~= content);
}

/// A key that is followed by anything is read back as it was written.
pub proof fn lemma_parse_key(key: Seq<char>, rest: Seq<u8>)
    requires
        encode_utf8(key).len() <= u64::MAX,
    ensures
        parse_key(length_prefixed(encode_utf8(key)) + rest) == Some(
            (key, length_prefixed(encode_utf8(key)).len()),
        ),
{
    lemma_parse_length_prefixed(encode_utf8(key), rest);
    encode_utf8_valid_utf8(key);
    encode_utf8_decode_utf8(key);
}

/// Decoding inverts encoding, for requests: the encoding of a request is read
/// back as that request.
pub proof fn lemma_request_round_trip(request: RequestView)
    requires
        request_fits(request),
    ensures
        parse_request(request_payload(request)) == Some(request),
{
    lemma_request_then_rest(request, Seq::empty());
    assert(request_payload(request) + Seq::<u8>::empty() =~= request_payload(request));
}

/// Decoding inverts encoding, for responses: the encoding of a response is
/// read back as that response by one who knows which request it answers.
pub proof fn lemma_response_round_trip(answering: RequestView, response: ResponseView)
    requires
        answering.answered_by(response),
        response_fits(response),
    ensures
        parse_response(answering, response_payload(response)) == Some(response),
{
    lemma_response_then_rest(answering, response, Seq::empty());
    assert(response_payload(response) + Seq::<u8>::empty() =~= response_payload(response));
}

/// What follows a request is ignored: the encoding of a request, followed by
/// anything, is read back as that request.
pub proof fn lemma_request_then_rest(request: RequestView, rest: Seq<u8>)
    requires
        request_fits(request),
    ensures
        parse_request(request_payload(request) + rest) == Some(request),
{
    lemma_varint_bounds_in_use();
    match request {
        RequestView::Load(key) => {
            let index = varint(LOAD_INDEX as nat);
            let fields = length_prefixed(encode_utf8(key));
            let bytes = request_payload(request) + rest;
            assert(bytes =~= index + (fields + rest));
            lemma_parse_varint_of_varint(
                LOAD_INDEX as nat,
                fields + rest,
                INDEX_MAX_LEN as nat,
                INDEX_LAST_MAX as nat,
            );
            assert(bytes.skip(index.len() as int) =~= fields + rest);
            lemma_parse_key(key, rest);
        },
        RequestView::Store(key, hash) => {
            let index = varint(STORE_INDEX as nat);
            let first = length_prefixed(encode_utf8(key));
            let second = length_prefixed(hash);
            let bytes = request_payload(request) + rest;
            assert(bytes =~= index + (first + (second + rest)));
            lemma_parse_varint_of_varint(
                STORE_INDEX as nat,
                first + (second + rest),
                INDEX_MAX_LEN as nat,
                INDEX_LAST_MAX as nat,
            );
            assert(bytes.skip(index.len() as int) =~= first + (second + rest));
            lemma_parse_key(key, second + rest);
            assert(bytes.skip((index.len() + first.len()) as int) =~= second + rest);
            lemma_parse_length_prefixed(hash, rest);
        },
    }
}

/// What follows a response is ignored: the encoding of a response, followed
/// by anything, is read back as that response by one who knows which request
/// it answers.
pub proof fn lemma_response_then_rest(answering: RequestView, response: ResponseView, rest: Seq<u8>)
    requires
        answering.answered_by(response),
        response_fits(response),
    ensures
        parse_response(answering, response_payload(response) + rest) == Some(response),
{
    let bytes = response_payload(response) + rest;
    match response {
        ResponseView::Load(Some(hash)) => {
            assert(bytes[0] == 1);
            assert(bytes.skip(1) =~= length_prefixed(hash) + rest);
            lemma_parse_length_prefixed(hash, rest);
        },
        ResponseView::Load(None) => {
            assert(bytes[0] == 0);
        },
        ResponseView::Store(success) => {
            assert(bytes[0] == if success { 1u8 } else { 0u8 });
        },
    }
}

/// An absent hash and a refused write are the same bytes: a response alone
/// does not tell which request it answers.
pub proof fn lemma_response_variants_share_encodings()
    ensures
        response_payload(ResponseView::Load(None)) == response_payload(ResponseView::Store(false)),
{
}

/// The error of `String::from_utf8`, carried through and never looked into.
#[verifier::external_type_specification]
#[verifier::external_body]
pub struct ExFromUtf8Error(std::string::FromUtf8Error);

/// `String::from_utf8` of the standard library. It accepts the bytes exactly
/// when they are valid UTF-8, and the string it then returns holds these very
/// bytes.
#[verifier::external_body]
fn string_from_utf8(bytes: Vec<u8>) -> (text: Result<String, std::string::FromUtf8Error>)
    ensures
        text is Ok <==> valid_utf8(bytes@),
        text matches Ok(string) ==> encode_utf8(string@) == bytes@,
{
    String::from_utf8(bytes)
}

/// Appends the varint of `n` to `out`.
pub fn write_varint(out: &mut Vec<u8>, n: u64)
    ensures
        final(out)@ == old(out)@ + varint(n as nat),
{
    let mut rest: u64 = n;
    while rest >= 128
        invariant
            out@ + varint(rest as nat) == old(out)@ + varint(n as nat),
        decreases rest,
    {
        let low: u8 = (rest % 128) as u8;
        proof {
            assert(varint(rest as nat) == seq![(128 + rest % 128) as u8] + varint((rest / 128) as nat));
            assert(out@.push((128 + low) as u8) + varint((rest / 128) as nat) =~= out@ + varint(
                rest as nat,
            ));
        }
        out.push(128 + low);
        rest = rest / 128;
    }
    proof {
        assert(out@.push(rest as u8) =~= out@ + varint(rest as nat));
    }
    out.push(rest as u8);
}

/// Reads a varint from the front of `bytes`, as [`parse_varint`] does.
fn read_varint(bytes: &[u8], max_len: usize, last_max: u8) -> (found: Option<(u64, usize)>)
    requires
        varint_bound(max_len as nat, last_max as nat) <= 0x1_0000_0000_0000_0000,
    ensures
        match parse_varint(bytes@, max_len as nat, last_max as nat) {
            Some((n, used)) => found matches Some((number, taken)) && number == n && taken == used
                && taken <= bytes@.len(),
            None => found is None,
        },
    decreases max_len,
{
    proof {
        lemma_parse_varint_bounds(bytes@, max_len as nat, last_max as nat);
    }
    let len: usize = bytes.len();
    if max_len == 0 || len == 0 {
        return None;
    }
    let first: u8 = bytes[0];
    if first < 128 {
        if max_len == 1 && first > last_max {
            None
        } else {
            Some((first as u64, 1))
        }
    } else {
        let rest = slice_subrange(bytes, 1, len);
        proof {
            assert(rest@ =~= bytes@.skip(1));
            lemma_parse_varint_bounds(rest@, (max_len - 1) as nat, last_max as nat);
            if max_len >= 2 {
                lemma_varint_bound_positive((max_len - 1) as nat, last_max as nat);
            }
        }
        match read_varint(rest, max_len - 1, last_max) {
            Some((higher, used)) => Some(((first - 128) as u64 + 128 * higher, used + 1)),
            None => None,
        }
    }
}

/// Reads a variant index from the front of `bytes`: the index and how many
/// bytes it took, or `None` where [`parse_varint`] reads none.
pub fn read_index(bytes: &[u8]) -> (found: Option<(u32, usize)>)
    ensures
        match parse_varint(bytes@, INDEX_MAX_LEN as nat, INDEX_LAST_MAX as nat) {
            Some((n, used)) => found matches Some((index, taken)) && index == n && taken == used
                && taken <= bytes@.len(),
            None => found is None,
        },
{
    proof {
        lemma_varint_bounds_in_use();
        lemma_parse_varint_bounds(bytes@, INDEX_MAX_LEN as nat, INDEX_LAST_MAX as nat);
    }
    match read_varint(bytes, INDEX_MAX_LEN, INDEX_LAST_MAX) {
        Some((index, taken)) => Some((index as u32, taken)),
        None => None,
    }
}

/// Reads a length from the front of `bytes`: the length and how many bytes it
/// took, or `None` where [`parse_varint`] reads none.
pub fn read_length(bytes: &[u8]) -> (found: Option<(u64, usize)>)
    ensures
        match parse_varint(bytes@, LENGTH_MAX_LEN as nat, LENGTH_LAST_MAX as nat) {
            Some((n, used)) => found matches Some((len, taken)) && len == n && taken == used
                && taken <= bytes@.len(),
            None => found is None,
        },
{
    proof {
        lemma_varint_bounds_in_use();
    }
    read_varint(bytes, LENGTH_MAX_LEN, LENGTH_LAST_MAX)
}

/// Appends `bytes` to `out`, behind the varint of their number.
pub fn write_length_prefixed(out: &mut Vec<u8>, bytes: &[u8])
    ensures
        final(out)@ == old(out)@ + length_prefixed(bytes@),
        bytes@.len() <= u64::MAX,
{
    write_varint(out, bytes.len() as u64);
    let ghost prefixed = out@;
    out.extend_from_slice(bytes);
    proof {
        assert(out@ =~= prefixed + bytes@);
        assert(out@ =~= old(out)@ + length_prefixed(bytes@));
    }
}

/// Reads length-prefixed bytes from the front of `bytes`: the content and how
/// many bytes prefix and content took together, or `None` where
/// [`parse_length_prefixed`] reads none.
pub fn read_length_prefixed(bytes: &[u8]) -> (found: Option<(&[u8], usize)>)
    ensures
        match parse_length_prefixed(bytes@) {
            Some((content, used)) => found matches Some((read, taken)) && read@ == content
                && taken == used && taken <= bytes@.len(),
            None => found is None,
        },
{
    let total: usize = bytes.len();
    match read_length(bytes) {
        Some((len, from)) => {
            let left: usize = total - from;
            if len > left as u64 {
                None
            } else {
                let to: usize = from + len as usize;
                Some((slice_subrange(bytes, from, to), to))
            }
        },
        None => None,
    }
}

/// Reads a key from the front of `bytes`: the key and how many bytes it took,
/// or `None` where [`parse_key`] reads none.
pub fn read_key(bytes: &[u8]) -> (found: Option<(String, usize)>)
    ensures
        match parse_key(bytes@) {
            Some((key, used)) => found matches Some((text, taken)) && text@ == key && taken
                == used && taken <= bytes@.len(),
            None => found is None,
        },
{
    match read_length_prefixed(bytes) {
        Some((content, taken)) => match string_from_utf8(slice_to_vec(content)) {
            Ok(text) => {
                proof {
                    encode_utf8_decode_utf8(text@);
                }
                Some((text, taken))
            },
            Err(_) => None,
        },
        None => None,
    }
}

/// Encodes a request. The lengths of a request in memory can be written, which
/// the second clause records.
pub fn write_request(request: &Request) -> (bytes: Vec<u8>)
    ensures
        bytes@ == request_payload(request@),
        request_fits(request@),
{
    let mut out: Vec<u8> = Vec::new();
    match request {
        Request::Load(load) => {
            write_varint(&mut out, LOAD_INDEX as u64);
            write_length_prefixed(&mut out, load.key.as_str().as_bytes());
        },
        Request::Store(store) => {
            write_varint(&mut out, STORE_INDEX as u64);
            write_length_prefixed(&mut out, store.key.as_str().as_bytes());
            write_length_prefixed(&mut out, store.hash.as_slice());
        },
    }
    out
}

/// Decodes the request that `bytes` start with. Bytes behind it are ignored.
/// Fails with [`Fault::Decode`], and only where the bytes start with no
/// request.
pub fn read_request(bytes: &[u8]) -> (request: Result<Request, Fault>)
    ensures
        match parse_request(bytes@) {
            Some(content) => request matches Ok(read) && read@ == content,
            None => request == Err::<Request, Fault>(Fault::Decode),
        },
{
    let total: usize = bytes.len();
    match read_index(bytes) {
        Some((index, used)) => {
            let fields = slice_subrange(bytes, used, total);
            if index == LOAD_INDEX {
                match read_key(fields) {
                    Some((key, _)) => Ok(Request::Load(request::Load { key })),
                    None => Err(Fault::Decode),
                }
            } else if index == STORE_INDEX {
                match read_key(fields) {
                    Some((key, key_used)) => {
                        let behind = slice_subrange(bytes, used + key_used, total);
                        match read_length_prefixed(behind) {
                            Some((hash, _)) => Ok(
                                Request::Store(request::Store { key, hash: slice_to_vec(hash) }),
                            ),
                            None => Err(Fault::Decode),
                        }
                    },
                    None => Err(Fault::Decode),
                }
            } else {
                Err(Fault::Decode)
            }
        },
        None => Err(Fault::Decode),
    }
}

/// Encodes a response. The length in a response in memory can be written,
/// which the second clause records.
pub fn write_response(response: &Response) -> (bytes: Vec<u8>)
    ensures
        bytes@ == response_payload(response@),
        response_fits(response@),
{
    let mut out: Vec<u8> = Vec::new();
    match response {
        Response::Load(load) => match &load.hash {
            Some(hash) => {
                out.push(1);
                write_length_prefixed(&mut out, hash.as_slice());
            },
            None => {
                out.push(0);
            },
        },
        Response::Store(store) => {
            if store.success {
                out.push(1);
            } else {
                out.push(0);
            }
        },
    }
    proof {
        assert(out@ =~= response_payload(response@));
    }
    out
}

/// Decodes the response that `bytes` start with, as the answer to
/// `answering`. Bytes behind it are ignored. Fails with [`Fault::Decode`], and
/// only where the bytes start with no such response.
pub fn read_response(answering: &Request, bytes: &[u8]) -> (response: Result<Response, Fault>)
    ensures
        match parse_response(answering@, bytes@) {
            Some(content) => response matches Ok(read) && read@ == content,
            None => response == Err::<Response, Fault>(Fault::Decode),
        },
        response matches Ok(read) ==> answering@.answered_by(read@),
{
    let total: usize = bytes.len();
    if total == 0 {
        return Err(Fault::Decode);
    }
    let first: u8 = bytes[0];
    match answering {
        Request::Load(_) => {
            if first == 0 {
                Ok(Response::Load(response::Load { hash: None }))
            } else if first == 1 {
                match read_length_prefixed(slice_subrange(bytes, 1, total)) {
                    Some((hash, _)) => Ok(
                        Response::Load(response::Load { hash: Some(slice_to_vec(hash)) }),
                    ),
                    None => Err(Fault::Decode),
                }
            } else {
                Err(Fault::Decode)
            }
        },
        Request::Store(_) => {
            if first == 0 {
                Ok(Response::Store(response::Store { success: false }))
            } else if first == 1 {
                Ok(Response::Store(response::Store { success: true }))
            } else {
                Err(Fault::Decode)
            }
        },
    }
}

} // verus!
